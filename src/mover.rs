use vstd::prelude::*;
use vstd::set_lib::{lemma_int_range, lemma_len_subset, lemma_map_size, set_int_range};

use crate::chars::{chars_of, string_of};
use crate::codec::{digit_char, digit_value};
use crate::error::{TrashError, TrashErrorKind};
use crate::path::{file_name, file_name_of, join, join_path, parent, parent_of};

verus! {

/// `k` in decimal, without leading zeros.
pub open spec fn decimal(k: nat) -> Seq<char>
    decreases k,
{
    if k < 10 {
        seq![digit_char(k as int)]
    } else {
        decimal(k / 10) + seq![digit_char((k % 10) as int)]
    }
}

/// The `k`-th name tried for `name` when its place is taken: `name` itself,
/// then `name_1`, `name_2`, and so on.
pub open spec fn conflict_name(name: Seq<char>, k: nat) -> Seq<char> {
    if k == 0 {
        name
    } else {
        name + seq!['_'] + decimal(k)
    }
}

/// The names held by a list of strings.
pub open spec fn names_of(taken: Seq<String>) -> Seq<Seq<char>> {
    taken.map_values(|s: String| s@)
}

/// `conflict_name(name, k)` is free and every name tried before it is taken.
pub open spec fn is_first_free(name: Seq<char>, taken: Seq<Seq<char>>, k: nat) -> bool {
    !taken.contains(conflict_name(name, k)) && forall|j: nat| j < k ==> taken.contains(
        #[trigger] conflict_name(name, j),
    )
}

proof fn lemma_decimal_len(k: nat)
    ensures
        decimal(k).len() >= 1,
        k >= 10 ==> decimal(k).len() >= 2,
    decreases k,
{
    if k >= 10 {
        lemma_decimal_len(k / 10);
    }
}

proof fn lemma_decimal_injective(a: nat, b: nat)
    requires
        decimal(a) == decimal(b),
    ensures
        a == b,
    decreases a,
{
    lemma_decimal_len(a);
    lemma_decimal_len(b);
    if a < 10 && b < 10 {
        assert(digit_value(decimal(a)[0]) == a);
        assert(digit_value(decimal(b)[0]) == b);
    } else if a >= 10 && b >= 10 {
        let da = decimal(a);
        let db = decimal(b);
        assert(digit_value(da.last()) == a % 10);
        assert(digit_value(db.last()) == b % 10);
        assert(decimal(a / 10) =~= da.drop_last());
        assert(decimal(b / 10) =~= db.drop_last());
        lemma_decimal_injective(a / 10, b / 10);
    }
}

proof fn lemma_conflict_name_injective(name: Seq<char>, a: nat, b: nat)
    requires
        conflict_name(name, a) == conflict_name(name, b),
    ensures
        a == b,
{
    lemma_decimal_len(a);
    lemma_decimal_len(b);
    if a > 0 && b > 0 {
        let n = name.len() + 1;
        assert(conflict_name(name, a).subrange(n as int, conflict_name(name, a).len() as int)
            =~= decimal(a));
        assert(conflict_name(name, b).subrange(n as int, conflict_name(name, b).len() as int)
            =~= decimal(b));
        lemma_decimal_injective(a, b);
    }
}

/// Among the first `m` names tried, at most as many are taken as the list
/// holds: so if they are all taken, `m` is at most its length.
proof fn lemma_taken_bound(name: Seq<char>, taken: Seq<Seq<char>>, m: nat)
    requires
        forall|j: nat| j < m ==> taken.contains(#[trigger] conflict_name(name, j)),
    ensures
        m <= taken.len(),
{
    let f = |k: int| conflict_name(name, k as nat);
    let a = set_int_range(0, m as int);
    lemma_int_range(0, m as int);
    assert forall|x: int, y: int| a.contains(x) && a.contains(y) && #[trigger] f(x) == #[trigger] f(
        y,
    ) implies x == y by {
        lemma_conflict_name_injective(name, x as nat, y as nat);
    }
    lemma_map_size(a, a.map(f), f);
    assert forall|s: Seq<char>| a.map(f).contains(s) implies taken.to_set().contains(s) by {
        let k = choose|k: int| a.contains(k) && f(k) == s;
        assert(taken.contains(conflict_name(name, k as nat)));
    }
    lemma_len_subset(a.map(f), taken.to_set());
    taken.lemma_cardinality_of_set();
}

/// Appends `k` in decimal.
fn push_decimal(v: &mut Vec<char>, k: u64)
    ensures
        final(v)@ == old(v)@ + decimal(k as nat),
    decreases k,
{
    if k >= 10 {
        push_decimal(v, k / 10);
    }
    let d = (k % 10) as u32;
    let c = match d {
        0 => '0',
        1 => '1',
        2 => '2',
        3 => '3',
        4 => '4',
        5 => '5',
        6 => '6',
        7 => '7',
        8 => '8',
        _ => '9',
    };
    v.push(c);
    assert(final(v)@ =~= old(v)@ + decimal(k as nat));
}

fn conflict_name_exec(name: &str, k: u64) -> (r: String)
    ensures
        r@ == conflict_name(name@, k as nat),
{
    if k == 0 {
        return name.to_owned();
    }
    let mut v = chars_of(name);
    v.push('_');
    push_decimal(&mut v, k);
    assert(v@ =~= conflict_name(name@, k as nat));
    string_of(&v)
}

fn contains_name(taken: &Vec<String>, s: &String) -> (r: bool)
    ensures
        r == names_of(taken@).contains(s@),
{
    let mut i: usize = 0;
    while i < taken.len()
        invariant
            i <= taken.len(),
            forall|j: int| 0 <= j < i ==> taken@[j]@ != s@,
        decreases taken.len() - i,
    {
        if taken[i] == *s {
            assert(names_of(taken@)[i as int] == s@);
            return true;
        }
        i = i + 1;
    }
    assert forall|j: int| 0 <= j < names_of(taken@).len() implies names_of(taken@)[j] != s@ by {
        assert(names_of(taken@)[j] == taken@[j]@);
    }
    false
}

/// The first free name for `name` among the names `taken`: `name` itself if
/// it is free, else `name_1`, `name_2`, ... whichever comes first. The result
/// is never one of the names taken.
pub fn first_free_name(name: &str, taken: &Vec<String>) -> (r: String)
    ensures
        exists|k: nat| r@ == conflict_name(name@, k) && is_first_free(name@, names_of(taken@), k),
        !names_of(taken@).contains(r@),
{
    let ghost names = names_of(taken@);
    let mut k: u64 = 0;
    let mut candidate = name.to_owned();
    while contains_name(taken, &candidate)
        invariant
            names == names_of(taken@),
            names.len() == taken@.len(),
            k <= taken.len(),
            candidate@ == conflict_name(name@, k as nat),
            forall|j: nat| j < k ==> names.contains(#[trigger] conflict_name(name@, j)),
        decreases taken.len() - k,
    {
        proof {
            assert forall|j: nat| j < k + 1 implies names.contains(
                #[trigger] conflict_name(name@, j),
            ) by {}
            lemma_taken_bound(name@, names, (k + 1) as nat);
        }
        k = k + 1;
        candidate = conflict_name_exec(name, k);
    }
    candidate
}

/// Where a move of `from` to `to` lands before name conflicts are settled:
/// into `to` under the name of `from` when `to` is a directory, else into the
/// parent of `to` under the name of `to`.
pub open spec fn move_target_of(from: Seq<char>, to: Seq<char>, to_is_dir: bool) -> Option<
    (Seq<char>, Seq<char>),
> {
    if to_is_dir {
        match file_name_of(from) {
            Some(n) => Some((to, n)),
            None => None,
        }
    } else {
        match (parent_of(to), file_name_of(to)) {
            (Some(d), Some(n)) => Some((d, n)),
            _ => None,
        }
    }
}

/// The directory a move lands in and the name it wants there.
#[derive(Clone, Debug, PartialEq, Eq)]
pub struct MoveTarget {
    pub dir: String,
    pub name: String,
}

/// Decides where a move of `from` to `to` lands, given whether `from` exists
/// and whether `to` is an existing directory. Fails with `NotFound` if `from`
/// does not exist and with `Path` if no directory and name follow from the
/// paths (`to` is the root, or a name is missing).
pub fn move_target(from: &str, to: &str, from_exists: bool, to_is_dir: bool) -> (r: Result<
    MoveTarget,
    TrashError,
>)
    ensures
        !from_exists ==> r is Err && r->Err_0.kind is NotFound && r->Err_0.kind->NotFound_0@
            == from@,
        from_exists ==> (r is Ok <==> move_target_of(from@, to@, to_is_dir) is Some),
        r is Ok ==> move_target_of(from@, to@, to_is_dir) == Some(
            (r->Ok_0.dir@, r->Ok_0.name@),
        ),
        from_exists && move_target_of(from@, to@, to_is_dir) is None ==> r is Err
            && r->Err_0.kind is Path && r->Err_0.kind->Path_0@ == to@,
{
    if !from_exists {
        return Err(TrashError::new(TrashErrorKind::NotFound(from.to_owned())));
    }
    if to_is_dir {
        match file_name(from) {
            Some(name) => Ok(MoveTarget { dir: to.to_owned(), name }),
            None => Err(TrashError::new(TrashErrorKind::Path(to.to_owned()))),
        }
    } else {
        match (parent(to), file_name(to)) {
            (Some(dir), Some(name)) => Ok(MoveTarget { dir, name }),
            _ => Err(TrashError::new(TrashErrorKind::Path(to.to_owned()))),
        }
    }
}

impl MoveTarget {
    /// The path the move goes to, given the names `taken` in the target
    /// directory: `<dir>/<name>` if the name is free, else the first free of
    /// `<name>_1`, `<name>_2`, ... It never names an existing entry.
    pub fn destination(&self, taken: &Vec<String>) -> (r: String)
        ensures
            exists|k: nat|
                r@ == join_path(self.dir@, conflict_name(self.name@, k)) && is_first_free(
                    self.name@,
                    names_of(taken@),
                    k,
                ),
    {
        let free = first_free_name(self.name.as_str(), taken);
        join(self.dir.as_str(), free.as_str())
    }
}

} // verus!
