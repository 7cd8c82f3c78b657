use vstd::prelude::*;

use crate::chars::{chars_of, copy_range, string_of};

verus! {

/// A path that starts at the root.
pub open spec fn is_absolute(p: Seq<char>) -> bool {
    p.len() > 0 && p[0] == '/'
}

/// Whether `base` names `p` or one of its ancestors, comparing whole
/// components. Paths are taken in normal form: no empty, `.` or `..`
/// component and no trailing separator but in `/` itself.
pub open spec fn path_starts_with(p: Seq<char>, base: Seq<char>) -> bool {
    base.len() <= p.len() && p.subrange(0, base.len() as int) == base && (p.len() == base.len() || (
    base.len() > 0 && base[base.len() - 1] == '/') || p[base.len() as int] == '/')
}

/// Every path starts with itself.
pub proof fn lemma_starts_with_self(p: Seq<char>)
    ensures
        path_starts_with(p, p),
{
    assert(p.subrange(0, p.len() as int) =~= p);
}

/// The position of the last separator in `p`, -1 if there is none.
pub open spec fn last_sep(p: Seq<char>) -> int
    decreases p.len(),
{
    if p.len() == 0 {
        -1
    } else if p.last() == '/' {
        p.len() - 1
    } else {
        last_sep(p.drop_last())
    }
}

/// The last component of a path: what follows its last separator, if that is
/// a name (not empty, `.` or `..`).
pub open spec fn file_name_of(p: Seq<char>) -> Option<Seq<char>> {
    let n = p.subrange(last_sep(p) + 1, p.len() as int);
    if n.len() == 0 || n == seq!['.'] || n == seq!['.', '.'] {
        None
    } else {
        Some(n)
    }
}

/// The path without its last component; none for the root and the empty path.
pub open spec fn parent_of(p: Seq<char>) -> Option<Seq<char>> {
    let k = last_sep(p);
    if p.len() == 0 || p == seq!['/'] {
        None
    } else if k < 0 {
        Some(Seq::empty())
    } else if k == 0 {
        Some(seq!['/'])
    } else {
        Some(p.subrange(0, k))
    }
}

/// `name` put below `dir`: an absolute `name` stands for itself.
pub open spec fn join_path(dir: Seq<char>, name: Seq<char>) -> Seq<char> {
    if is_absolute(name) || dir.len() == 0 {
        name
    } else if dir.last() == '/' {
        dir + name
    } else {
        dir + seq!['/'] + name
    }
}

/// What `path_clean::clean` returns for a path: the same path in normal form,
/// computed without touching the file system.
pub uninterp spec fn cleaned(p: Seq<char>) -> Seq<char>;

/// A path made absolute against the working directory `cwd`, then normalized.
pub open spec fn resolved(cwd: Seq<char>, p: Seq<char>) -> Seq<char> {
    if is_absolute(p) {
        cleaned(p)
    } else {
        cleaned(join_path(cwd, p))
    }
}

/// Relies on `path_clean::clean`: the lexical normal form of a path (single
/// separators, no `.`, `..` resolved, no trailing separator). A path already
/// in that form is left as it is, so cleaning twice changes nothing.
#[verifier::external_body]
pub(crate) fn clean(p: &str) -> (r: String)
    ensures
        r@ == cleaned(p@),
        cleaned(r@) == r@,
{
    path_clean::clean(p)
}

proof fn lemma_last_sep_bounds(p: Seq<char>)
    ensures
        -1 <= last_sep(p) < p.len(),
        last_sep(p) >= 0 ==> p[last_sep(p)] == '/',
    decreases p.len(),
{
    if p.len() > 0 && p.last() != '/' {
        lemma_last_sep_bounds(p.drop_last());
    }
}

/// Where the last component of `p` starts: just after its last separator.
fn name_start(p: &Vec<char>) -> (r: usize)
    ensures
        r == last_sep(p@) + 1,
        r <= p.len(),
{
    proof {
        lemma_last_sep_bounds(p@);
    }
    let mut j: usize = p.len();
    assert(p@.subrange(0, j as int) =~= p@);
    while j > 0
        invariant
            j <= p.len(),
            last_sep(p@.subrange(0, j as int)) == last_sep(p@),
        decreases j,
    {
        let ghost q = p@.subrange(0, j as int);
        assert(q.drop_last() =~= p@.subrange(0, j - 1));
        if p[j - 1] == '/' {
            assert(q.last() == '/');
            return j;
        }
        j = j - 1;
    }
    0
}

fn is_dot_or_dotdot(n: &Vec<char>) -> (r: bool)
    ensures
        r == (n@ == seq!['.'] || n@ == seq!['.', '.']),
{
    if n.len() == 1 {
        let r = n[0] == '.';
        assert(r ==> n@ =~= seq!['.']);
        r
    } else if n.len() == 2 {
        let r = n[0] == '.' && n[1] == '.';
        assert(r ==> n@ =~= seq!['.', '.']);
        r
    } else {
        false
    }
}

/// Whether `base` names `file` or one of its ancestors, by whole components.
pub fn starts_with(file: &str, base: &str) -> (r: bool)
    ensures
        r == path_starts_with(file@, base@),
{
    let p = chars_of(file);
    let b = chars_of(base);
    if b.len() > p.len() {
        return false;
    }
    let mut j: usize = 0;
    while j < b.len()
        invariant
            p@ == file@,
            b@ == base@,
            b.len() <= p.len(),
            j <= b.len(),
            forall|k: int| 0 <= k < j ==> p@[k] == b@[k],
        decreases b.len() - j,
    {
        if p[j] != b[j] {
            assert(p@.subrange(0, b.len() as int)[j as int] != b@[j as int]);
            assert(p@.subrange(0, b.len() as int) != b@);
            return false;
        }
        j = j + 1;
    }
    assert(p@.subrange(0, b.len() as int) =~= b@);
    p.len() == b.len() || (b.len() > 0 && b[b.len() - 1] == '/') || p[b.len()] == '/'
}

/// The last component of `path`, if it is a name.
pub fn file_name(path: &str) -> (r: Option<String>)
    ensures
        r is Some <==> file_name_of(path@) is Some,
        r is Some ==> file_name_of(path@) == Some(r->Some_0@),
{
    let p = chars_of(path);
    let k = name_start(&p);
    let n = copy_range(&p, k, p.len());
    if n.len() == 0 || is_dot_or_dotdot(&n) {
        None
    } else {
        Some(string_of(&n))
    }
}

/// The path that contains `path`, if any.
pub fn parent(path: &str) -> (r: Option<String>)
    ensures
        r is Some <==> parent_of(path@) is Some,
        r is Some ==> parent_of(path@) == Some(r->Some_0@),
{
    let p = chars_of(path);
    let k = name_start(&p);
    if p.len() == 0 || (p.len() == 1 && p[0] == '/') {
        assert(p.len() == 1 ==> p@ =~= seq!['/']);
        None
    } else if k == 0 {
        Some(String::new())
    } else if k == 1 {
        let root: Vec<char> = vec!['/'];
        assert(root@ =~= seq!['/']);
        Some(string_of(&root))
    } else {
        Some(string_of(&copy_range(&p, 0, k - 1)))
    }
}

/// `name` put below `dir`.
pub fn join(dir: &str, name: &str) -> (r: String)
    ensures
        r@ == join_path(dir@, name@),
{
    let d = chars_of(dir);
    let n = chars_of(name);
    if (n.len() > 0 && n[0] == '/') || d.len() == 0 {
        name.to_owned()
    } else if d[d.len() - 1] == '/' {
        dir.to_owned().concat(name)
    } else {
        proof {
            reveal_strlit("/");
        }
        assert("/"@ =~= seq!['/']);
        dir.to_owned().concat("/").concat(name)
    }
}

/// `path` made absolute against the working directory `cwd` and normalized,
/// without touching the file system.
pub fn absolute_path(cwd: &str, path: &str) -> (r: String)
    ensures
        r@ == resolved(cwd@, path@),
        cleaned(r@) == r@,
{
    let p = chars_of(path);
    if p.len() > 0 && p[0] == '/' {
        clean(path)
    } else {
        let joined = join(cwd, path);
        clean(joined.as_str())
    }
}

/// The mount point that holds `file`: the longest of `mountpoints` that names
/// `file` or one of its ancestors, if any does.
pub fn get_physical_mountpoint_of_file(file: &str, mountpoints: &Vec<String>) -> (r: Option<
    String,
>)
    ensures
        r is None <==> forall|i: int|
            0 <= i < mountpoints.len() ==> !path_starts_with(file@, #[trigger] mountpoints@[i]@),
        r is Some ==> exists|i: int|
            0 <= i < mountpoints.len() && #[trigger] mountpoints@[i]@ == r->Some_0@
                && path_starts_with(file@, r->Some_0@),
        r is Some ==> forall|j: int|
            0 <= j < mountpoints.len() && path_starts_with(file@, #[trigger] mountpoints@[j]@)
                ==> mountpoints@[j]@.len() <= r->Some_0@.len(),
{
    let mut best: Option<String> = None;
    let mut i: usize = 0;
    while i < mountpoints.len()
        invariant
            i <= mountpoints.len(),
            best is None <==> forall|j: int|
                0 <= j < i ==> !path_starts_with(file@, #[trigger] mountpoints@[j]@),
            best is Some ==> exists|j: int|
                0 <= j < i && #[trigger] mountpoints@[j]@ == best->Some_0@ && path_starts_with(
                    file@,
                    best->Some_0@,
                ),
            best is Some ==> forall|j: int|
                0 <= j < i && path_starts_with(file@, #[trigger] mountpoints@[j]@)
                    ==> mountpoints@[j]@.len() <= best->Some_0@.len(),
        decreases mountpoints.len() - i,
    {
        let m = &mountpoints[i];
        if starts_with(file, m.as_str()) {
            let longer = match &best {
                None => true,
                Some(b) => chars_of(b.as_str()).len() < chars_of(m.as_str()).len(),
            };
            if longer {
                best = Some(m.clone());
            }
        }
        i = i + 1;
    }
    best
}

/// Paths that can be made absolute against a working directory and
/// normalized, without touching the file system.
pub trait AbsolutePath {
    /// The characters of the path.
    spec fn path_view(&self) -> Seq<char>;

    fn absolute_path(&self, cwd: &str) -> (r: String)
        ensures
            r@ == resolved(cwd@, self.path_view()),
    ;
}

impl AbsolutePath for str {
    open spec fn path_view(&self) -> Seq<char> {
        self@
    }

    fn absolute_path(&self, cwd: &str) -> (r: String) {
        absolute_path(cwd, self)
    }
}

impl AbsolutePath for String {
    open spec fn path_view(&self) -> Seq<char> {
        self@
    }

    fn absolute_path(&self, cwd: &str) -> (r: String) {
        absolute_path(cwd, self.as_str())
    }
}

} // verus!
