use vstd::prelude::*;

use crate::chars::{
    chars_of, lemma_line_end_at, copy_range, line_end, line_end_exec, occurs_at, occurs_at_exec, push_str, string_of,
};
use crate::datetime::{fields_valid, LocalDateTime};
use crate::error::{TrashError, TrashErrorKind};

verus! {

/// The character of a decimal digit.
pub open spec fn digit_char(k: int) -> char {
    if k == 0 {
        '0'
    } else if k == 1 {
        '1'
    } else if k == 2 {
        '2'
    } else if k == 3 {
        '3'
    } else if k == 4 {
        '4'
    } else if k == 5 {
        '5'
    } else if k == 6 {
        '6'
    } else if k == 7 {
        '7'
    } else if k == 8 {
        '8'
    } else {
        '9'
    }
}

/// The value of a decimal digit character, -1 for any other character.
pub open spec fn digit_value(c: char) -> int {
    if c == '0' {
        0
    } else if c == '1' {
        1
    } else if c == '2' {
        2
    } else if c == '3' {
        3
    } else if c == '4' {
        4
    } else if c == '5' {
        5
    } else if c == '6' {
        6
    } else if c == '7' {
        7
    } else if c == '8' {
        8
    } else if c == '9' {
        9
    } else {
        -1
    }
}

/// `n` (below 100) as two digits, zero-padded.
pub open spec fn pad2(n: int) -> Seq<char> {
    seq![digit_char(n / 10), digit_char(n % 10)]
}

/// `n` (below 10000) as four digits, zero-padded.
pub open spec fn pad4(n: int) -> Seq<char> {
    pad2(n / 100) + pad2(n % 100)
}

/// Whether `s` holds two digits at position `i`.
pub open spec fn digits2_at(s: Seq<char>, i: int) -> bool {
    0 <= digit_value(s[i]) && 0 <= digit_value(s[i + 1])
}

/// The value of the two digits of `s` at position `i`.
pub open spec fn num2_at(s: Seq<char>, i: int) -> int {
    10 * digit_value(s[i]) + digit_value(s[i + 1])
}

/// The date and time in the sidecar format: `YYYY-MM-DDTHH:MM:SS`.
pub open spec fn date_text(f: (int, int, int, int, int, int)) -> Seq<char> {
    pad4(f.0) + seq!['-'] + pad2(f.1) + seq!['-'] + pad2(f.2) + seq!['T'] + pad2(f.3) + seq![':']
        + pad2(f.4) + seq![':'] + pad2(f.5)
}

/// The fields of a date and time written as `YYYY-MM-DDTHH:MM:SS`, if the text
/// has exactly that shape and names an existing day and a valid time.
pub open spec fn parse_date_text(t: Seq<char>) -> Option<(int, int, int, int, int, int)> {
    if t.len() == 19 && t[4] == '-' && t[7] == '-' && t[10] == 'T' && t[13] == ':' && t[16] == ':'
        && digits2_at(t, 0) && digits2_at(t, 2) && digits2_at(t, 5) && digits2_at(t, 8)
        && digits2_at(t, 11) && digits2_at(t, 14) && digits2_at(t, 17) {
        let f = (
            100 * num2_at(t, 0) + num2_at(t, 2),
            num2_at(t, 5),
            num2_at(t, 8),
            num2_at(t, 11),
            num2_at(t, 14),
            num2_at(t, 17),
        );
        if fields_valid(f) {
            Some(f)
        } else {
            None
        }
    } else {
        None
    }
}

/// The first two lines of a sidecar record, up to the original path.
pub open spec fn info_header() -> Seq<char> {
    "[Trash Info]\nPath="@
}

/// What separates the original path from the deletion date.
pub open spec fn date_key() -> Seq<char> {
    "\nDeletionDate="@
}

/// The text of a sidecar record, without its final line feed.
pub open spec fn info_text(path: Seq<char>, date: (int, int, int, int, int, int)) -> Seq<char> {
    info_header() + path + date_key() + date_text(date)
}

/// What a sidecar record holds: the original path and the deletion date, if
/// `s` is a record with or without its final line feed.
pub open spec fn parse_info_text(s: Seq<char>) -> Option<(Seq<char>, (int, int, int, int, int, int))> {
    let h = info_header().len() as int;
    let e = line_end(s, h);
    let d = e + date_key().len();
    if occurs_at(s, 0, info_header()) && occurs_at(s, e, date_key()) && (s.len() == d + 19 || (
    s.len() == d + 20 && s[d + 19] == '\n')) {
        match parse_date_text(s.subrange(d, d + 19)) {
            Some(f) => Some((s.subrange(h, e), f)),
            None => None,
        }
    } else {
        None
    }
}

proof fn lemma_pad2(n: int)
    requires
        0 <= n < 100,
    ensures
        pad2(n).len() == 2,
        0 <= digit_value(pad2(n)[0]) && 0 <= digit_value(pad2(n)[1]),
        10 * digit_value(pad2(n)[0]) + digit_value(pad2(n)[1]) == n,
{
}

/// Reading back the text of a valid date and time gives its fields.
pub proof fn lemma_date_round_trip(f: (int, int, int, int, int, int))
    requires
        fields_valid(f),
    ensures
        date_text(f).len() == 19,
        parse_date_text(date_text(f)) == Some(f),
{
    let t = date_text(f);
    lemma_pad2(f.0 / 100);
    lemma_pad2(f.0 % 100);
    lemma_pad2(f.1);
    lemma_pad2(f.2);
    lemma_pad2(f.3);
    lemma_pad2(f.4);
    lemma_pad2(f.5);
    let a = pad2(f.0 / 100);
    let b = pad2(f.0 % 100);
    assert(t =~= seq![
        a[0], a[1], b[0], b[1], '-',
        pad2(f.1)[0], pad2(f.1)[1], '-',
        pad2(f.2)[0], pad2(f.2)[1], 'T',
        pad2(f.3)[0], pad2(f.3)[1], ':',
        pad2(f.4)[0], pad2(f.4)[1], ':',
        pad2(f.5)[0], pad2(f.5)[1]
    ]);
    assert(num2_at(t, 0) == f.0 / 100);
    assert(num2_at(t, 2) == f.0 % 100);
    assert(num2_at(t, 5) == f.1);
    assert(num2_at(t, 8) == f.2);
    assert(num2_at(t, 11) == f.3);
    assert(num2_at(t, 14) == f.4);
    assert(num2_at(t, 17) == f.5);
}

/// Reading back the sidecar record of a path without line feeds and a valid
/// date gives that path and date, with or without the final line feed.
pub proof fn lemma_info_round_trip(path: Seq<char>, date: (int, int, int, int, int, int))
    requires
        fields_valid(date),
        forall|i: int| 0 <= i < path.len() ==> path[i] != '\n',
    ensures
        parse_info_text(info_text(path, date)) == Some((path, date)),
        parse_info_text(info_text(path, date) + seq!['\n']) == Some((path, date)),
{
    reveal_strlit("[Trash Info]\nPath=");
    reveal_strlit("\nDeletionDate=");
    lemma_date_round_trip(date);
    let h = info_header();
    let k = date_key();
    let t = date_text(date);
    let s = info_text(path, date);
    let s2 = s + seq!['\n'];
    let e = (h.len() + path.len()) as int;
    assert(s[e] == k[0]);
    assert(s2[e] == k[0]);
    assert forall|j: int| h.len() <= j < e implies s[j] != '\n' && s2[j] != '\n' by {
        assert(s[j] == path[j - h.len()]);
        assert(s2[j] == path[j - h.len()]);
    }
    lemma_line_end_at(s, h.len() as int, e);
    lemma_line_end_at(s2, h.len() as int, e);
    let d = e + k.len() as int;
    assert(s.subrange(0, h.len() as int) =~= h);
    assert(s2.subrange(0, h.len() as int) =~= h);
    assert(s.subrange(e, d) =~= k);
    assert(s2.subrange(e, d) =~= k);
    assert(s.subrange(d, d + 19) =~= t);
    assert(s2.subrange(d, d + 19) =~= t);
    assert(s.subrange(h.len() as int, e) =~= path);
    assert(s2.subrange(h.len() as int, e) =~= path);
}

fn digit_char_exec(k: u32) -> (c: char)
    requires
        k < 10,
    ensures
        c == digit_char(k as int),
{
    match k {
        0 => '0',
        1 => '1',
        2 => '2',
        3 => '3',
        4 => '4',
        5 => '5',
        6 => '6',
        7 => '7',
        8 => '8',
        _ => '9',
    }
}

fn digit_value_exec(c: char) -> (r: Option<u32>)
    ensures
        r is Some <==> 0 <= digit_value(c),
        r is Some ==> r->Some_0 == digit_value(c),
{
    match c {
        '0' => Some(0),
        '1' => Some(1),
        '2' => Some(2),
        '3' => Some(3),
        '4' => Some(4),
        '5' => Some(5),
        '6' => Some(6),
        '7' => Some(7),
        '8' => Some(8),
        '9' => Some(9),
        _ => None,
    }
}

fn push_pad2(v: &mut Vec<char>, n: u32)
    requires
        n < 100,
    ensures
        final(v)@ == old(v)@ + pad2(n as int),
{
    v.push(digit_char_exec(n / 10));
    v.push(digit_char_exec(n % 10));
    assert(final(v)@ =~= old(v)@ + pad2(n as int));
}

fn num2_exec(s: &Vec<char>, i: usize) -> (r: Option<u32>)
    requires
        i + 2 <= s.len(),
    ensures
        r is Some <==> digits2_at(s@, i as int),
        r is Some ==> r->Some_0 == num2_at(s@, i as int),
{
    match (digit_value_exec(s[i]), digit_value_exec(s[i + 1])) {
        (Some(a), Some(b)) => Some(10 * a + b),
        _ => None,
    }
}

/// Appends the date and time of `date` in the sidecar format.
pub fn push_date_text(v: &mut Vec<char>, date: &LocalDateTime)
    ensures
        final(v)@ == old(v)@ + date_text(date@),
{
    proof {
        use_type_invariant(date);
    }
    let y = date.year() as u32;
    push_pad2(v, y / 100);
    push_pad2(v, y % 100);
    v.push('-');
    push_pad2(v, date.month());
    v.push('-');
    push_pad2(v, date.day());
    v.push('T');
    push_pad2(v, date.hour());
    v.push(':');
    push_pad2(v, date.minute());
    v.push(':');
    push_pad2(v, date.second());
    assert(final(v)@ =~= old(v)@ + date_text(date@));
}

/// Reads a date and time written as `YYYY-MM-DDTHH:MM:SS` at position `i`.
pub fn parse_date_at(s: &Vec<char>, i: usize) -> (r: Option<LocalDateTime>)
    requires
        i + 19 <= s.len(),
    ensures
        r is Some <==> parse_date_text(s@.subrange(i as int, i + 19)) is Some,
        r is Some ==> parse_date_text(s@.subrange(i as int, i + 19)) == Some(r->Some_0@),
{
    let ghost t = s@.subrange(i as int, i + 19);
    if s[i + 4] != '-' || s[i + 7] != '-' || s[i + 10] != 'T' || s[i + 13] != ':' || s[i + 16]
        != ':' {
        assert(t[4] == s@[i + 4] && t[7] == s@[i + 7] && t[10] == s@[i + 10]);
        assert(t[13] == s@[i + 13] && t[16] == s@[i + 16]);
        return None;
    }
    let y1 = num2_exec(s, i);
    let y2 = num2_exec(s, i + 2);
    let mo = num2_exec(s, i + 5);
    let d = num2_exec(s, i + 8);
    let h = num2_exec(s, i + 11);
    let mi = num2_exec(s, i + 14);
    let se = num2_exec(s, i + 17);
    assert(forall|k: int| 0 <= k < 19 ==> #[trigger] t[k] == s@[i + k]);
    assert(digits2_at(t, 0) == digits2_at(s@, i as int));
    assert(digits2_at(t, 2) == digits2_at(s@, i + 2));
    assert(digits2_at(t, 5) == digits2_at(s@, i + 5));
    assert(digits2_at(t, 8) == digits2_at(s@, i + 8));
    assert(digits2_at(t, 11) == digits2_at(s@, i + 11));
    assert(digits2_at(t, 14) == digits2_at(s@, i + 14));
    assert(digits2_at(t, 17) == digits2_at(s@, i + 17));
    match (y1, y2, mo, d, h, mi, se) {
        (Some(y1), Some(y2), Some(mo), Some(d), Some(h), Some(mi), Some(se)) => {
            assert(num2_at(t, 0) == num2_at(s@, i as int));
            assert(num2_at(t, 2) == num2_at(s@, i + 2));
            assert(num2_at(t, 5) == num2_at(s@, i + 5));
            assert(num2_at(t, 8) == num2_at(s@, i + 8));
            assert(num2_at(t, 11) == num2_at(s@, i + 11));
            assert(num2_at(t, 14) == num2_at(s@, i + 14));
            assert(num2_at(t, 17) == num2_at(s@, i + 17));
            LocalDateTime::new((100 * y1 + y2) as i32, mo, d, h, mi, se)
        },
        _ => None,
    }
}

/// The metadata of one trashed file: where it came from and when it was
/// trashed.
#[derive(Clone, Debug, PartialEq, Eq)]
pub struct TrashInfo {
    pub original_path: String,
    pub deletion_date: LocalDateTime,
}

impl TrashInfo {
    /// The sidecar record of this metadata, without its final line feed.
    pub fn to_string(&self) -> (r: String)
        ensures
            r@ == info_text(self.original_path@, self.deletion_date@),
    {
        let mut v: Vec<char> = Vec::new();
        push_str(&mut v, "[Trash Info]\nPath=");
        push_str(&mut v, self.original_path.as_str());
        push_str(&mut v, "\nDeletionDate=");
        push_date_text(&mut v, &self.deletion_date);
        string_of(&v)
    }

    /// Reads a sidecar record: `[Trash Info]`, `Path=<path>` and
    /// `DeletionDate=<YYYY-MM-DDTHH:MM:SS>`, each line ended by a line feed
    /// but the last, whose line feed may be left out. `None` on any other text.
    pub fn parse(s: &str) -> (r: Option<TrashInfo>)
        ensures
            r is Some <==> parse_info_text(s@) is Some,
            r is Some ==> parse_info_text(s@) == Some(
                (r->Some_0.original_path@, r->Some_0.deletion_date@),
            ),
    {
        let v = chars_of(s);
        let header = chars_of("[Trash Info]\nPath=");
        let key = chars_of("\nDeletionDate=");
        if !occurs_at_exec(&v, 0, &header) {
            return None;
        }
        let e = line_end_exec(&v, header.len());
        if !occurs_at_exec(&v, e, &key) {
            return None;
        }
        let d = e + key.len();
        let rest = v.len() - d;
        if !(rest == 19 || (rest == 20 && v[d + 19] == '\n')) {
            return None;
        }
        match parse_date_at(&v, d) {
            Some(date) => {
                let path = copy_range(&v, header.len(), e);
                Some(TrashInfo { original_path: string_of(&path), deletion_date: date })
            },
            None => None,
        }
    }
}

impl std::str::FromStr for TrashInfo {
    type Err = TrashError;

    /// `TrashInfo::parse`, failing with `ParseTrashInfoError` that carries the text.
    fn from_str(s: &str) -> (r: Result<TrashInfo, TrashError>) {
        match TrashInfo::parse(s) {
            Some(info) => Ok(info),
            None => Err(TrashError::new(TrashErrorKind::ParseTrashInfoError(s.to_owned()))),
        }
    }
}

} // verus!
