//! Classification of a single manifest line as a tag, a file path or a comment.
use crate::text::{chars_of, string_of_range, trim, trim_range};
use vstd::prelude::*;

verus! {

/// Index of the first `:` in `s`, or `s.len()` when there is none.
pub open spec fn colon_index(s: Seq<char>) -> int
    decreases s.len(),
{
    if s.len() == 0 || s[0] == ':' {
        0
    } else {
        1 + colon_index(s.drop_first())
    }
}

/// The line opens with the two-character tag marker `##`.
pub open spec fn starts_tag(s: Seq<char>) -> bool {
    s.len() >= 2 && s[0] == '#' && s[1] == '#'
}

/// The line opens with `#`: it is never a file path.
pub open spec fn starts_comment(s: Seq<char>) -> bool {
    s.len() > 0 && s[0] == '#'
}

/// Splits `s` at its first `:` into the trimmed key and the rest, the colon
/// included; `None` when `s` holds no colon.
pub open spec fn split_key(s: Seq<char>) -> Option<(Seq<char>, Seq<char>)> {
    let i = colon_index(s);
    if i < s.len() {
        Some((trim(s.subrange(0, i)), s.subrange(i, s.len() as int)))
    } else {
        None
    }
}

/// The trimmed text after a leading `:`; `None` when `s` does not open with one.
pub open spec fn split_value(s: Seq<char>) -> Option<Seq<char>> {
    if s.len() > 0 && s[0] == ':' {
        Some(trim(s.drop_first()))
    } else {
        None
    }
}

/// The key and value that a tag line declares: the line opens with `##`, holds
/// a `:`, and the key before the first colon is not blank once trimmed.
pub open spec fn tag_of(line: Seq<char>) -> Option<(Seq<char>, Seq<char>)> {
    if starts_tag(line) {
        match split_key(line.subrange(2, line.len() as int)) {
            Some((k, rest)) => if k.len() > 0 {
                match split_value(rest) {
                    Some(v) => Some((k, v)),
                    None => None,
                }
            } else {
                None
            },
            None => None,
        }
    } else {
        None
    }
}

/// The path that a line names: every line that does not open with `#`,
/// trimmed.
pub open spec fn file_of(line: Seq<char>) -> Option<Seq<char>> {
    if starts_comment(line) {
        None
    } else {
        Some(trim(line))
    }
}

/// What one line of a manifest contributes.
pub enum Line {
    /// A `## key: value` declaration.
    Tag(String, String),
    /// A path to load.
    File(String),
    /// A comment, or a `#` line that declares nothing.
    Comment,
}

/// `r` is the classification of the line `s`.
pub open spec fn classifies(r: Line, s: Seq<char>) -> bool {
    match r {
        Line::Tag(k, v) => tag_of(s) == Some((k@, v@)),
        Line::File(p) => tag_of(s) is None && file_of(s) == Some(p@),
        Line::Comment => tag_of(s) is None && file_of(s) is None,
    }
}

/// Position of the first `:` in `v[a..b]`, or `b` when there is none.
fn colon_in_range(v: &Vec<char>, a: usize, b: usize) -> (r: usize)
    requires
        a <= b <= v.len(),
    ensures
        a <= r <= b,
        r < b ==> v@[r as int] == ':',
        r - a == colon_index(v@.subrange(a as int, b as int)),
{
    let mut i: usize = a;
    while i < b && v[i] != ':'
        invariant
            a <= i <= b <= v.len(),
            colon_index(v@.subrange(a as int, b as int)) == (i - a) + colon_index(
                v@.subrange(i as int, b as int),
            ),
        decreases b - i,
    {
        assert(v@.subrange(i as int, b as int).drop_first() =~= v@.subrange(i + 1, b as int));
        i += 1;
    }
    i
}

/// Classifies the line `v[a..b]`.
pub fn classify_range(v: &Vec<char>, a: usize, b: usize) -> (r: Line)
    requires
        a <= b <= v.len(),
    ensures
        classifies(r, v@.subrange(a as int, b as int)),
{
    let ghost s = v@.subrange(a as int, b as int);
    if b - a >= 2 && v[a] == '#' && v[a + 1] == '#' {
        let ghost body = s.subrange(2, s.len() as int);
        assert(body =~= v@.subrange(a + 2, b as int));
        let i = colon_in_range(v, a + 2, b);
        if i < b {
            let (klo, khi) = trim_range(v, a + 2, i);
            assert(body.subrange(0, i - (a + 2)) =~= v@.subrange(a + 2, i as int));
            let ghost rest = body.subrange(i - (a + 2), body.len() as int);
            assert(rest.drop_first() =~= v@.subrange(i + 1, b as int));
            if klo < khi {
                assert(rest[0] == ':');
                let (vlo, vhi) = trim_range(v, i + 1, b);
                return Line::Tag(string_of_range(v, klo, khi), string_of_range(v, vlo, vhi));
            }
        }
        Line::Comment
    } else if b > a && v[a] == '#' {
        Line::Comment
    } else {
        let (lo, hi) = trim_range(v, a, b);
        Line::File(string_of_range(v, lo, hi))
    }
}

/// Classifies one line of a manifest.
pub fn classify(line: &str) -> (r: Line)
    ensures
        classifies(r, line@),
{
    let v = chars_of(line);
    assert(v@.subrange(0, v@.len() as int) =~= line@);
    classify_range(&v, 0, v.len())
}

/// The text after a leading `##`, or the whole input as the error when it does
/// not open with one.
pub fn key_value_pair_begin(input: &str) -> (r: Result<String, String>)
    ensures
        match r {
            Ok(rest) => starts_tag(input@) && rest@ == input@.subrange(2, input@.len() as int),
            Err(e) => !starts_tag(input@) && e@ == input@,
        },
{
    let v = chars_of(input);
    if v.len() >= 2 && v[0] == '#' && v[1] == '#' {
        Ok(string_of_range(&v, 2, v.len()))
    } else {
        Err(input.to_owned())
    }
}

/// Splits at the first `:` into the trimmed key and the rest, which opens with
/// the colon; the whole input is the error when it holds no colon.
pub fn key(input: &str) -> (r: Result<(String, String), String>)
    ensures
        match r {
            Ok((k, rest)) => split_key(input@) == Some((k@, rest@)),
            Err(e) => split_key(input@) is None && e@ == input@,
        },
{
    let v = chars_of(input);
    let n = v.len();
    assert(v@.subrange(0, n as int) =~= input@);
    let i = colon_in_range(&v, 0, n);
    if i < n {
        let (lo, hi) = trim_range(&v, 0, i);
        Ok((string_of_range(&v, lo, hi), string_of_range(&v, i, n)))
    } else {
        Err(input.to_owned())
    }
}

/// The trimmed text after a leading `:`; the whole input is the error when it
/// does not open with a colon.
pub fn value(input: &str) -> (r: Result<String, String>)
    ensures
        match r {
            Ok(val) => split_value(input@) == Some(val@),
            Err(e) => split_value(input@) is None && e@ == input@,
        },
{
    let v = chars_of(input);
    let n = v.len();
    if n > 0 && v[0] == ':' {
        assert(v@.subrange(1, n as int) =~= input@.drop_first());
        let (lo, hi) = trim_range(&v, 1, n);
        Ok(string_of_range(&v, lo, hi))
    } else {
        Err(input.to_owned())
    }
}

/// The key and value of a tag line; the whole input is the error for any other
/// line.
pub fn key_value_pair(input: &str) -> (r: Result<(String, String), String>)
    ensures
        match r {
            Ok((k, val)) => tag_of(input@) == Some((k@, val@)),
            Err(e) => tag_of(input@) is None && e@ == input@,
        },
{
    match classify(input) {
        Line::Tag(k, val) => Ok((k, val)),
        _ => Err(input.to_owned()),
    }
}

/// The trimmed path of a line that does not open with `#`; the whole input is
/// the error for a line that does.
pub fn file_path(input: &str) -> (r: Result<String, String>)
    ensures
        match r {
            Ok(p) => file_of(input@) == Some(p@),
            Err(e) => file_of(input@) is None && e@ == input@,
        },
{
    let v = chars_of(input);
    let n = v.len();
    if n > 0 && v[0] == '#' {
        Err(input.to_owned())
    } else {
        assert(v@.subrange(0, n as int) =~= input@);
        let (lo, hi) = trim_range(&v, 0, n);
        Ok(string_of_range(&v, lo, hi))
    }
}

} // verus!
