//! Searches that the library hands to the `regex` crate: math delimiters in
//! text, and the attribute suffix of a code block's info string.
use vstd::prelude::*;
use regex::Regex;

verus! {

/// A math-opening marker (`$$`, `\[` or `\(`) starts at `i`.
pub open spec fn open_marker_at(s: Seq<char>, i: int) -> bool {
    0 <= i && i + 1 < s.len() && ((s[i] == '$' && s[i + 1] == '$') || (s[i] == '\\' && (
    s[i + 1] == '[' || s[i + 1] == '(')))
}

/// A math-closing marker (`$$`, `\]` or `\)`) starts at `i`.
pub open spec fn close_marker_at(s: Seq<char>, i: int) -> bool {
    0 <= i && i + 1 < s.len() && ((s[i] == '$' && s[i + 1] == '$') || (s[i] == '\\' && (
    s[i + 1] == ']' || s[i + 1] == ')')))
}

pub open spec fn marker_at(s: Seq<char>, i: int, opening: bool) -> bool {
    if opening {
        open_marker_at(s, i)
    } else {
        close_marker_at(s, i)
    }
}

/// The leftmost position at or after `i` where a marker of the given kind starts.
pub open spec fn marker_from(s: Seq<char>, i: int, opening: bool) -> Option<int>
    decreases s.len() - i,
{
    if i < 0 || i + 1 >= s.len() {
        None
    } else if marker_at(s, i, opening) {
        Some(i)
    } else {
        marker_from(s, i + 1, opening)
    }
}

/// The leftmost position where a marker of the given kind starts.
pub open spec fn first_marker(s: Seq<char>, opening: bool) -> Option<int> {
    marker_from(s, 0, opening)
}

/// What lies before and after the leftmost marker, which is two characters long.
pub open spec fn split_ok(s: Seq<char>, opening: bool, r: Option<(String, String)>) -> bool {
    match first_marker(s, opening) {
        None => r is None,
        Some(i) => match r {
            Some((a, b)) => a@ == s.subrange(0, i) && b@ == s.subrange(i + 2, s.len() as int),
            None => false,
        },
    }
}

/// Relies on `Regex::find` with the pattern `\$\$|\\\[|\\\(`: the leftmost match,
/// each alternative being two literal characters.
#[verifier::external_body]
pub(crate) fn split_at_open_marker(s: &str) -> (r: Option<(String, String)>)
    ensures
        split_ok(s@, true, r),
{
    match Regex::new(r"(\$\$|\\\[|\\\()").unwrap().find(s) {
        Some(m) => Some((s[..m.start()].to_string(), s[m.end()..].to_string())),
        None => None,
    }
}

/// Relies on `Regex::find` with the pattern `\$\$|\\\]|\\\)`: the leftmost match,
/// each alternative being two literal characters.
#[verifier::external_body]
pub(crate) fn split_at_close_marker(s: &str) -> (r: Option<(String, String)>)
    ensures
        split_ok(s@, false, r),
{
    match Regex::new(r"(\$\$|\\\]|\\\))").unwrap().find(s) {
        Some(m) => Some((s[..m.start()].to_string(), s[m.end()..].to_string())),
        None => None,
    }
}

/// The first position at or after `i` that holds `c`, or the length if none does.
pub open spec fn index_from(s: Seq<char>, i: int, c: char) -> int
    decreases s.len() - i,
{
    if i < 0 || i >= s.len() {
        s.len() as int
    } else if s[i] == c {
        i
    } else {
        index_from(s, i + 1, c)
    }
}

/// `s` without the span from its first comma up to the end of that line.
pub open spec fn strip_attributes(s: Seq<char>) -> Seq<char> {
    let i = index_from(s, 0, ',');
    if i >= s.len() {
        s
    } else {
        s.subrange(0, i) + s.subrange(index_from(s, i, '\n'), s.len() as int)
    }
}

/// Relies on `Regex::replace` with the pattern `,.*`: the leftmost match, from the
/// first comma up to (not including) the next line feed, is removed.
#[verifier::external_body]
pub(crate) fn strip_code_attributes(s: &str) -> (r: String)
    ensures
        r@ == strip_attributes(s@),
{
    Regex::new(",.*").unwrap().replace(s, "").into_owned()
}

} // verus!
