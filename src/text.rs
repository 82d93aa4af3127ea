//! Character classes and small text transformations.
use vstd::prelude::*;
use crate::strings::chars_of;

verus! {

/// The characters with Unicode's `White_Space` property.
pub open spec fn is_white(c: char) -> bool {
    let u = c as u32;
    (0x09 <= u && u <= 0x0D) || u == 0x20 || u == 0x85 || u == 0xA0 || u == 0x1680 || (0x2000
        <= u && u <= 0x200A) || u == 0x2028 || u == 0x2029 || u == 0x202F || u == 0x205F || u
        == 0x3000
}

/// Relies on `char::is_whitespace`: true exactly for the `White_Space` characters.
#[verifier::external_body]
pub(crate) fn is_whitespace(c: char) -> (r: bool)
    ensures
        r == is_white(c),
{
    c.is_whitespace()
}

/// The first position at or after `i` whose character satisfies (`white`) or
/// fails (`!white`) the white-space test; the length if there is none.
pub open spec fn skip_from(s: Seq<char>, i: int, white: bool) -> int
    decreases s.len() - i,
{
    if i < 0 || i >= s.len() {
        s.len() as int
    } else if is_white(s[i]) != white {
        i
    } else {
        skip_from(s, i + 1, white)
    }
}

/// The first white-space-delimited word of `s`, or all of `s` when it has none.
pub open spec fn first_word(s: Seq<char>) -> Seq<char> {
    let b = skip_from(s, 0, true);
    if b >= s.len() {
        s
    } else {
        s.subrange(b, skip_from(s, b, false))
    }
}

/// Finds the first index at or after `i` where the white-space test of the
/// character differs from `white`.
fn skip(s: &Vec<char>, i: usize, white: bool) -> (r: usize)
    requires
        i <= s@.len(),
    ensures
        r as int == skip_from(s@, i as int, white),
        i <= r <= s@.len(),
{
    let mut j = i;
    while j < s.len()
        invariant
            i <= j <= s@.len(),
            skip_from(s@, j as int, white) == skip_from(s@, i as int, white),
        decreases s@.len() - j,
    {
        if is_whitespace(s[j]) != white {
            return j;
        }
        j = j + 1;
    }
    j
}

/// Collects `s[from..to]` into a `String`.
pub(crate) fn collect_range(s: &Vec<char>, from: usize, to: usize) -> (r: String)
    requires
        from <= to <= s@.len(),
    ensures
        r@ == s@.subrange(from as int, to as int),
{
    let mut r = String::new();
    let mut k = from;
    while k < to
        invariant
            from <= k <= to <= s@.len(),
            r@ == s@.subrange(from as int, k as int),
        decreases to - k,
    {
        crate::strings::push_char(&mut r, s[k]);
        k = k + 1;
        assert(r@ =~= s@.subrange(from as int, k as int));
    }
    r
}

/// The first white-space-delimited word of `s`, or `s` itself when it has none.
pub fn first_word_of(s: &str) -> (r: String)
    ensures
        r@ == first_word(s@),
{
    let cs = chars_of(s);
    let b = skip(&cs, 0, true);
    if b >= cs.len() {
        collect_range(&cs, 0, cs.len())
    } else {
        let e = skip(&cs, b, false);
        collect_range(&cs, b, e)
    }
}

/// The last position before `j` whose character is not white space, plus one;
/// `i` if every character of `s[i..j]` is white space.
pub open spec fn trim_end_at(s: Seq<char>, i: int, j: int) -> int
    decreases j - i,
{
    if j <= i {
        i
    } else if !is_white(s[j - 1]) {
        j
    } else {
        trim_end_at(s, i, j - 1)
    }
}

/// `s` without leading and trailing white space.
pub open spec fn trim(s: Seq<char>) -> Seq<char> {
    let b = skip_from(s, 0, true);
    s.subrange(b, trim_end_at(s, b, s.len() as int))
}

/// The first line of `s`: its characters before the first line feed.
pub open spec fn first_line(s: Seq<char>) -> Seq<char> {
    s.subrange(0, crate::markers::index_from(s, 0, '\n'))
}

/// The number of `#` characters that `s` begins with.
pub open spec fn hashes_from(s: Seq<char>, i: int) -> int
    decreases s.len() - i,
{
    if i < 0 || i >= s.len() || s[i] != '#' {
        i
    } else {
        hashes_from(s, i + 1)
    }
}

/// The title that a document gives itself on its first line: the line without
/// its leading `#` characters and without surrounding white space.
pub open spec fn title_of(content: Seq<char>) -> Seq<char> {
    let l = first_line(content);
    trim(l.subrange(hashes_from(l, 0), l.len() as int))
}

} // verus!
