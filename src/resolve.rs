//! Link targets, cross-reference titles and image paths.
use vstd::prelude::*;
use vstd::string::StringExecFns;
use crate::strings::{replace_all, ends_with, replace_str, chars_of, push_char};
use crate::text::{title_of, first_line, hashes_from, skip_from, trim_end_at, is_whitespace, collect_range};
use crate::markers::index_from;

verus! {

/// The part of a relative link that is searched for: the link without any `../`.
pub open spec fn fragment_of(url: Seq<char>) -> Seq<char> {
    replace_all(url, "../"@, ""@)
}

/// The link target with every `../` removed.
pub fn link_fragment(url: &str) -> (r: String)
    ensures
        r@ == fragment_of(url@),
{
    proof {
        reveal_strlit("../");
    }
    replace_str(url, "../", "")
}

/// The first index whose path ends with `fragment`.
pub open spec fn first_suffix_match(paths: Seq<Seq<char>>, fragment: Seq<char>, i: int) -> Option<int>
    decreases paths.len() - i,
{
    if i < 0 || i >= paths.len() {
        None
    } else if ends_with(paths[i], fragment) {
        Some(i)
    } else {
        first_suffix_match(paths, fragment, i + 1)
    }
}

/// Whether the characters of `s` end with those of `p`.
fn ends_with_chars(s: &Vec<char>, p: &Vec<char>) -> (r: bool)
    ensures
        r == ends_with(s@, p@),
{
    if p.len() > s.len() {
        return false;
    }
    let n = s.len();
    let off = n - p.len();
    let mut k: usize = 0;
    while k < p.len()
        invariant
            n == s@.len(),
            off + p@.len() == s@.len(),
            k <= p@.len(),
            forall|m: int| 0 <= m < k ==> s@[off + m] == p@[m],
        decreases p@.len() - k,
    {
        if s[off + k] != p[k] {
            assert(s@.subrange(off as int, s@.len() as int)[k as int] != p@[k as int]);
            return false;
        }
        k = k + 1;
    }
    assert(s@.subrange(off as int, s@.len() as int) =~= p@);
    true
}

/// Of the paths found under a directory, in the order they were found, the
/// index of the first that ends with `fragment`.
pub fn find_reference(paths: &Vec<String>, fragment: &str) -> (r: Option<usize>)
    ensures
        r matches Some(i) ==> first_suffix_match(paths@.map_values(|p: String| p@), fragment@, 0)
            == Some(i as int),
        r is None ==> first_suffix_match(paths@.map_values(|p: String| p@), fragment@, 0) is None,
{
    let ghost ps = paths@.map_values(|p: String| p@);
    let f = chars_of(fragment);
    let mut i: usize = 0;
    while i < paths.len()
        invariant
            i <= paths@.len(),
            ps == paths@.map_values(|p: String| p@),
            f@ == fragment@,
            first_suffix_match(ps, fragment@, i as int) == first_suffix_match(ps, fragment@, 0),
        decreases paths@.len() - i,
    {
        let cs = chars_of(paths[i].as_str());
        if ends_with_chars(&cs, &f) {
            return Some(i);
        }
        i = i + 1;
    }
    None
}

/// The title on the first line of a document: the line without its leading `#`
/// characters and without surrounding white space.
pub fn title_from(content: &str) -> (r: String)
    ensures
        r@ == title_of(content@),
{
    let cs = chars_of(content);
    let mut n: usize = 0;
    while n < cs.len() && cs[n] != '\n'
        invariant
            n <= cs@.len(),
            index_from(cs@, n as int, '\n') == index_from(cs@, 0, '\n'),
        decreases cs@.len() - n,
    {
        n = n + 1;
    }
    let line = collect_range(&cs, 0, n);
    let ls = chars_of(line.as_str());
    assert(ls@ == first_line(content@));
    let mut h: usize = 0;
    while h < ls.len() && ls[h] == '#'
        invariant
            h <= ls@.len(),
            hashes_from(ls@, h as int) == hashes_from(ls@, 0),
        decreases ls@.len() - h,
    {
        h = h + 1;
    }
    let rest = collect_range(&ls, h, ls.len());
    let rs = chars_of(rest.as_str());
    let mut b: usize = 0;
    while b < rs.len() && is_whitespace(rs[b])
        invariant
            b <= rs@.len(),
            skip_from(rs@, b as int, true) == skip_from(rs@, 0, true),
        decreases rs@.len() - b,
    {
        b = b + 1;
    }
    let mut e: usize = rs.len();
    while e > b && is_whitespace(rs[e - 1])
        invariant
            b <= e <= rs@.len(),
            trim_end_at(rs@, b as int, e as int) == trim_end_at(rs@, b as int, rs@.len() as int),
        decreases e,
    {
        e = e - 1;
    }
    collect_range(&rs, b, e)
}

/// `p` read relative to `root`, as `Path::join` reads it: an absolute `p`
/// stands alone, and a separator is put between the two where needed.
pub open spec fn join(root: Seq<char>, p: Seq<char>) -> Seq<char> {
    if root.len() == 0 || (p.len() > 0 && p[0] == '/') {
        p
    } else if root.last() == '/' {
        root + p
    } else {
        root + seq!['/'] + p
    }
}

/// `p` read relative to `root`.
pub fn join_path(root: &str, p: &str) -> (r: String)
    ensures
        r@ == join(root@, p@),
{
    let rc = chars_of(root);
    let pc = chars_of(p);
    if rc.len() == 0 || (pc.len() > 0 && pc[0] == '/') {
        return collect_range(&pc, 0, pc.len());
    }
    let mut r = collect_range(&rc, 0, rc.len());
    if rc[rc.len() - 1] != '/' {
        push_char(&mut r, '/');
    }
    r.append(p);
    r
}

/// The file name of `p` has the extension `svg`.
pub open spec fn is_vector(p: Seq<char>) -> bool {
    let n = p.len();
    n >= 5 && p[n - 5] != '/' && p[n - 4] == '.' && p[n - 3] == 's' && p[n - 2] == 'v' && p[n - 1]
        == 'g'
}

/// `p` with its `svg` extension replaced by `png`.
pub open spec fn raster_of(p: Seq<char>) -> Seq<char> {
    p.subrange(0, p.len() - 3) + seq!['p', 'n', 'g']
}

/// Whether the file name of `p` has the extension `svg`.
pub fn is_vector_path(p: &str) -> (r: bool)
    ensures
        r == is_vector(p@),
{
    let c = chars_of(p);
    let n = c.len();
    n >= 5 && c[n - 5] != '/' && c[n - 4] == '.' && c[n - 3] == 's' && c[n - 2] == 'v' && c[n
        - 1] == 'g'
}

/// The sibling of a vector image that holds its raster form.
pub fn raster_path(p: &str) -> (r: String)
    requires
        is_vector(p@),
    ensures
        r@ == raster_of(p@),
{
    let c = chars_of(p);
    let mut r = collect_range(&c, 0, c.len() - 3);
    push_char(&mut r, 'p');
    push_char(&mut r, 'n');
    push_char(&mut r, 'g');
    assert(r@ =~= raster_of(p@));
    r
}

} // verus!
