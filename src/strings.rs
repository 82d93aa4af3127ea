//! Character-sequence models of the std string operations the library uses.
use vstd::prelude::*;
use vstd::string::StringExecFns;

verus! {

/// `s` with every non-overlapping occurrence of `pat`, scanned from the left,
/// replaced by `rep`.
pub open spec fn replace_all(s: Seq<char>, pat: Seq<char>, rep: Seq<char>) -> Seq<char>
    decreases s.len(),
{
    if pat.len() == 0 || s.len() < pat.len() {
        s
    } else if s.subrange(0, pat.len() as int) == pat {
        rep + replace_all(s.subrange(pat.len() as int, s.len() as int), pat, rep)
    } else {
        seq![s[0]] + replace_all(s.drop_first(), pat, rep)
    }
}

/// Whether `s` ends with `p`.
pub open spec fn ends_with(s: Seq<char>, p: Seq<char>) -> bool {
    p.len() <= s.len() && s.subrange(s.len() - p.len(), s.len() as int) == p
}

/// `s` with every match of `from`, left to right and without overlap,
/// replaced by `to`.
pub fn replace_str(s: &str, from: &str, to: &str) -> (r: String)
    requires
        from@.len() > 0,
    ensures
        r@ == replace_all(s@, from@, to@),
{
    let cs = chars_of(s);
    let ps = chars_of(from);
    let n = cs.len();
    let m = ps.len();
    let mut r = String::new();
    let mut i: usize = 0;
    assert(cs@.subrange(0, n as int) =~= s@);
    assert(Seq::<char>::empty() + replace_all(s@, from@, to@) =~= replace_all(s@, from@, to@));
    while i < n
        invariant
            n == cs@.len(),
            m == ps@.len(),
            m > 0,
            cs@ == s@,
            ps@ == from@,
            i <= n,
            r@ + replace_all(cs@.subrange(i as int, n as int), from@, to@) == replace_all(
                s@,
                from@,
                to@,
            ),
        decreases n - i,
    {
        let ghost rest = cs@.subrange(i as int, n as int);
        let ghost before = r@;
        let mut k: usize = 0;
        if m <= n - i {
            while k < m && cs[i + k] == ps[k]
                invariant
                    m <= n - i,
                    n == cs@.len(),
                    m == ps@.len(),
                    k <= m,
                    forall|j: int| 0 <= j < k ==> cs@[i + j] == ps@[j],
                decreases m - k,
            {
                k = k + 1;
            }
        }
        if k == m && m <= n - i {
            assert(rest.subrange(0, m as int) =~= ps@);
            assert(rest.subrange(m as int, rest.len() as int) =~= cs@.subrange(
                i + m,
                n as int,
            ));
            r.append(to);
            assert(before + (to@ + replace_all(cs@.subrange(i + m, n as int), from@, to@))
                =~= r@ + replace_all(cs@.subrange(i + m, n as int), from@, to@));
            i = i + m;
        } else {
            if m <= n - i {
                assert(rest.subrange(0, m as int)[k as int] != ps@[k as int]);
            }
            assert(rest.drop_first() =~= cs@.subrange(i + 1, n as int));
            assert(rest[0] == cs@[i as int]);
            push_char(&mut r, cs[i]);
            assert(before + (seq![cs@[i as int]] + replace_all(cs@.subrange(i + 1, n as int), from@, to@))
                =~= r@ + replace_all(cs@.subrange(i + 1, n as int), from@, to@));
            i = i + 1;
        }
    }
    assert(replace_all(cs@.subrange(n as int, n as int), from@, to@) =~= Seq::<char>::empty());
    assert(r@ + Seq::<char>::empty() =~= r@);
    r
}

/// Relies on `String::push`: appends one character.
#[verifier::external_body]
pub(crate) fn push_char(s: &mut String, c: char)
    ensures
        final(s)@ == old(s)@.push(c),
{
    s.push(c)
}

/// Relies on `String::pop`: removes and returns the last character.
#[verifier::external_body]
pub(crate) fn pop_char(s: &mut String) -> (r: Option<char>)
    ensures
        old(s)@.len() == 0 ==> r is None && final(s)@ == old(s)@,
        old(s)@.len() > 0 ==> r == Some(old(s)@.last()) && final(s)@ == old(s)@.drop_last(),
{
    s.pop()
}

/// Relies on `str::chars`, collected: the characters of `s` in order.
#[verifier::external_body]
pub(crate) fn chars_of(s: &str) -> (r: Vec<char>)
    ensures
        r@ == s@,
{
    s.chars().collect()
}

} // verus!
