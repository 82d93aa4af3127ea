//! Slugs of heading text, made by the `Inflector` crate.
use vstd::prelude::*;

verus! {

/// What `to_kebab_case` returns for `s`.
pub uninterp spec fn kebab_of(s: Seq<char>) -> Seq<char>;

/// A slug: every ASCII character is a lower-case letter, a digit or a hyphen,
/// and no hyphen leads, trails or follows another.
pub open spec fn is_slug(s: Seq<char>) -> bool {
    &&& forall|i: int|
        0 <= i < s.len() && (s[i] as u32) < 128 ==> s[i] == '-' || ('a' <= s[i] && s[i] <= 'z')
            || ('0' <= s[i] && s[i] <= '9')
    &&& s.len() > 0 ==> s[0] != '-' && s[s.len() - 1] != '-'
    &&& forall|i: int| #![trigger s[i]] 0 <= i < s.len() - 1 ==> !(s[i] == '-' && s[i + 1] == '-')
}

/// `s` holds an ASCII letter or digit.
pub open spec fn has_ascii_alnum(s: Seq<char>) -> bool {
    exists|i: int|
        0 <= i < s.len() && (('a' <= #[trigger] s[i] && s[i] <= 'z') || ('A' <= s[i] && s[i]
            <= 'Z') || ('0' <= s[i] && s[i] <= '9'))
}

/// What the slug of `text` is known to look like: a slug, and not empty when
/// the text holds an ASCII letter or digit.
pub open spec fn slug_shape(text: Seq<char>, slug: Seq<char>) -> bool {
    is_slug(slug) && (has_ascii_alnum(text) ==> slug.len() > 0)
}

/// Relies on `inflector::cases::kebabcase::to_kebab_case`: trailing
/// non-alphanumeric characters are dropped, each other run of them becomes one
/// hyphen unless it leads, alphanumeric characters are kept with ASCII letters
/// lowered, and a hyphen may be put before an upper-case one; so an ASCII
/// letter or digit of `s` always reaches the result.
#[verifier::external_body]
pub(crate) fn to_kebab(s: &str) -> (r: String)
    ensures
        r@ == kebab_of(s@),
        slug_shape(s@, r@),
{
    inflector::cases::kebabcase::to_kebab_case(s)
}

} // verus!
