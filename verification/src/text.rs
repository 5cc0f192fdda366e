//! Operations on strings that the standard library provides.

use vstd::prelude::*;

verus! {

/// What `str::to_lowercase` returns for a string.
pub uninterp spec fn lowercase(text: Seq<char>) -> Seq<char>;

/// What `str::split_whitespace` yields for a string: its parts between
/// white space, in order.
pub uninterp spec fn whitespace_split(text: Seq<char>) -> Seq<Seq<char>>;

/// Whether `needle` occurs in `haystack` as a contiguous run of characters.
pub open spec fn has_substring(haystack: Seq<char>, needle: Seq<char>) -> bool {
    exists|i: int|
        0 <= i && i + needle.len() <= haystack.len() && #[trigger] haystack.subrange(i, i + needle.len())
            == needle
}

/// Whether `text` ends with `suffix`.
pub open spec fn has_suffix(text: Seq<char>, suffix: Seq<char>) -> bool {
    text.len() >= suffix.len() && text.subrange(text.len() - suffix.len(), text.len() as int) == suffix
}

/// `str::to_lowercase`: the lowercase equivalent of the string, as a new
/// string.
#[verifier::external_body]
pub(crate) fn to_lowercase(text: &str) -> (r: String)
    ensures
        r@ == lowercase(text@),
{
    text.to_lowercase()
}

/// `str::ends_with` with a string as the pattern: whether the pattern
/// matches a suffix of the string.
#[verifier::external_body]
pub(crate) fn ends_with(text: &str, suffix: &str) -> (r: bool)
    ensures
        r == has_suffix(text@, suffix@),
{
    text.ends_with(suffix)
}

/// `str::contains` with a string as the pattern: whether `needle` matches
/// a sub-slice of `haystack`.
#[verifier::external_body]
pub(crate) fn str_contains(haystack: &str, needle: &str) -> (r: bool)
    ensures
        r == has_substring(haystack@, needle@),
{
    haystack.contains(needle)
}

/// `str::split_whitespace`: the parts of the string between white space,
/// each as a string of its own.
#[verifier::external_body]
pub(crate) fn split_whitespace(text: &str) -> (r: Vec<String>)
    ensures
        r@.len() == whitespace_split(text@).len(),
        forall|i: int| 0 <= i < r@.len() ==> (#[trigger] r@[i])@ == whitespace_split(text@)[i],
{
    text.split_whitespace().map(|part| part.to_string()).collect()
}

} // verus!
