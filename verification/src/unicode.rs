//! Unicode case mapping and character classes, as std computes them.
use vstd::prelude::*;

verus! {

/// What `str::to_lowercase` returns for a text (full Unicode case mapping,
/// including the context-dependent final sigma).
pub uninterp spec fn str_lowercase(s: Seq<char>) -> Seq<char>;

/// What `str::to_uppercase` returns for a text (full Unicode case mapping).
pub uninterp spec fn str_uppercase(s: Seq<char>) -> Seq<char>;

/// What `char::is_alphanumeric` returns (Unicode `Alphabetic` or `Numeric`).
pub uninterp spec fn char_alphanumeric(c: char) -> bool;

/// Calls `str::to_lowercase`; the result is named by `str_lowercase`.
#[verifier::external_body]
pub(crate) fn to_lowercase(s: &str) -> (r: String)
    ensures
        r@ == str_lowercase(s@),
{
    s.to_lowercase()
}

/// Calls `str::to_uppercase`; the result is named by `str_uppercase`.
#[verifier::external_body]
pub(crate) fn to_uppercase(s: &str) -> (r: String)
    ensures
        r@ == str_uppercase(s@),
{
    s.to_uppercase()
}

/// Calls `char::is_alphanumeric`; the result is named by `char_alphanumeric`.
#[verifier::external_body]
pub(crate) fn is_alphanumeric(c: char) -> (r: bool)
    ensures
        r == char_alphanumeric(c),
{
    c.is_alphanumeric()
}

} // verus!
