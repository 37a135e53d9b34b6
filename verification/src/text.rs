//! Substring and prefix tests on strings, stated over sequences of characters.

use vstd::prelude::*;

verus! {

/// `needle` occurs in `haystack` starting at character `at`.
pub open spec fn occurs_at(haystack: Seq<char>, needle: Seq<char>, at: int) -> bool {
    &&& 0 <= at
    &&& at + needle.len() <= haystack.len()
    &&& haystack.subrange(at, at + needle.len()) == needle
}

/// `needle` occurs somewhere in `haystack`.
pub open spec fn has_substring(haystack: Seq<char>, needle: Seq<char>) -> bool {
    exists|at: int| occurs_at(haystack, needle, at)
}

/// `prefix` is an initial part of `text`.
pub open spec fn has_prefix(text: Seq<char>, prefix: Seq<char>) -> bool {
    occurs_at(text, prefix, 0)
}

/// Trusted: `str::contains` with a string pattern. Its documentation says that
/// it returns true exactly when the pattern matches a sub-slice of the string;
/// that is stated here over the characters of both.
#[verifier::external_body]
pub(crate) fn text_contains(haystack: &str, needle: &str) -> (r: bool)
    ensures
        r == has_substring(haystack@, needle@),
{
    haystack.contains(needle)
}

/// Trusted: `str::starts_with` with a string pattern. Its documentation says
/// that it returns true exactly when the pattern matches a prefix of the
/// string; that is stated here over the characters of both.
#[verifier::external_body]
pub(crate) fn text_starts_with(text: &str, prefix: &str) -> (r: bool)
    ensures
        r == has_prefix(text@, prefix@),
{
    text.starts_with(prefix)
}

} // verus!
