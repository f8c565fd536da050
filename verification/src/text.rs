//! Substring search on strings.

use vstd::prelude::*;

verus! {

/// Whether `query` occurs in `text` as a run of consecutive characters. The
/// empty query occurs in every text.
pub open spec fn occurs_in(query: Seq<char>, text: Seq<char>) -> bool {
    exists|i: int, j: int| 0 <= i <= j <= text.len() && #[trigger] text.subrange(i, j) == query
}

/// `str::contains` with a string as the pattern: whether the pattern matches
/// a part of the text. Both are valid UTF-8, so a match in bytes is a match
/// in characters.
#[verifier::external_body]
pub(crate) fn str_contains(text: &str, query: &str) -> (found: bool)
    ensures
        found == occurs_in(query@, text@),
{
    text.contains(query)
}

} // verus!
