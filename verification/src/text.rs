//! Text: lower case, containment, and UTF-8.

use vstd::prelude::*;
use vstd::utf8::{encode_utf8, valid_utf8};

verus! {

/// The lower-case form of a text, as the standard library's Unicode tables
/// give it.
pub uninterp spec fn lowered(text: Seq<char>) -> Seq<char>;

/// `needle` stands somewhere in `hay`, character by character.
pub open spec fn occurs_in(needle: Seq<char>, hay: Seq<char>) -> bool {
    exists|i: int|
        0 <= i && i + needle.len() <= hay.len() && #[trigger] hay.subrange(
            i,
            i + needle.len(),
        ) == needle
}

/// Each string of a list as its characters.
pub open spec fn texts(strings: Seq<String>) -> Seq<Seq<char>> {
    strings.map_values(|s: String| s@)
}

/// The lower-case form of `text`.
///
/// Calls `str::to_lowercase`. Its result depends on the characters alone and
/// is named by [`lowered`].
#[verifier::external_body]
pub(crate) fn lowercase(text: &str) -> (r: String)
    ensures
        r@ == lowered(text@),
{
    text.to_lowercase()
}

/// Whether `needle` stands somewhere in `hay`.
///
/// Calls `str::contains` with a string as the pattern, which is true exactly
/// when the pattern matches a part of the string.
#[verifier::external_body]
pub(crate) fn contains(hay: &str, needle: &str) -> (r: bool)
    ensures
        r == occurs_in(needle@, hay@),
{
    hay.contains(needle)
}

/// The text that `bytes` encode, where they are UTF-8.
///
/// Calls `core::str::from_utf8`, which succeeds exactly on valid UTF-8 and
/// then gives a string slice over the same bytes.
#[verifier::external_body]
pub(crate) fn utf8_text(bytes: &[u8]) -> (r: Option<&str>)
    ensures
        r is Some <==> valid_utf8(bytes@),
        r matches Some(s) ==> encode_utf8(s@) == bytes@,
{
    match core::str::from_utf8(bytes) {
        Ok(s) => Some(s),
        Err(_) => None,
    }
}

/// Whether a text that is already in lower case holds `query`.
///
/// The caller lowers the text; the query is taken as it is.
pub fn holds_query(lowered_text: &str, query: &str) -> (r: bool)
    ensures
        r == occurs_in(query@, lowered_text@),
{
    contains(lowered_text, query)
}

/// Whether `text` holds `query` once `text` is put in lower case.
pub fn matches_query(text: &str, query: &str) -> (r: bool)
    ensures
        r == occurs_in(query@, lowered(text@)),
{
    let low = lowercase(text);
    holds_query(low.as_str(), query)
}

} // verus!
