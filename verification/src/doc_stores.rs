//! Which stored documents a text search finds: those whose content
//! contains the search text, both lower-cased.
//!
//! The stores themselves hold documents with floating-point scores and
//! live with the application.

use crate::text::{find_chars_from, lemma_find_from, matches_at, str_chars};
use vstd::prelude::*;

verus! {

/// The lower-case form of a text (what `str::to_lowercase` gives).
pub uninterp spec fn lowercase(s: Seq<char>) -> Seq<char>;

/// Lower-cases a text with `str::to_lowercase`.
///
/// Claimed of std: the result is determined by the text, named
/// `lowercase`. Which characters change, and into what, is left unstated.
#[verifier::external_body]
pub(crate) fn to_lowercase(s: &str) -> (r: String)
    ensures
        r@ == lowercase(s@),
{
    s.to_lowercase()
}

/// `needle` occurs somewhere in `hay`.
pub open spec fn occurs_in(hay: Seq<char>, needle: Seq<char>) -> bool {
    exists|i: int| matches_at(hay, needle, i)
}

/// Whether a document with `content` is found by `search`: the lower-cased
/// search text occurs in the lower-cased content.
pub fn matches_search(content: &str, search: &str) -> (r: bool)
    ensures
        r == occurs_in(lowercase(content@), lowercase(search@)),
{
    let hay = to_lowercase(content);
    let needle = to_lowercase(search);
    let h = str_chars(hay.as_str());
    let n = str_chars(needle.as_str());
    let found = find_chars_from(h.as_slice(), n.as_slice(), 0);
    proof {
        lemma_find_from(h@, n@, 0);
    }
    found.is_some()
}

} // verus!
