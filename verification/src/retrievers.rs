//! Retrieval settings, and how many documents a retriever asks for.

use crate::json::{member, JsonKind, JsonNode};
use crate::text::str_chars;
use vstd::prelude::*;

verus! {

/// The search algorithm a retriever uses.
#[derive(Debug, Clone, Copy, PartialEq, Eq, Structural)]
pub enum SearchTypeVariant {
    /// Standard similarity search.
    Similarity,
    /// Maximum Marginal Relevance (diversity-aware).
    MMR,
    /// Similarity search with a score threshold.
    SimilarityScoreThreshold,
}

/// Every character is an ASCII digit, and there is at least one.
pub open spec fn all_digits(s: Seq<char>) -> bool {
    s.len() > 0 && forall|i: int| 0 <= i < s.len() ==> '0' <= #[trigger] s[i] <= '9'
}

/// The number that decimal digits spell.
pub open spec fn digits_value(s: Seq<char>) -> nat
    decreases s.len(),
{
    if s.len() == 0 {
        0
    } else {
        digits_value(s.drop_last()) * 10 + (s.last() as nat - '0' as nat) as nat
    }
}

/// The unsigned integer a JSON value holds, when it holds one that fits in
/// 64 bits (what `serde_json::Value::as_u64` gives): a number written with
/// digits only.
pub open spec fn json_u64(v: JsonNode) -> Option<u64> {
    if v.kind is Scalar && all_digits(v.text@) && digits_value(v.text@) <= u64::MAX {
        Some(digits_value(v.text@) as u64)
    } else {
        None
    }
}

/// The number of documents to fetch: the `k` keyword argument when it is
/// an unsigned integer, else the configured `k`.
pub open spec fn effective_k_of(kwargs: JsonNode, default_k: usize) -> usize {
    match member(kwargs, "k"@) {
        Some(v) => match json_u64(v) {
            Some(n) => n as usize,
            None => default_k,
        },
        None => default_k,
    }
}

/// The unsigned integer a JSON value holds, if any (see [`json_u64`]).
pub fn as_u64(v: &JsonNode) -> (r: Option<u64>)
    ensures
        r == json_u64(*v),
{
    match &v.kind {
        JsonKind::Scalar => {},
        _ => return None,
    }
    let cs = str_chars(v.text.as_str());
    if cs.len() == 0 {
        return None;
    }
    let mut n: u64 = 0;
    let mut i: usize = 0;
    while i < cs.len()
        invariant
            i <= cs@.len(),
            cs@ == v.text@,
            cs@.len() > 0,
            forall|j: int| 0 <= j < i ==> '0' <= #[trigger] cs@[j] <= '9',
            n == digits_value(cs@.take(i as int)),
        decreases cs@.len() - i,
    {
        let c = cs[i];
        assert(cs@.take(i + 1).drop_last() =~= cs@.take(i as int));
        if c < '0' || c > '9' {
            assert(!all_digits(cs@)) by {
                assert(cs@[i as int] == c);
            }
            return None;
        }
        let d = (c as u32 - '0' as u32) as u64;
        if n > (u64::MAX - d) / 10 {
            proof {
                assert(digits_value(cs@.take(i + 1)) == n * 10 + d);
                assert(n * 10 + d > u64::MAX) by (nonlinear_arith)
                    requires n > (u64::MAX - d) / 10, d <= 9;
                if all_digits(cs@) {
                    lemma_digits_prefix_grow(cs@, (i + 1) as int);
                }
            }
            return None;
        }
        n = n * 10 + d;
        proof {
            assert(digits_value(cs@.take(i + 1)) == digits_value(cs@.take(i as int)) * 10 + d);
        }
        i += 1;
    }
    assert(cs@.take(cs@.len() as int) =~= cs@);
    Some(n)
}

/// A longer run of digits spells no smaller a number.
proof fn lemma_digits_prefix_grow(s: Seq<char>, i: int)
    requires
        0 <= i <= s.len(),
        all_digits(s),
    ensures
        digits_value(s.take(i)) <= digits_value(s),
    decreases s.len() - i,
{
    if i < s.len() {
        lemma_digits_prefix_grow(s, i + 1);
        assert(s.take(i + 1).drop_last() =~= s.take(i));
        assert('0' <= s[i] <= '9');
        assert(s.take(i + 1).last() == s[i]);
    } else {
        assert(s.take(i) =~= s);
    }
}

/// The number of documents a retriever fetches: the `k` keyword argument
/// when it is an unsigned integer, else the configured `k`.
pub fn effective_k(kwargs: &JsonNode, default_k: usize) -> (k: usize)
    ensures
        k == effective_k_of(*kwargs, default_k),
{
    match kwargs.get("k") {
        Some(v) => match as_u64(v) {
            Some(n) => n as usize,
            None => default_k,
        },
        None => default_k,
    }
}

} // verus!
