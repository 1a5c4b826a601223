//! Cross-encoder models that score text pairs.

use vstd::prelude::*;

verus! {

/// A fake cross-encoder whose score for a pair is the ratio of the shorter
/// text's length to the longer one's.
#[derive(Debug, Clone)]
pub struct FakeCrossEncoder;

impl FakeCrossEncoder {
    /// Creates a new `FakeCrossEncoder`.
    pub fn new() -> (res: Self) {
        FakeCrossEncoder
    }
}

} // verus!
