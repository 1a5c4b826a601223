//! Fake embedding models for tests and a deterministic string hash.

use crate::json_splitters::{decimal, decimal_chars_u64};
use crate::text::{push_all, string_from_chars};
use vstd::prelude::*;
use vstd::utf8::encode_utf8;

verus! {

/// The DJB hash of a byte sequence: starting from 5381, each byte `b` turns
/// the hash `h` into `h * 33 + b`, modulo 2^64.
pub open spec fn djb_hash(bytes: Seq<u8>) -> u64
    decreases bytes.len(),
{
    if bytes.len() == 0 {
        5381
    } else {
        ((djb_hash(bytes.drop_last()) as nat * 33 + bytes.last() as nat) % 0x1_0000_0000_0000_0000) as u64
    }
}

/// The DJB-style hash of the UTF-8 bytes of `s`.
pub fn hash_str(s: &str) -> (h: u64)
    ensures
        h == djb_hash(vstd::utf8::encode_utf8(s@)),
{
    let bytes = s.as_bytes();
    let mut hash: u64 = 5381;
    let mut i: usize = 0;
    while i < bytes.len()
        invariant
            bytes@ == vstd::utf8::encode_utf8(s@),
            i <= bytes@.len(),
            hash == djb_hash(bytes@.take(i as int)),
        decreases bytes@.len() - i,
    {
        proof {
            assert(bytes@.take(i + 1).drop_last() =~= bytes@.take(i as int));
            assert(bytes@.take(i + 1).last() == bytes@[i as int]);
            assert(hash.wrapping_mul(33) == (hash as nat * 33) % 0x1_0000_0000_0000_0000);
        }
        hash = hash.wrapping_mul(33).wrapping_add(bytes[i] as u64);
        i += 1;
    }
    assert(bytes@.take(bytes@.len() as int) =~= bytes@);
    hash
}

/// The sum of a byte sequence.
pub open spec fn byte_sum(bytes: Seq<u8>) -> nat
    decreases bytes.len(),
{
    if bytes.len() == 0 {
        0
    } else {
        byte_sum(bytes.drop_last()) + bytes.last() as nat
    }
}

/// The `i`-th component of a fake embedding of `text`, in thousandths:
/// the hash of `"<hash of text>-<i>"` modulo 1000.
pub open spec fn fake_unit(text: Seq<char>, i: nat) -> u64 {
    (djb_hash(encode_utf8(decimal(djb_hash(encode_utf8(text)) as nat) + "-"@ + decimal(i))) % 1000) as u64
}

/// A fake embedding model that produces hash-derived vectors of a fixed
/// dimension.
pub struct FakeEmbeddings {
    dimension: usize,
}

impl FakeEmbeddings {
    /// The dimension of the vectors this model produces.
    pub closed spec fn spec_dimension(&self) -> usize {
        self.dimension
    }

    /// Creates a `FakeEmbeddings` that produces vectors of the given dimension.
    pub fn new(dimension: usize) -> (res: Self)
        ensures
            res.spec_dimension() == dimension,
    {
        FakeEmbeddings { dimension }
    }

    /// The dimension of the vectors this model produces.
    pub fn dimension(&self) -> (res: usize)
        ensures
            res == self.spec_dimension(),
    {
        self.dimension
    }

    /// The components of the embedding of `text`, in thousandths (each
    /// component is its unit divided by 1000).
    pub fn embedding_units(&self, text: &str) -> (res: Vec<u64>)
        ensures
            res@.len() == self.spec_dimension(),
            forall|i: int| 0 <= i < res@.len() ==> #[trigger] res@[i] == fake_unit(text@, i as nat),
    {
        let h = hash_str(text);
        let hs = decimal_chars_u64(h);
        let mut out: Vec<u64> = Vec::new();
        let mut i: usize = 0;
        while i < self.dimension
            invariant
                i <= self.dimension,
                hs@ == decimal(djb_hash(encode_utf8(text@)) as nat),
                out@.len() == i,
                forall|k: int| 0 <= k < i ==> #[trigger] out@[k] == fake_unit(text@, k as nat),
            decreases self.dimension - i,
        {
            let mut key = hs.clone();
            key.push('-');
            let is = crate::json_splitters::decimal_chars(i);
            push_all(&mut key, is.as_slice());
            let ks = string_from_chars(key.as_slice());
            proof {
                reveal_strlit("-");
                assert(ks@ =~= decimal(djb_hash(encode_utf8(text@)) as nat) + "-"@ + decimal(i as nat));
            }
            let v = hash_str(ks.as_str());
            out.push(v % 1000);
            i += 1;
        }
        out
    }
}

/// A fake embedding model whose vectors depend only on the byte sum of the
/// text.
pub struct DeterministicFakeEmbedding {
    dimension: usize,
}

/// The `i`-th component of a deterministic fake embedding of `text`, in
/// thousandths: the byte sum of the text plus `i`, modulo 1000.
pub open spec fn deterministic_unit(text: Seq<char>, i: nat) -> nat {
    (byte_sum(encode_utf8(text)) + i) % 1000
}

impl DeterministicFakeEmbedding {
    /// The dimension of the vectors this model produces.
    pub closed spec fn spec_dimension(&self) -> usize {
        self.dimension
    }

    /// Creates a `DeterministicFakeEmbedding` with the given vector dimension.
    pub fn new(dimension: usize) -> (res: Self)
        ensures
            res.spec_dimension() == dimension,
    {
        DeterministicFakeEmbedding { dimension }
    }

    /// The dimension of the vectors this model produces.
    pub fn dimension(&self) -> (res: usize)
        ensures
            res == self.spec_dimension(),
    {
        self.dimension
    }

    /// The components of the embedding of `text`, in thousandths (each
    /// component is its unit divided by 1000).
    pub fn embedding_units(&self, text: &str) -> (res: Vec<u64>)
        ensures
            res@.len() == self.spec_dimension(),
            forall|i: int| 0 <= i < res@.len() ==> #[trigger] res@[i] as nat == deterministic_unit(text@, i as nat),
    {
        let bytes = text.as_bytes();
        let mut sum: u128 = 0;
        let mut j: usize = 0;
        while j < bytes.len()
            invariant
                bytes@ == encode_utf8(text@),
                j <= bytes@.len(),
                sum == byte_sum(bytes@.take(j as int)),
                sum <= 255 * j,
            decreases bytes@.len() - j,
        {
            proof {
                assert(bytes@.take(j + 1).drop_last() =~= bytes@.take(j as int));
            }
            sum = sum + bytes[j] as u128;
            j += 1;
        }
        assert(bytes@.take(bytes@.len() as int) =~= bytes@);
        let mut out: Vec<u64> = Vec::new();
        let mut i: usize = 0;
        while i < self.dimension
            invariant
                i <= self.dimension,
                sum == byte_sum(encode_utf8(text@)),
                sum <= 255 * usize::MAX,
                out@.len() == i,
                forall|k: int| 0 <= k < i ==> #[trigger] out@[k] as nat == deterministic_unit(text@, k as nat),
            decreases self.dimension - i,
        {
            let u = ((sum + i as u128) % 1000) as u64;
            out.push(u);
            i += 1;
        }
        out
    }
}

} // verus!
