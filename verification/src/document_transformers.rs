//! Document transformers that reorder or convert documents.

use crate::text::IntoText;
use vstd::prelude::*;

verus! {

/// The position in the relevance order that lands at place `k` when `n`
/// documents are laid out alternately from the front and the back: even
/// places take the next most relevant from the front (`k / 2`), odd places
/// from the back (`n - 1 - k / 2`).
pub open spec fn alternate_index(n: int, k: int) -> int {
    if k % 2 == 0 {
        k / 2
    } else {
        n - 1 - k / 2
    }
}

/// `out` holds the documents of `items` laid out alternately from the
/// front and the back.
pub open spec fn alternated<T>(items: Seq<T>, out: Seq<T>) -> bool {
    &&& out.len() == items.len()
    &&& forall|k: int| 0 <= k < out.len() ==> #[trigger] out[k] == items[alternate_index(items.len() as int, k)]
}

/// Lays documents (most relevant first) out alternately from the front and
/// the back of the list.
fn alternate_ends<T>(items: Vec<T>) -> (out: Vec<T>)
    ensures
        alternated(items@, out@),
{
    let ghost orig = items@;
    let n = items.len();
    let mut rest = items;
    let mut out: Vec<T> = Vec::new();
    let mut lo: usize = 0;
    let mut hi: usize = n;
    while rest.len() > 0
        invariant
            n == orig.len(),
            lo <= hi <= n,
            rest@ == orig.subrange(lo as int, hi as int),
            out@.len() == lo + (n - hi),
            lo == (out@.len() + 1) / 2,
            n - hi == out@.len() / 2,
            forall|k: int| 0 <= k < out@.len() ==> #[trigger] out@[k] == orig[alternate_index(n as int, k)],
        decreases rest@.len(),
    {
        let k = out.len();
        if k % 2 == 0 {
            let x = rest.remove(0);
            proof {
                assert(x == orig[lo as int]);
                assert(rest@ =~= orig.subrange(lo + 1, hi as int));
                assert(alternate_index(n as int, k as int) == lo);
            }
            out.push(x);
            lo = lo + 1;
        } else {
            let x = rest.pop().unwrap();
            proof {
                assert(x == orig[hi - 1]);
                assert(rest@ =~= orig.subrange(lo as int, hi - 1));
                assert(alternate_index(n as int, k as int) == hi - 1);
            }
            out.push(x);
            hi = hi - 1;
        }
    }
    out
}

/// Document `j` of `n` gets some place.
pub open spec fn placed(n: int, j: int) -> bool {
    exists|k: int| 0 <= k < n && #[trigger] alternate_index(n, k) == j
}

/// Laying out alternately from both ends visits every document exactly
/// once: place `k` and place `k2` take the same document only when
/// `k == k2`, and every document gets a place.
pub proof fn law_alternate_ends_permutation(n: int)
    requires
        n >= 0,
    ensures
        forall|k: int| 0 <= k < n ==> 0 <= #[trigger] alternate_index(n, k) < n,
        forall|k1: int, k2: int| 0 <= k1 < n && 0 <= k2 < n && alternate_index(n, k1) == alternate_index(n, k2) ==> k1 == k2,
        forall|j: int| 0 <= j < n ==> #[trigger] placed(n, j),
{
    assert forall|j: int| 0 <= j < n implies #[trigger] placed(n, j) by {
        if 2 * j < n {
            assert(alternate_index(n, 2 * j) == j);
        } else {
            let k = 2 * (n - 1 - j) + 1;
            assert(k % 2 == 1);
            assert(k / 2 == n - 1 - j);
            assert(alternate_index(n, k) == j);
        }
    }
}

/// Reorders documents so that the most relevant ones sit at both ends.
#[derive(Debug, Clone)]
pub struct LongContextReorder;

impl LongContextReorder {
    /// Creates a new [`LongContextReorder`].
    pub fn new() -> (res: Self) {
        LongContextReorder
    }

    /// Reorders documents already sorted most relevant first: places are
    /// filled alternately from the front and the back of that order, so the
    /// most relevant documents sit at the two ends and the least relevant in
    /// the middle.
    pub fn reorder_sorted<T>(&self, documents: Vec<T>) -> (res: Vec<T>)
        ensures
            alternated(documents@, res@),
    {
        alternate_ends(documents)
    }
}

/// Reorders image-description documents by relevance.
#[derive(Debug, Clone)]
pub struct GoogleVertexAIVisionReorder;

impl GoogleVertexAIVisionReorder {
    /// Creates a new [`GoogleVertexAIVisionReorder`].
    pub fn new() -> (res: Self) {
        GoogleVertexAIVisionReorder
    }

    /// Reorders documents already sorted most relevant first, taking them
    /// alternately from the front and the back of that order.
    pub fn reorder_sorted<T>(&self, documents: Vec<T>) -> (res: Vec<T>)
        ensures
            alternated(documents@, res@),
    {
        alternate_ends(documents)
    }
}

/// The metadata entries added to a document with content `content`.
pub open spec fn nuclia_entries(content: Seq<char>, kbid: Option<String>, path: Option<String>) -> Seq<(Seq<char>, Seq<char>)> {
    let base = seq![("text"@, content), ("format"@, "text"@), ("origin"@, "langchain-rs::NucliaDBTransformer"@)];
    let with_kb = match kbid {
        Some(k) => base.push(("kbid"@, k@)),
        None => base,
    };
    match path {
        Some(p) => with_kb.push(("path"@, p@)),
        None => with_kb,
    }
}

/// Converts documents into the NucliaDB text format.
#[derive(Debug, Clone)]
pub struct NucliaDBTransformer {
    /// Optional identifier for the NucliaDB knowledge box.
    pub kbid: Option<String>,
    /// Optional path prefix for the NucliaDB resource.
    pub path: Option<String>,
}

impl NucliaDBTransformer {
    /// Creates a new [`NucliaDBTransformer`] with neither knowledge box nor path.
    pub fn new() -> (res: Self)
        ensures
            res.kbid is None,
            res.path is None,
    {
        NucliaDBTransformer { kbid: None, path: None }
    }

    /// Sets the NucliaDB knowledge box identifier.
    pub fn with_kbid<S: IntoText>(self, kbid: S) -> (res: Self)
        ensures
            res.kbid matches Some(k) && k@ == kbid.text_view(),
            res.path == self.path,
    {
        NucliaDBTransformer { kbid: Some(kbid.into_text()), path: self.path }
    }

    /// The metadata entries the transformer adds to a document, in order:
    /// `text` (the content), `format` (`text`), `origin`, then `kbid` and
    /// `path` when set. The document's own metadata is laid over these.
    pub fn added_metadata(&self, page_content: &str) -> (res: Vec<(String, String)>)
        ensures
            res@.map_values(|e: (String, String)| (e.0@, e.1@)) == nuclia_entries(page_content@, self.kbid, self.path),
    {
        let mut v: Vec<(String, String)> = Vec::new();
        v.push((String::from_str("text"), page_content.to_owned()));
        v.push((String::from_str("format"), String::from_str("text")));
        v.push((String::from_str("origin"), String::from_str("langchain-rs::NucliaDBTransformer")));
        let ghost base = seq![("text"@, page_content@), ("format"@, "text"@), ("origin"@, "langchain-rs::NucliaDBTransformer"@)];
        assert(v@.map_values(|e: (String, String)| (e.0@, e.1@)) =~= base);
        match &self.kbid {
            Some(k) => {
                v.push((String::from_str("kbid"), k.clone()));
            },
            None => {},
        }
        let ghost mid = v@.map_values(|e: (String, String)| (e.0@, e.1@));
        assert(mid =~= match self.kbid { Some(k) => base.push(("kbid"@, k@)), None => base });
        match &self.path {
            Some(p) => {
                v.push((String::from_str("path"), p.clone()));
                assert(v@.map_values(|e: (String, String)| (e.0@, e.1@)) =~= mid.push(("path"@, p@)));
            },
            None => {},
        }
        v
    }

    /// Sets the NucliaDB resource path prefix.
    pub fn with_path<S: IntoText>(self, path: S) -> (res: Self)
        ensures
            res.kbid == self.kbid,
            res.path matches Some(p) && p@ == path.text_view(),
    {
        NucliaDBTransformer { kbid: self.kbid, path: Some(path.into_text()) }
    }
}

} // verus!
