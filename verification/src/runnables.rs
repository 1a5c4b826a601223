//! Runnable building blocks whose logic does not await: graph edges and
//! Mermaid identifiers, key picking, passthrough and history settings.
//!
//! Invoking runnables is asynchronous and lives with the application.

use crate::text::{str_chars, string_from_chars, IntoText};
use vstd::prelude::*;

verus! {

broadcast use vstd::seq_lib::group_seq_properties;

/// A directed edge between two graph nodes, optionally guarded by a named
/// condition.
#[derive(Debug, Clone)]
pub struct GraphEdge {
    /// Source node id.
    pub source: String,
    /// Target node id.
    pub target: String,
    /// The condition under which the edge is taken, if any.
    pub condition: Option<String>,
}

/// The lower-case hexadecimal digit for `d < 16`.
pub open spec fn hex_digit(d: nat) -> char {
    if d == 0 { '0' } else if d == 1 { '1' } else if d == 2 { '2' } else if d == 3 { '3' } else if d == 4 { '4' }
    else if d == 5 { '5' } else if d == 6 { '6' } else if d == 7 { '7' } else if d == 8 { '8' } else if d == 9 { '9' }
    else if d == 10 { 'a' } else if d == 11 { 'b' } else if d == 12 { 'c' } else if d == 13 { 'd' } else if d == 14 { 'e' }
    else { 'f' }
}

/// The lower-case hexadecimal representation of `n` (no leading zeros).
pub open spec fn hex(n: nat) -> Seq<char>
    decreases n,
{
    if n < 16 {
        seq![hex_digit(n)]
    } else {
        hex(n / 16).push(hex_digit(n % 16))
    }
}

/// Writes `n` in lower-case hexadecimal.
pub fn hex_chars(n: u32) -> (out: Vec<char>)
    ensures
        out@ == hex(n as nat),
    decreases n,
{
    let d = n % 16;
    let c: char = if d == 0 { '0' } else if d == 1 { '1' } else if d == 2 { '2' } else if d == 3 { '3' } else if d == 4 {
        '4'
    } else if d == 5 { '5' } else if d == 6 { '6' } else if d == 7 { '7' } else if d == 8 { '8' } else if d == 9 {
        '9'
    } else if d == 10 { 'a' } else if d == 11 { 'b' } else if d == 12 { 'c' } else if d == 13 { 'd' } else if d == 14 {
        'e'
    } else { 'f' };
    assert(c == hex_digit(d as nat));
    if n < 16 {
        vec![c]
    } else {
        let mut v = hex_chars(n / 16);
        v.push(c);
        v
    }
}

/// A character Mermaid accepts in an id: ASCII letters and digits, `_`
/// and `-`.
pub open spec fn mermaid_safe(c: char) -> bool {
    ('a' <= c <= 'z') || ('A' <= c <= 'Z') || ('0' <= c <= '9') || c == '_' || c == '-'
}

/// The Mermaid id of one character: itself when safe, otherwise `_`
/// followed by its code point in lower-case hexadecimal.
pub open spec fn mermaid_piece(c: char) -> Seq<char> {
    if mermaid_safe(c) {
        seq![c]
    } else {
        seq!['_'] + hex((c as u32) as nat)
    }
}

/// The Mermaid id of a label: the pieces of its characters, in order.
pub open spec fn mermaid_id(label: Seq<char>) -> Seq<char>
    decreases label.len(),
{
    if label.len() == 0 {
        Seq::empty()
    } else {
        mermaid_id(label.drop_last()) + mermaid_piece(label.last())
    }
}

/// Converts a label into a Mermaid-compatible node id: safe characters
/// stay, every other character becomes `_` and its code point in lower-case
/// hexadecimal.
pub fn to_safe_mermaid_id(label: &str) -> (res: String)
    ensures
        res@ == mermaid_id(label@),
{
    let cs = str_chars(label);
    let mut out: Vec<char> = Vec::new();
    let mut i: usize = 0;
    while i < cs.len()
        invariant
            cs@ == label@,
            i <= cs@.len(),
            out@ == mermaid_id(cs@.take(i as int)),
        decreases cs@.len() - i,
    {
        let c = cs[i];
        proof {
            assert(cs@.take(i + 1).drop_last() =~= cs@.take(i as int));
        }
        let safe = ('a' <= c && c <= 'z') || ('A' <= c && c <= 'Z') || ('0' <= c && c <= '9') || c == '_' || c == '-';
        let ghost before = out@;
        if safe {
            out.push(c);
            assert(out@ =~= before + mermaid_piece(c));
        } else {
            out.push('_');
            let h = hex_chars(c as u32);
            crate::text::push_all(&mut out, h.as_slice());
            assert(out@ =~= before + mermaid_piece(c));
        }
        i += 1;
    }
    assert(cs@.take(cs@.len() as int) =~= cs@);
    string_from_chars(out.as_slice())
}

/// A runnable that keeps only the listed keys of its input map.
#[derive(Debug, Clone)]
pub struct RunnablePick {
    /// The keys to keep.
    pub keys: Vec<String>,
}

impl RunnablePick {
    /// Creates a picker for the given keys.
    pub fn new(keys: Vec<String>) -> (res: Self)
        ensures
            res.keys == keys,
    {
        RunnablePick { keys }
    }
}

/// A runnable that returns its input map unchanged.
#[derive(Debug, Clone)]
pub struct RunnablePassthrough;

impl RunnablePassthrough {
    /// Creates a new passthrough.
    pub fn new() -> (res: Self) {
        RunnablePassthrough
    }
}

/// A runnable that adds the conversation history, fetched by
/// `history_fn`, to its input map under `history_key`.
pub struct RunnableHistory<F> {
    /// The function that fetches the history.
    pub history_fn: std::sync::Arc<F>,
    /// The key the history is stored under (default `history`).
    pub history_key: String,
}

impl<F> RunnableHistory<F> {
    /// Creates a history runnable that stores under `history`.
    pub fn new(history_fn: F) -> (res: Self)
        ensures
            *res.history_fn == history_fn,
            res.history_key@ == "history"@,
    {
        RunnableHistory { history_fn: std::sync::Arc::new(history_fn), history_key: String::from_str("history") }
    }

    /// Sets the key the history is stored under.
    pub fn with_key<S: IntoText>(self, key: S) -> (res: Self)
        ensures
            res.history_fn == self.history_fn,
            res.history_key@ == key.text_view(),
    {
        RunnableHistory { history_fn: self.history_fn, history_key: key.into_text() }
    }
}

impl<F> Clone for RunnableHistory<F> {
    fn clone(&self) -> (res: Self) {
        RunnableHistory { history_fn: std::sync::Arc::clone(&self.history_fn), history_key: self.history_key.clone() }
    }
}

/// Every character of a hexadecimal representation is a lower-case
/// hexadecimal digit.
proof fn lemma_hex_safe(n: nat)
    ensures
        forall|i: int| 0 <= i < hex(n).len() ==> mermaid_safe(#[trigger] hex(n)[i]),
    decreases n,
{
    if n >= 16 {
        lemma_hex_safe(n / 16);
        let d = n % 16;
        assert(mermaid_safe(hex_digit(d)));
        let h = hex(n / 16);
        assert(hex(n) == h.push(hex_digit(d)));
        assert forall|i: int| 0 <= i < hex(n).len() implies mermaid_safe(#[trigger] hex(n)[i]) by {
            if i < h.len() {
                assert(hex(n)[i] == h[i]);
            }
        }
    } else {
        assert(mermaid_safe(hex_digit(n)));
        assert(hex(n) == seq![hex_digit(n)]);
    }
}

/// Mermaid ids are made only of safe characters, and a label made only of
/// safe characters is its own id.
pub proof fn law_mermaid_id_safe(label: Seq<char>)
    ensures
        forall|i: int| 0 <= i < mermaid_id(label).len() ==> mermaid_safe(#[trigger] mermaid_id(label)[i]),
        (forall|i: int| 0 <= i < label.len() ==> mermaid_safe(#[trigger] label[i])) ==> mermaid_id(label) == label,
    decreases label.len(),
{
    if label.len() > 0 {
        let init = label.drop_last();
        let c = label.last();
        law_mermaid_id_safe(init);
        lemma_hex_safe((c as u32) as nat);
        let m = mermaid_id(init);
        let p = mermaid_piece(c);
        assert forall|i: int| 0 <= i < (m + p).len() implies mermaid_safe(#[trigger] (m + p)[i]) by {
            if i >= m.len() {
                if !mermaid_safe(c) {
                    if i > m.len() {
                        assert((m + p)[i] == hex((c as u32) as nat)[i - m.len() - 1]);
                    }
                }
            }
        }
        if forall|i: int| 0 <= i < label.len() ==> mermaid_safe(#[trigger] label[i]) {
            assert forall|i: int| 0 <= i < init.len() implies mermaid_safe(#[trigger] init[i]) by {
                assert(init[i] == label[i]);
            }
            assert(mermaid_safe(label[label.len() - 1]));
            assert(label =~= init.push(c));
            assert(m + p =~= label);
        }
    }
}

} // verus!
