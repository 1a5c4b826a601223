//! Regular-expression matching through the `regex` crate, with match
//! positions turned into character indices.

use crate::text::{blen, char_width, lemma_blen_push, lemma_cwidth_bounds, str_chars, byte_len};
use vstd::prelude::*;

verus! {

broadcast use vstd::seq_lib::group_seq_properties;

/// Whether `regex::Regex::new` accepts `pattern`.
pub uninterp spec fn regex_is_valid(pattern: Seq<char>) -> bool;

/// The byte spans of capture group `group` in the successive non-overlapping
/// matches that `regex::Regex::captures_iter` finds in `text` (`None` where
/// the group did not participate in a match).
pub uninterp spec fn regex_capture_spans(pattern: Seq<char>, text: Seq<char>, group: nat) -> Seq<Option<(nat, nat)>>;

/// Byte offset `a` falls between two characters of `text` (or at an end).
pub open spec fn is_char_boundary_at(text: Seq<char>, a: nat) -> bool {
    exists|k: int| 0 <= k <= text.len() && blen(#[trigger] text.take(k)) == a
}

/// The view of a list of optional byte spans.
pub open spec fn spans_view(v: Seq<Option<(usize, usize)>>) -> Seq<Option<(nat, nat)>> {
    v.map_values(|o: Option<(usize, usize)>| match o {
        Some(p) => Some((p.0 as nat, p.1 as nat)),
        None => None,
    })
}

/// The properties that the `regex` crate documents for the spans it reports:
/// each lies inside the text with `start <= end`, both on character
/// boundaries, and successive spans do not overlap.
pub open spec fn spans_well_formed(text: Seq<char>, spans: Seq<Option<(nat, nat)>>) -> bool {
    &&& forall|i: int| #![trigger spans[i]] 0 <= i < spans.len() ==> (spans[i] matches Some(p) ==> {
        &&& p.0 <= p.1 <= blen(text)
        &&& is_char_boundary_at(text, p.0)
        &&& is_char_boundary_at(text, p.1)
    })
    &&& forall|i: int, j: int| #![trigger spans[i], spans[j]] 0 <= i < j < spans.len() ==> (
    spans[i] matches Some(p) ==> (spans[j] matches Some(q) ==> p.1 <= q.0))
}

/// Compiles `pattern` with `regex::Regex::new` and, when it compiles, returns
/// the byte span of capture group `group` in each match that
/// `regex::Regex::captures_iter` yields over `text`.
///
/// Claimed of the crate: compilation succeeds exactly when the pattern is
/// valid; the spans are those the crate reports (named by
/// `regex_capture_spans`); every group lists one entry per match, so as
/// many as group 0; group 0 participates in every match; spans lie on
/// character boundaries inside the text and successive spans do not overlap.
/// Which spans a given pattern yields on a given text is left unstated.
#[verifier::external_body]
fn regex_captures(pattern: &str, text: &str, group: usize) -> (res: Option<Vec<Option<(usize, usize)>>>)
    ensures
        res is Some <==> regex_is_valid(pattern@),
        res matches Some(v) ==> {
            &&& spans_view(v@) == regex_capture_spans(pattern@, text@, group as nat)
            &&& v@.len() == regex_capture_spans(pattern@, text@, 0).len()
            &&& spans_well_formed(text@, spans_view(v@))
            &&& group == 0 ==> forall|i: int| 0 <= i < v@.len() ==> (#[trigger] v@[i]) is Some
        },
{
    regex::Regex::new(pattern).ok().map(
        |re| re.captures_iter(text).map(|c| c.get(group).map(|m| (m.start(), m.end()))).collect(),
    )
}

/// The byte offset of every character position of `text`:
/// `off[k] == blen(text[..k])` for `k` in `0..=text.len()`.
pub open spec fn offsets_ok(text: Seq<char>, off: Seq<usize>) -> bool {
    &&& off.len() == text.len() + 1
    &&& forall|k: int| 0 <= k <= text.len() ==> #[trigger] off[k] == blen(text.take(k))
}

/// Prefix byte lengths are strictly increasing.
pub proof fn lemma_prefix_blen_increasing(text: Seq<char>, a: int, b: int)
    requires
        0 <= a < b <= text.len(),
    ensures
        blen(text.take(a)) < blen(text.take(b)),
    decreases b - a,
{
    lemma_blen_push(text.take(b - 1), text[b - 1]);
    lemma_cwidth_bounds(text[b - 1]);
    assert(text.take(b) =~= text.take(b - 1).push(text[b - 1]));
    if a < b - 1 {
        lemma_prefix_blen_increasing(text, a, b - 1);
    }
}

/// The character index at byte offset `a` (for a boundary offset).
pub open spec fn byte_to_char(text: Seq<char>, a: nat) -> int {
    choose|k: int| 0 <= k <= text.len() && blen(#[trigger] text.take(k)) == a
}

/// The character index at a boundary offset is the unique one.
pub proof fn lemma_byte_to_char(text: Seq<char>, a: nat, k: int)
    requires
        0 <= k <= text.len(),
        blen(text.take(k)) == a,
    ensures
        byte_to_char(text, a) == k,
{
    let j = byte_to_char(text, a);
    assert(0 <= j <= text.len() && blen(text.take(j)) == a);
    if j < k {
        lemma_prefix_blen_increasing(text, j, k);
    } else if k < j {
        lemma_prefix_blen_increasing(text, k, j);
    }
}

/// Computes the byte offset of every character position of `text`.
pub fn char_offsets(text: &str) -> (res: (Vec<char>, Vec<usize>))
    ensures
        res.0@ == text@,
        offsets_ok(text@, res.1@),
{
    let chars = str_chars(text);
    let total = byte_len(text);
    let mut off: Vec<usize> = Vec::new();
    off.push(0);
    assert(text@.take(0) =~= Seq::<char>::empty());
    let mut n: usize = 0;
    let mut i: usize = 0;
    while i < chars.len()
        invariant
            chars@ == text@,
            total == blen(text@),
            i <= text@.len(),
            n == blen(text@.take(i as int)),
            off@.len() == i + 1,
            forall|k: int| 0 <= k <= i ==> #[trigger] off@[k] == blen(text@.take(k)),
        decreases text@.len() - i,
    {
        let w = char_width(chars[i]);
        proof {
            lemma_blen_push(text@.take(i as int), text@[i as int]);
            assert(text@.take(i + 1) =~= text@.take(i as int).push(text@[i as int]));
            if i + 1 < text@.len() {
                lemma_prefix_blen_increasing(text@, i + 1, text@.len() as int);
            }
            assert(text@.take(text@.len() as int) =~= text@);
        }
        n = n + w;
        off.push(n);
        i += 1;
    }
    (chars, off)
}

/// The character index whose byte offset is `a`.
fn char_index_at(Ghost(text): Ghost<Seq<char>>, off: &Vec<usize>, a: usize) -> (k: usize)
    requires
        offsets_ok(text, off@),
        is_char_boundary_at(text, a as nat),
    ensures
        k <= text.len(),
        blen(text.take(k as int)) == a,
        k == byte_to_char(text, a as nat),
{
    let ghost kk = choose|k: int| 0 <= k <= text.len() && blen(#[trigger] text.take(k)) == a;
    let mut k: usize = 0;
    assert(off@.len() == off.len());
    while off[k] != a
        invariant
            off@.len() == off.len(),
            offsets_ok(text, off@),
            0 <= kk <= text.len(),
            blen(text.take(kk)) == a,
            k <= kk,
        decreases kk - k,
    {
        assert(off@[kk] == a);
        k += 1;
    }
    proof {
        assert(off@[k as int] == blen(text.take(k as int)));
        lemma_byte_to_char(text, a as nat, k as int);
    }
    k
}

/// The character range of each capture span: `(start, end)` character
/// indices of the byte span `spans[i]`.
pub open spec fn char_spans(text: Seq<char>, spans: Seq<Option<(nat, nat)>>) -> Seq<Option<(int, int)>> {
    spans.map_values(|o: Option<(nat, nat)>| match o {
        Some(p) => Some((byte_to_char(text, p.0), byte_to_char(text, p.1))),
        None => None,
    })
}

/// The character ranges of the capture group `group` of each match of
/// `pattern` in `text`, or `None` when the pattern does not compile.
pub fn capture_ranges(pattern: &str, text: &str, group: usize) -> (res: Option<Vec<Option<(usize, usize)>>>)
    ensures
        res is Some <==> regex_is_valid(pattern@),
        res matches Some(v) ==> {
            &&& spans_view(v@).map_values(|o: Option<(nat, nat)>| match o {
                Some(p) => Some((p.0 as int, p.1 as int)),
                None => None,
            }) == char_spans(text@, regex_capture_spans(pattern@, text@, group as nat))
            &&& v@.len() == regex_capture_spans(pattern@, text@, 0).len()
            &&& forall|i: int| #![trigger v@[i]] 0 <= i < v@.len() ==> (v@[i] matches Some(p) ==> p.0 <= p.1 <= text@.len())
            &&& forall|i: int, j: int| #![trigger v@[i], v@[j]] 0 <= i < j < v@.len() ==> (
                v@[i] matches Some(p) ==> (v@[j] matches Some(q) ==> p.1 <= q.0))
            &&& group == 0 ==> forall|i: int| 0 <= i < v@.len() ==> (#[trigger] v@[i]) is Some
        },
{
    let spans = match regex_captures(pattern, text, group) {
        Some(s) => s,
        None => return None,
    };
    let (_chars, off) = char_offsets(text);
    let ghost sv = spans_view(spans@);
    let mut out: Vec<Option<(usize, usize)>> = Vec::new();
    let mut i: usize = 0;
    while i < spans.len()
        invariant
            i <= spans@.len(),
            sv == spans_view(spans@),
            sv == regex_capture_spans(pattern@, text@, group as nat),
            spans_well_formed(text@, sv),
            offsets_ok(text@, off@),
            group == 0 ==> forall|m: int| 0 <= m < spans@.len() ==> (#[trigger] spans@[m]) is Some,
            out@.len() == i,
            forall|m: int| #![trigger out@[m]] 0 <= m < i ==> match out@[m] {
                Some(p) => sv[m] matches Some(q) && p.0 == byte_to_char(text@, q.0) && p.1
                    == byte_to_char(text@, q.1) && blen(text@.take(p.0 as int)) == q.0 && blen(
                    text@.take(p.1 as int),
                ) == q.1 && p.1 <= text@.len(),
                None => sv[m] is None,
            },
        decreases spans@.len() - i,
    {
        assert(sv[i as int] == match spans@[i as int] {
            Some(p) => Some((p.0 as nat, p.1 as nat)),
            None => None,
        });
        let item = match spans[i] {
            Some((a, b)) => {
                let ka = char_index_at(Ghost(text@), &off, a);
                let kb = char_index_at(Ghost(text@), &off, b);
                Some((ka, kb))
            },
            None => None,
        };
        out.push(item);
        i += 1;
    }
    proof {
        let lhs = spans_view(out@).map_values(|o: Option<(nat, nat)>| match o {
            Some(p) => Some((p.0 as int, p.1 as int)),
            None => None,
        });
        let rhs = char_spans(text@, sv);
        assert(lhs.len() == rhs.len());
        assert forall|m: int| 0 <= m < lhs.len() implies lhs[m] == rhs[m] by {
            assert(out@[m] == out@[m]);
        }
        assert(lhs =~= rhs);
        assert forall|x: int, y: int| #![trigger out@[x], out@[y]] 0 <= x < y < out@.len() implies (out@[x] matches Some(p) ==> (
            out@[y] matches Some(q) ==> p.1 <= q.0)) by {
            if out@[x] is Some && out@[y] is Some {
                let p = out@[x]->Some_0;
                let q = out@[y]->Some_0;
                assert(sv[x] is Some && sv[y] is Some);
                assert(spans@[x] == spans@[x] && spans@[y] == spans@[y]);
                let bp = sv[x]->Some_0;
                let bq = sv[y]->Some_0;
                assert(bp.1 <= bq.0);
                if p.1 > q.0 {
                    lemma_prefix_blen_increasing(text@, q.0 as int, p.1 as int);
                }
            }
        }
        assert forall|m: int| 0 <= m < out@.len() implies (#[trigger] out@[m] matches Some(p) ==> p.0 <= p.1 <= text@.len()) by {
            if out@[m] is Some {
                let p = out@[m]->Some_0;
                assert(sv[m] is Some);
                let bp = sv[m]->Some_0;
                if p.0 > p.1 {
                    lemma_prefix_blen_increasing(text@, p.1 as int, p.0 as int);
                }
            }
        }
        if group == 0 {
            assert forall|m: int| 0 <= m < out@.len() implies (#[trigger] out@[m]) is Some by {
                assert(spans@[m] is Some);
                assert(sv[m] is Some);
            }
        }
    }
    Some(out)
}

} // verus!
