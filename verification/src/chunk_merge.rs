//! Greedy chunk merging shared by the section, sentence and JSON splitters.
//!
//! Sizes are UTF-8 byte lengths. Two merges are used: the section merge
//! joins sections with a newline while their lengths fit, and the overlap
//! merge closes a chunk when the next part would overflow it and starts the
//! next chunk with the last `chunk_overlap` bytes of the closed one.

use crate::text::{blen, blen_of, char_width, cviews, lemma_blen_bounds, lemma_blen_concat, lemma_blen_push, lemma_cwidth_bounds, push_all};
use vstd::prelude::*;
use vstd::slice::slice_to_vec;
use vstd::utf8::*;

verus! {

broadcast use vstd::seq_lib::group_seq_properties;

/// `cur` and `next` joined by `joiner`, or `next` alone when `cur` is empty.
pub open spec fn join_piece(cur: Seq<char>, next: Seq<char>, joiner: char) -> Seq<char> {
    if cur.len() > 0 {
        cur.push(joiner) + next
    } else {
        next
    }
}

/// The closed chunks, with the open chunk appended when it is not empty.
pub open spec fn close_open(st: (Seq<Seq<char>>, Seq<char>)) -> Seq<Seq<char>> {
    if st.1.len() > 0 {
        st.0.push(st.1)
    } else {
        st.0
    }
}

/// An ASCII character takes one byte.
pub proof fn lemma_ascii_blen(c: char)
    requires
        (c as u32) < 128,
    ensures
        blen(seq![c]) == 1,
{
    assert(seq![c].drop_first() =~= Seq::<char>::empty());
    assert(encode_utf8(Seq::<char>::empty()) =~= Seq::<u8>::empty());
    assert(encode_utf8(seq![c]) =~= encode_scalar(c as u32));
    assert(has_width_1_encoding(c as u32));
}

/// One step of the section merge: the section joins the open chunk (after a
/// newline) when their byte lengths together fit in `size`; otherwise the
/// open chunk is closed and the section opens the next one.
pub open spec fn section_step(st: (Seq<Seq<char>>, Seq<char>), sec: Seq<char>, size: int) -> (Seq<Seq<char>>, Seq<char>) {
    let (chunks, cur) = st;
    if blen(cur) + blen(sec) <= size {
        (chunks, join_piece(cur, sec, '\n'))
    } else {
        (if cur.len() > 0 { chunks.push(cur) } else { chunks }, sec)
    }
}

/// The section merge over a list of sections.
pub open spec fn section_fold(secs: Seq<Seq<char>>, size: int) -> (Seq<Seq<char>>, Seq<char>)
    decreases secs.len(),
{
    if secs.len() == 0 {
        (Seq::empty(), Seq::empty())
    } else {
        section_step(section_fold(secs.drop_last(), size), secs.last(), size)
    }
}

/// The chunks of the section merge.
pub open spec fn section_merge(secs: Seq<Seq<char>>, size: int) -> Seq<Seq<char>> {
    close_open(section_fold(secs, size))
}

/// Merges sections greedily into chunks of at most `size` bytes (not
/// counting the joining newlines).
pub fn merge_sections(secs: &Vec<Vec<char>>, size: usize) -> (out: Vec<Vec<char>>)
    ensures
        cviews(out@) == section_merge(cviews(secs@), size as int),
{
    let mut chunks: Vec<Vec<char>> = Vec::new();
    let mut cur: Vec<char> = Vec::new();
    let mut cur_len: u128 = 0;
    let mut i: usize = 0;
    while i < secs.len()
        invariant
            i <= secs@.len(),
            cur_len == blen(cur@),
            (cviews(chunks@), cur@) == section_fold(cviews(secs@).take(i as int), size as int),
        decreases secs@.len() - i,
    {
        let sec = secs[i].as_slice();
        let sec_len = blen_of(sec);
        proof {
            assert(cviews(secs@).take(i + 1).drop_last() =~= cviews(secs@).take(i as int));
            assert(cviews(secs@).take(i + 1).last() == secs@[i as int]@);
            assert(cur@.len() == cur.len());
            assert(sec@.len() == sec.len());
            lemma_blen_bounds(cur@);
            lemma_blen_bounds(sec@);
        }
        if cur_len + sec_len <= size as u128 {
            if cur.len() > 0 {
                proof {
                    lemma_blen_push(cur@, '\n');
                    lemma_blen_concat(cur@.push('\n'), sec@);
                    lemma_ascii_blen('\n');
                }
                cur.push('\n');
                push_all(&mut cur, sec);
                cur_len = cur_len + 1 + sec_len;
            } else {
                cur = slice_to_vec(sec);
                cur_len = sec_len;
            }
        } else {
            if cur.len() > 0 {
                let mut c: Vec<char> = Vec::new();
                std::mem::swap(&mut c, &mut cur);
                proof {
                    assert(cviews(chunks@.push(c)) =~= cviews(chunks@).push(c@));
                }
                chunks.push(c);
            }
            cur = slice_to_vec(sec);
            cur_len = sec_len;
        }
        i += 1;
    }
    assert(cviews(secs@).take(secs@.len() as int) =~= cviews(secs@));
    if cur.len() > 0 {
        proof {
            assert(cviews(chunks@.push(cur)) =~= cviews(chunks@).push(cur@));
        }
        chunks.push(cur);
    }
    chunks
}

/// The suffix of `s` that is `k` bytes long, if `s` has a character
/// boundary `k` bytes before its end.
pub open spec fn byte_suffix(s: Seq<char>, k: nat) -> Option<Seq<char>> {
    if exists|j: int| 0 <= j <= s.len() && blen(#[trigger] s.skip(j)) == k {
        Some(s.skip(choose|j: int| 0 <= j <= s.len() && blen(#[trigger] s.skip(j)) == k))
    } else {
        None
    }
}

/// Suffix byte lengths strictly decrease as the suffix starts later.
proof fn lemma_suffix_blen_decreasing(s: Seq<char>, a: int, b: int)
    requires
        0 <= a < b <= s.len(),
    ensures
        blen(s.skip(a)) > blen(s.skip(b)),
    decreases b - a,
{
    assert(s.skip(b - 1) =~= seq![s[b - 1]] + s.skip(b));
    lemma_blen_concat(seq![s[b - 1]], s.skip(b));
    lemma_blen_push(Seq::<char>::empty(), s[b - 1]);
    assert(Seq::<char>::empty().push(s[b - 1]) =~= seq![s[b - 1]]);
    lemma_cwidth_bounds(s[b - 1]);
    if a < b - 1 {
        lemma_suffix_blen_decreasing(s, a, b - 1);
    }
}

/// Finds where the `k`-byte suffix of `s` starts, if it starts on a
/// character boundary.
fn suffix_start(s: &[char], k: u128) -> (r: Option<usize>)
    ensures
        match r {
            Some(j) => j <= s@.len() && blen(s@.skip(j as int)) == k && byte_suffix(s@, k as nat) == Some(s@.skip(j as int)),
            None => byte_suffix(s@, k as nat) is None,
        },
{
    let mut j: usize = s.len();
    let mut acc: u128 = 0;
    assert(s@.skip(s@.len() as int) =~= Seq::<char>::empty());
    while acc < k && j > 0
        invariant
            j <= s@.len(),
            acc == blen(s@.skip(j as int)),
            acc <= 4 * (s@.len() - j),
            j < s@.len() ==> blen(s@.skip(j + 1)) < k,
        decreases j,
    {
        let w = char_width(s[j - 1]);
        proof {
            assert(s@.skip(j - 1) =~= seq![s@[j - 1]] + s@.skip(j as int));
            lemma_blen_concat(seq![s@[j - 1]], s@.skip(j as int));
            lemma_blen_push(Seq::<char>::empty(), s@[j - 1]);
            assert(Seq::<char>::empty().push(s@[j - 1]) =~= seq![s@[j - 1]]);
            lemma_cwidth_bounds(s@[j - 1]);
        }
        acc = acc + w as u128;
        j = j - 1;
    }
    if acc == k {
        proof {
            let jj = choose|x: int| 0 <= x <= s@.len() && blen(#[trigger] s@.skip(x)) == k;
            if jj != j {
                if jj < j {
                    lemma_suffix_blen_decreasing(s@, jj, j as int);
                } else {
                    lemma_suffix_blen_decreasing(s@, j as int, jj);
                }
            }
        }
        Some(j)
    } else {
        proof {
            assert forall|x: int| 0 <= x <= s@.len() implies blen(#[trigger] s@.skip(x)) != k by {
                if acc < k {
                    assert(j == 0);
                    if x > 0 {
                        lemma_suffix_blen_decreasing(s@, 0, x);
                    }
                } else {
                    if x < j {
                        lemma_suffix_blen_decreasing(s@, x, j as int);
                    } else if x > j {
                        if x > j + 1 {
                            lemma_suffix_blen_decreasing(s@, j + 1, x);
                        }
                    }
                }
            }
        }
        None
    }
}

/// The smaller of two naturals.
pub open spec fn min_nat(a: nat, b: nat) -> nat {
    if a <= b { a } else { b }
}

/// One step of the overlap merge. When the open chunk is not empty and
/// adding the part (plus one joining byte) would exceed `size`, the open
/// chunk is closed and the next one starts with its last
/// `min(overlap, len)` bytes; the part is then joined on. `None` records
/// that this cut fell inside a character.
pub open spec fn overlap_step(
    st: Option<(Seq<Seq<char>>, Seq<char>)>,
    part: Seq<char>,
    joiner: char,
    size: int,
    overlap: nat,
) -> Option<(Seq<Seq<char>>, Seq<char>)> {
    match st {
        None => None,
        Some(s) => {
            let (chunks, cur) = s;
            if cur.len() > 0 && blen(cur) + blen(part) + 1 > size {
                match byte_suffix(cur, min_nat(overlap, blen(cur))) {
                    None => None,
                    Some(tail) => Some((chunks.push(cur), join_piece(tail, part, joiner))),
                }
            } else {
                Some((chunks, join_piece(cur, part, joiner)))
            }
        },
    }
}

/// The overlap merge over a list of parts.
pub open spec fn overlap_fold(parts: Seq<Seq<char>>, joiner: char, size: int, overlap: nat) -> Option<(Seq<Seq<char>>, Seq<char>)>
    decreases parts.len(),
{
    if parts.len() == 0 {
        Some((Seq::empty(), Seq::empty()))
    } else {
        overlap_step(overlap_fold(parts.drop_last(), joiner, size, overlap), parts.last(), joiner, size, overlap)
    }
}

/// The chunks of the overlap merge, or `None` when some overlap cut falls
/// inside a character.
pub open spec fn overlap_merge(parts: Seq<Seq<char>>, joiner: char, size: int, overlap: nat) -> Option<Seq<Seq<char>>> {
    match overlap_fold(parts, joiner, size, overlap) {
        None => None,
        Some(st) => Some(close_open(st)),
    }
}

/// Merges parts into chunks with an overlap between consecutive chunks;
/// `None` when an overlap cut would fall inside a character.
/// Applies one step of the overlap merge to the state; `false` when the
/// overlap cut falls inside a character.
fn overlap_merge_step(
    chunks: &mut Vec<Vec<char>>,
    cur: &mut Vec<char>,
    cur_len: &mut u128,
    part: &[char],
    joiner: char,
    size: usize,
    overlap: usize,
) -> (ok: bool)
    requires
        joiner == '\n' || joiner == ' ',
        *old(cur_len) == blen(old(cur)@),
    ensures
        *final(cur_len) == blen(final(cur)@),
        ok ==> overlap_step(Some((cviews(old(chunks)@), old(cur)@)), part@, joiner, size as int, overlap as nat)
            == Some((cviews(final(chunks)@), final(cur)@)),
        !ok ==> overlap_step(Some((cviews(old(chunks)@), old(cur)@)), part@, joiner, size as int, overlap as nat) is None,
{
    let part_len = blen_of(part);
    proof {
        assert(cur@.len() == cur.len());
        assert(part@.len() == part.len());
        lemma_blen_bounds(cur@);
        lemma_blen_bounds(part@);
        lemma_ascii_blen(joiner);
    }
    if cur.len() > 0 && *cur_len + part_len + 1 > size as u128 {
        let keep: u128 = if (overlap as u128) < *cur_len {
            overlap as u128
        } else {
            *cur_len
        };
        match suffix_start(cur.as_slice(), keep) {
            None => {
                return false;
            },
            Some(j) => {
                let tail: Vec<char> = chars_from(cur.as_slice(), j);
                let mut c: Vec<char> = Vec::new();
                std::mem::swap(&mut c, cur);
                proof {
                    assert(cviews(chunks@.push(c)) =~= cviews(chunks@).push(c@));
                }
                chunks.push(c);
                *cur = tail;
                *cur_len = keep;
            },
        }
    }
    if cur.len() > 0 {
        proof {
            assert(cur@.len() == cur.len());
            lemma_blen_push(cur@, joiner);
            lemma_blen_concat(cur@.push(joiner), part@);
            lemma_blen_bounds(cur@);
        }
        cur.push(joiner);
        push_all(cur, part);
        *cur_len = *cur_len + 1 + part_len;
    } else {
        *cur = slice_to_vec(part);
        *cur_len = part_len;
    }
    true
}

/// Merges parts into chunks with an overlap between consecutive chunks;
/// `None` when an overlap cut would fall inside a character.
pub fn merge_with_overlap(parts: &Vec<Vec<char>>, joiner: char, size: usize, overlap: usize) -> (out: Option<Vec<Vec<char>>>)
    requires
        joiner == '\n' || joiner == ' ',
    ensures
        match out {
            Some(v) => overlap_merge(cviews(parts@), joiner, size as int, overlap as nat) == Some(cviews(v@)),
            None => overlap_merge(cviews(parts@), joiner, size as int, overlap as nat) is None,
        },
{
    let mut chunks: Vec<Vec<char>> = Vec::new();
    let mut cur: Vec<char> = Vec::new();
    let mut cur_len: u128 = 0;
    let mut i: usize = 0;
    while i < parts.len()
        invariant
            i <= parts@.len(),
            joiner == '\n' || joiner == ' ',
            cur_len == blen(cur@),
            overlap_fold(cviews(parts@).take(i as int), joiner, size as int, overlap as nat) == Some((cviews(chunks@), cur@)),
        decreases parts@.len() - i,
    {
        proof {
            assert(cviews(parts@).take(i + 1).drop_last() =~= cviews(parts@).take(i as int));
            assert(cviews(parts@).take(i + 1).last() == parts@[i as int]@);
        }
        let ok = overlap_merge_step(&mut chunks, &mut cur, &mut cur_len, parts[i].as_slice(), joiner, size, overlap);
        if !ok {
            proof {
                lemma_overlap_fold_none(cviews(parts@), i as int + 1, joiner, size as int, overlap as nat);
            }
            return None;
        }
        i += 1;
    }
    assert(cviews(parts@).take(parts@.len() as int) =~= cviews(parts@));
    if cur.len() > 0 {
        proof {
            assert(cviews(chunks@.push(cur)) =~= cviews(chunks@).push(cur@));
        }
        chunks.push(cur);
    }
    Some(chunks)
}

/// The characters of `v` from index `a` up to index `b`.
pub fn chars_between(v: &[char], a: usize, b: usize) -> (out: Vec<char>)
    requires
        a <= b <= v@.len(),
    ensures
        out@ == v@.subrange(a as int, b as int),
{
    let mut out: Vec<char> = Vec::new();
    let mut i: usize = a;
    while i < b
        invariant
            a <= i <= b <= v@.len(),
            out@ == v@.subrange(a as int, i as int),
        decreases b - i,
    {
        out.push(v[i]);
        i += 1;
        assert(v@.subrange(a as int, i as int) =~= v@.subrange(a as int, i - 1).push(v@[i - 1]));
    }
    out
}

/// The characters of `v` from index `j` on.
pub fn chars_from(v: &[char], j: usize) -> (out: Vec<char>)
    requires
        j <= v@.len(),
    ensures
        out@ == v@.skip(j as int),
{
    let mut out: Vec<char> = Vec::new();
    let mut i: usize = j;
    while i < v.len()
        invariant
            j <= i <= v@.len(),
            out@ == v@.subrange(j as int, i as int),
        decreases v@.len() - i,
    {
        out.push(v[i]);
        i += 1;
        assert(v@.subrange(j as int, i as int) =~= v@.subrange(j as int, i - 1).push(v@[i - 1]));
    }
    assert(v@.subrange(j as int, v@.len() as int) =~= v@.skip(j as int));
    out
}

/// Once a prefix of the parts fails, every longer prefix fails.
proof fn lemma_overlap_fold_none(parts: Seq<Seq<char>>, n: int, joiner: char, size: int, overlap: nat)
    requires
        0 < n <= parts.len(),
        overlap_fold(parts.take(n), joiner, size, overlap) is None,
    ensures
        overlap_fold(parts, joiner, size, overlap) is None,
    decreases parts.len() - n,
{
    if n < parts.len() {
        assert(parts.take(n + 1).drop_last() =~= parts.take(n));
        lemma_overlap_fold_none(parts, n + 1, joiner, size, overlap);
    } else {
        assert(parts.take(n) =~= parts);
    }
}

/// The overlap merge's closed chunks are non-empty, and without overlap it
/// never fails.
proof fn lemma_overlap_fold_shape(parts: Seq<Seq<char>>, joiner: char, size: int, overlap: nat)
    ensures
        overlap_fold(parts, joiner, size, overlap) matches Some(st) ==> forall|k: int| 0 <= k < st.0.len() ==> (#[trigger] st.0[k]).len() > 0,
        overlap == 0 ==> overlap_fold(parts, joiner, size, overlap) is Some,
    decreases parts.len(),
{
    if parts.len() > 0 {
        let init = parts.drop_last();
        lemma_overlap_fold_shape(init, joiner, size, overlap);
        match overlap_fold(init, joiner, size, overlap) {
            Some(st) => {
                let (chunks, cur) = st;
                if cur.len() > 0 && blen(cur) + blen(parts.last()) + 1 > size {
                    if overlap == 0 {
                        assert(cur.skip(cur.len() as int) =~= Seq::<char>::empty());
                        crate::text::lemma_blen_empty();
                        assert(blen(cur.skip(cur.len() as int)) == 0);
                        assert(min_nat(overlap, blen(cur)) == 0);
                    }
                    let c2 = chunks.push(cur);
                    assert forall|k: int| 0 <= k < c2.len() implies (#[trigger] c2[k]).len() > 0 by {
                        if k < chunks.len() {
                            assert(c2[k] == chunks[k]);
                        }
                    }
                }
            },
            None => {},
        }
    }
}

/// Every chunk of the overlap merge is non-empty, and with no overlap the
/// merge never fails (a zero-byte overlap always ends on a character
/// boundary).
pub proof fn law_overlap_merge_chunks(parts: Seq<Seq<char>>, joiner: char, size: int, overlap: nat)
    ensures
        overlap_merge(parts, joiner, size, overlap) matches Some(cs) ==> forall|k: int| 0 <= k < cs.len() ==> (#[trigger] cs[k]).len() > 0,
        overlap == 0 ==> overlap_merge(parts, joiner, size, overlap) is Some,
{
    lemma_overlap_fold_shape(parts, joiner, size, overlap);
    match overlap_fold(parts, joiner, size, overlap) {
        Some(st) => {
            if st.1.len() > 0 {
                let cs = st.0.push(st.1);
                assert forall|k: int| 0 <= k < cs.len() implies (#[trigger] cs[k]).len() > 0 by {
                    if k < st.0.len() {
                        assert(cs[k] == st.0[k]);
                    }
                }
            }
        },
        None => {},
    }
}

/// The section merge's closed chunks are non-empty.
proof fn lemma_section_fold_nonempty(secs: Seq<Seq<char>>, size: int)
    ensures
        forall|k: int| 0 <= k < section_fold(secs, size).0.len() ==> (#[trigger] section_fold(secs, size).0[k]).len() > 0,
    decreases secs.len(),
{
    if secs.len() > 0 {
        lemma_section_fold_nonempty(secs.drop_last(), size);
        let st = section_fold(secs.drop_last(), size);
        if !(blen(st.1) + blen(secs.last()) <= size) && st.1.len() > 0 {
            let c2 = st.0.push(st.1);
            assert forall|k: int| 0 <= k < c2.len() implies (#[trigger] c2[k]).len() > 0 by {
                if k < st.0.len() {
                    assert(c2[k] == st.0[k]);
                }
            }
        }
    }
}

/// Every chunk of the section merge is non-empty.
pub proof fn law_section_merge_nonempty(secs: Seq<Seq<char>>, size: int)
    ensures
        forall|k: int| 0 <= k < section_merge(secs, size).len() ==> (#[trigger] section_merge(secs, size)[k]).len() > 0,
{
    lemma_section_fold_nonempty(secs, size);
    let st = section_fold(secs, size);
    if st.1.len() > 0 {
        let cs = st.0.push(st.1);
        assert forall|k: int| 0 <= k < cs.len() implies (#[trigger] cs[k]).len() > 0 by {
            if k < st.0.len() {
                assert(cs[k] == st.0[k]);
            }
        }
    }
}

} // verus!
