//! Splitting HTML into chunks without breaking its structure: a chunk that
//! is cut while elements are open gets their closing tags, and the next
//! chunk reopens every element opened so far.

use crate::chunk_merge::chars_between;
use crate::errors::ChainError;
use crate::pattern::{capture_ranges, regex_is_valid};
use crate::sentence_splitters::{group_ranges, ranges_view};
use crate::text::{
    blen, blen_of, cviews, is_whitespace, is_ws, lemma_blen_bounds, push_all, replace_all, replace_chars,
    str_chars, strings_from_chars, trim_start, views,
};
use vstd::prelude::*;

verus! {

broadcast use vstd::seq_lib::group_seq_properties;

/// The pattern that cuts HTML into tags (group 1) and runs of text
/// (group 2).
pub open spec fn html_token_pattern() -> Seq<char> {
    "(</?[a-zA-Z][^>]*>)|([^<]+)"@
}

/// `s` begins with `p`.
pub open spec fn starts_with(s: Seq<char>, p: Seq<char>) -> bool {
    p.len() <= s.len() && s.take(p.len() as int) == p
}

/// `s` ends with `p`.
pub open spec fn ends_with(s: Seq<char>, p: Seq<char>) -> bool {
    p.len() <= s.len() && s.skip(s.len() - p.len()) == p
}

/// `s` without every leading repetition of the non-empty `p` (what
/// `str::trim_start_matches` returns for a string pattern).
pub open spec fn trim_start_pat(s: Seq<char>, p: Seq<char>) -> Seq<char>
    decreases s.len(),
{
    if p.len() > 0 && starts_with(s, p) {
        trim_start_pat(s.skip(p.len() as int), p)
    } else {
        s
    }
}

/// `s` without its leading `c` characters.
pub open spec fn trim_start_char(s: Seq<char>, c: char) -> Seq<char>
    decreases s.len(),
{
    if s.len() > 0 && s[0] == c {
        trim_start_char(s.drop_first(), c)
    } else {
        s
    }
}

/// `s` without its trailing `c` characters.
pub open spec fn trim_end_char(s: Seq<char>, c: char) -> Seq<char>
    decreases s.len(),
{
    if s.len() > 0 && s.last() == c {
        trim_end_char(s.drop_last(), c)
    } else {
        s
    }
}

/// The length of the run of non-whitespace characters at the start of `s`.
pub open spec fn word_len(s: Seq<char>) -> nat
    decreases s.len(),
{
    if s.len() > 0 && !is_ws(s[0]) {
        1 + word_len(s.drop_first())
    } else {
        0
    }
}

/// The first whitespace-separated word of `s`, empty when there is none.
pub open spec fn first_word(s: Seq<char>) -> Seq<char> {
    trim_start(s).take(word_len(trim_start(s)) as int)
}

/// The element name of an opening tag: its first word without `<` and
/// trailing `>`.
pub open spec fn opening_name(tag: Seq<char>) -> Seq<char> {
    trim_end_char(first_word(trim_start_char(tag, '<')), '>')
}

/// The closing tag that matches an opening tag.
pub open spec fn closing_of(tag: Seq<char>) -> Seq<char> {
    "</"@ + opening_name(tag) + ">"@
}

/// The name a closing tag names: without `</` and trailing `>`.
pub open spec fn closing_name(tag: Seq<char>) -> Seq<char> {
    trim_end_char(trim_start_pat(tag, "</"@), '>')
}

/// The name inside a recorded closing tag, as compared with a closing tag.
pub open spec fn recorded_name(closing: Seq<char>) -> Seq<char> {
    trim_end_char(trim_start_char(closing, '<'), '>')
}

/// The opening tag rebuilt from a recorded closing tag.
pub open spec fn reopen(closing: Seq<char>) -> Seq<char> {
    trim_end_char(replace_all(closing, "</"@, "<"@), '>') + ">"@
}

/// The closing tags of the open elements, innermost first.
pub open spec fn closings(open: Seq<Seq<char>>) -> Seq<char>
    decreases open.len(),
{
    if open.len() == 0 {
        Seq::empty()
    } else {
        open.last() + closings(open.drop_last())
    }
}

/// The opening tags of every element opened so far, in order.
pub open spec fn reopenings(stack: Seq<Seq<char>>) -> Seq<char>
    decreases stack.len(),
{
    if stack.len() == 0 {
        Seq::empty()
    } else {
        reopenings(stack.drop_last()) + reopen(stack.last())
    }
}

/// A piece of HTML as the pattern cuts it.
pub enum HtmlPiece {
    /// A tag.
    Tag(Seq<char>),
    /// A run of text.
    Text(Seq<char>),
    /// A match with neither group.
    Skip,
}

/// The state of the splitter: finished chunks, the chunk being built, the
/// closing tags of every element opened so far, and those of the elements
/// still open.
pub struct HtmlState {
    /// Finished chunks.
    pub chunks: Seq<Seq<char>>,
    /// The chunk being built.
    pub current: Seq<char>,
    /// Closing tags of every element opened so far.
    pub stack: Seq<Seq<char>>,
    /// Closing tags of the elements still open.
    pub open: Seq<Seq<char>>,
}

/// The state after a tag.
pub open spec fn tag_step(st: HtmlState, t: Seq<char>) -> HtmlState {
    if starts_with(t, "</"@) {
        let open = if st.open.len() > 0 && starts_with(recorded_name(st.open.last()), closing_name(t)) {
            st.open.drop_last()
        } else {
            st.open
        };
        HtmlState { chunks: st.chunks, current: st.current + t, stack: st.stack, open }
    } else if ends_with(t, "/>"@) || ends_with(t, "-->"@) || starts_with(t, "<!--"@) {
        HtmlState { chunks: st.chunks, current: st.current + t, stack: st.stack, open: st.open }
    } else {
        let c = closing_of(t);
        HtmlState { chunks: st.chunks, current: st.current + t, stack: st.stack.push(c), open: st.open.push(c) }
    }
}

/// The state after a run of text: when the chunk being built is not empty
/// and the text would take it past `size` bytes, the chunk is closed and a
/// new one starts with the reopened elements.
pub open spec fn text_step(st: HtmlState, s: Seq<char>, size: int) -> HtmlState {
    if st.current.len() > 0 && blen(st.current) + blen(s) > size {
        HtmlState {
            chunks: st.chunks.push(st.current + closings(st.open)),
            current: reopenings(st.stack) + s,
            stack: st.stack,
            open: st.open,
        }
    } else {
        HtmlState { chunks: st.chunks, current: st.current + s, stack: st.stack, open: st.open }
    }
}

/// The piece of match `m`.
pub open spec fn piece_at(text: Seq<char>, g1: Seq<Option<(int, int)>>, g2: Seq<Option<(int, int)>>, m: int) -> HtmlPiece {
    match g1[m] {
        Some(r) => HtmlPiece::Tag(text.subrange(r.0, r.1)),
        None => match g2[m] {
            Some(r) => HtmlPiece::Text(text.subrange(r.0, r.1)),
            None => HtmlPiece::Skip,
        },
    }
}

/// The state after the first `k` pieces.
pub open spec fn html_run(text: Seq<char>, g1: Seq<Option<(int, int)>>, g2: Seq<Option<(int, int)>>, k: int, size: int) -> HtmlState
    decreases k,
{
    if k <= 0 {
        HtmlState { chunks: Seq::empty(), current: Seq::empty(), stack: Seq::empty(), open: Seq::empty() }
    } else {
        let st = html_run(text, g1, g2, k - 1, size);
        match piece_at(text, g1, g2, k - 1) {
            HtmlPiece::Tag(t) => tag_step(st, t),
            HtmlPiece::Text(s) => text_step(st, s, size),
            HtmlPiece::Skip => st,
        }
    }
}

/// The chunks once every piece is read: the last chunk, when not empty,
/// gets the closing tags of the elements still open.
pub open spec fn html_finish(st: HtmlState) -> Seq<Seq<char>> {
    if st.current.len() > 0 {
        st.chunks.push(st.current + closings(st.open))
    } else {
        st.chunks
    }
}

/// The chunks of an HTML text.
pub open spec fn html_semantic_chunks(text: Seq<char>, size: int) -> Seq<Seq<char>> {
    let g1 = group_ranges(html_token_pattern(), text, 1);
    let g2 = group_ranges(html_token_pattern(), text, 2);
    html_finish(html_run(text, g1, g2, g1.len() as int, size))
}

/// Whether `s` begins with `p`.
fn starts_with_chars(s: &[char], p: &[char]) -> (b: bool)
    ensures
        b == starts_with(s@, p@),
{
    if p.len() > s.len() {
        return false;
    }
    let mut i: usize = 0;
    while i < p.len()
        invariant
            i <= p@.len() <= s@.len(),
            forall|k: int| 0 <= k < i ==> s@[k] == p@[k],
        decreases p@.len() - i,
    {
        if s[i] != p[i] {
            assert(s@.take(p@.len() as int)[i as int] != p@[i as int]);
            return false;
        }
        i += 1;
    }
    assert(s@.take(p@.len() as int) =~= p@);
    true
}

/// Whether `s` ends with `p`.
fn ends_with_chars(s: &[char], p: &[char]) -> (b: bool)
    ensures
        b == ends_with(s@, p@),
{
    if p.len() > s.len() {
        return false;
    }
    let off = s.len() - p.len();
    let mut i: usize = 0;
    while i < p.len()
        invariant
            i <= p@.len() <= s@.len(),
            off + p@.len() == s@.len(),
            s@.len() == s.len(),
            s.len() <= usize::MAX,
            forall|k: int| 0 <= k < i ==> s@[off + k] == p@[k],
        decreases p@.len() - i,
    {
        if s[off + i] != p[i] {
            assert(s@.skip(off as int)[i as int] != p@[i as int]);
            return false;
        }
        i += 1;
    }
    assert(s@.skip(off as int) =~= p@);
    true
}

/// `s` without every leading repetition of the non-empty `p`.
fn trim_start_pat_chars(s: &[char], p: &[char]) -> (out: Vec<char>)
    requires
        p@.len() > 0,
    ensures
        out@ == trim_start_pat(s@, p@),
{
    let mut rest = chars_between(s, 0, s.len());
    assert(rest@ =~= s@);
    while starts_with_chars(rest.as_slice(), p)
        invariant
            p@.len() > 0,
            trim_start_pat(rest@, p@) == trim_start_pat(s@, p@),
        decreases rest@.len(),
    {
        rest = chars_between(rest.as_slice(), p.len(), rest.len());
    }
    rest
}

/// `s` without its leading `c` characters.
fn trim_start_char_chars(s: &[char], c: char) -> (out: Vec<char>)
    ensures
        out@ == trim_start_char(s@, c),
{
    let mut i: usize = 0;
    while i < s.len() && s[i] == c
        invariant
            i <= s@.len(),
            trim_start_char(s@.skip(i as int), c) == trim_start_char(s@, c),
        decreases s@.len() - i,
    {
        assert(s@.skip(i as int).drop_first() =~= s@.skip(i + 1));
        i += 1;
    }
    let out = chars_between(s, i, s.len());
    assert(out@ =~= s@.skip(i as int));
    out
}

/// `s` without its trailing `c` characters.
fn trim_end_char_chars(s: &[char], c: char) -> (out: Vec<char>)
    ensures
        out@ == trim_end_char(s@, c),
{
    let mut j: usize = s.len();
    while j > 0 && s[j - 1] == c
        invariant
            j <= s@.len(),
            trim_end_char(s@.take(j as int), c) == trim_end_char(s@, c),
        decreases j,
    {
        assert(s@.take(j as int).drop_last() =~= s@.take(j - 1));
        j -= 1;
    }
    let out = chars_between(s, 0, j);
    assert(out@ =~= s@.take(j as int));
    out
}

/// The first whitespace-separated word of `s`.
fn first_word_chars(s: &[char]) -> (out: Vec<char>)
    ensures
        out@ == first_word(s@),
{
    let mut i: usize = 0;
    while i < s.len() && is_whitespace(s[i])
        invariant
            i <= s@.len(),
            trim_start(s@.skip(i as int)) == trim_start(s@),
        decreases s@.len() - i,
    {
        assert(s@.skip(i as int).drop_first() =~= s@.skip(i + 1));
        i += 1;
    }
    assert(trim_start(s@.skip(i as int)) == s@.skip(i as int));
    let mut j: usize = i;
    while j < s.len() && !is_whitespace(s[j])
        invariant
            i <= j <= s@.len(),
            trim_start(s@) == s@.skip(i as int),
            word_len(s@.skip(i as int)) == (j - i) + word_len(s@.skip(j as int)),
        decreases s@.len() - j,
    {
        assert(s@.skip(j as int).drop_first() =~= s@.skip(j + 1));
        j += 1;
    }
    let out = chars_between(s, i, j);
    assert(out@ =~= s@.skip(i as int).take((j - i) as int));
    out
}

/// The closing tags of the open elements, innermost first.
fn closings_of(open: &Vec<Vec<char>>) -> (out: Vec<char>)
    ensures
        out@ == closings(cviews(open@)),
{
    let mut out: Vec<char> = Vec::new();
    let mut k: usize = open.len();
    assert(closings(cviews(open@).skip(open@.len() as int)) == Seq::<char>::empty()) by {
        assert(cviews(open@).skip(open@.len() as int) =~= Seq::<Seq<char>>::empty());
    }
    while k > 0
        invariant
            k <= open@.len(),
            closings(cviews(open@)) == out@ + closings(cviews(open@).take(k as int)),
        decreases k,
    {
        proof {
            let t = cviews(open@).take(k as int);
            assert(t.drop_last() =~= cviews(open@).take(k - 1));
            assert(t.last() == open@[k - 1]@);
        }
        push_all(&mut out, open[k - 1].as_slice());
        k -= 1;
    }
    assert(cviews(open@).take(0) =~= Seq::<Seq<char>>::empty());
    out
}

/// The opening tag rebuilt from a recorded closing tag.
fn reopen_chars(closing: &[char]) -> (out: Vec<char>)
    ensures
        out@ == reopen(closing@),
{
    let from: Vec<char> = vec!['<', '/'];
    let to: Vec<char> = vec!['<'];
    assert(from@ =~= "</"@) by {
        reveal_strlit("</");
    }
    assert(to@ =~= "<"@) by {
        reveal_strlit("<");
    }
    let r = replace_chars(closing, from.as_slice(), to.as_slice());
    let mut out = trim_end_char_chars(r.as_slice(), '>');
    out.push('>');
    assert(">"@ =~= seq!['>']) by {
        reveal_strlit(">");
    }
    out
}

/// The opening tags of every element opened so far, in order.
fn reopenings_of(stack: &Vec<Vec<char>>) -> (out: Vec<char>)
    ensures
        out@ == reopenings(cviews(stack@)),
{
    let mut out: Vec<char> = Vec::new();
    let mut k: usize = 0;
    assert(cviews(stack@).take(0) =~= Seq::<Seq<char>>::empty());
    while k < stack.len()
        invariant
            k <= stack@.len(),
            out@ == reopenings(cviews(stack@).take(k as int)),
        decreases stack@.len() - k,
    {
        proof {
            let t = cviews(stack@).take(k + 1);
            assert(t.drop_last() =~= cviews(stack@).take(k as int));
            assert(t.last() == stack@[k as int]@);
        }
        let r = reopen_chars(stack[k].as_slice());
        push_all(&mut out, r.as_slice());
        k += 1;
    }
    assert(cviews(stack@).take(stack@.len() as int) =~= cviews(stack@));
    out
}

/// The closing tag `</name>`.
fn closing_tag_chars(name: &[char]) -> (out: Vec<char>)
    ensures
        out@ == "</"@ + name@ + ">"@,
{
    let mut out: Vec<char> = vec!['<', '/'];
    push_all(&mut out, name);
    out.push('>');
    proof {
        reveal_strlit("</");
        reveal_strlit(">");
        assert(out@ =~= "</"@ + name@ + ">"@);
    }
    out
}

/// The state of a split, as plain sequences.
pub open spec fn state_of(chunks: Seq<Vec<char>>, current: Seq<char>, stack: Seq<Vec<char>>, open: Seq<Vec<char>>) -> HtmlState {
    HtmlState { chunks: cviews(chunks), current, stack: cviews(stack), open: cviews(open) }
}

/// Reads one tag into the state.
fn read_tag(chunks: &Vec<Vec<char>>, current: &mut Vec<char>, stack: &mut Vec<Vec<char>>, open: &mut Vec<Vec<char>>, tag: &[char])
    ensures
        state_of(chunks@, final(current)@, final(stack)@, final(open)@) == tag_step(
            state_of(chunks@, old(current)@, old(stack)@, old(open)@),
            tag@,
        ),
{
    let lt_slash: Vec<char> = vec!['<', '/'];
    let slash_gt: Vec<char> = vec!['/', '>'];
    let comment_end: Vec<char> = vec!['-', '-', '>'];
    let comment_start: Vec<char> = vec!['<', '!', '-', '-'];
    proof {
        reveal_strlit("</");
        reveal_strlit("/>");
        reveal_strlit("-->");
        reveal_strlit("<!--");
        assert(lt_slash@ =~= "</"@);
        assert(slash_gt@ =~= "/>"@);
        assert(comment_end@ =~= "-->"@);
        assert(comment_start@ =~= "<!--"@);
    }
    if starts_with_chars(tag, lt_slash.as_slice()) {
        if open.len() > 0 {
            let k = open.len() - 1;
            let a = trim_start_char_chars(open[k].as_slice(), '<');
            let inner = trim_end_char_chars(a.as_slice(), '>');
            let b = trim_start_pat_chars(tag, lt_slash.as_slice());
            let name = trim_end_char_chars(b.as_slice(), '>');
            assert(cviews(open@).last() == open@[k as int]@);
            if starts_with_chars(inner.as_slice(), name.as_slice()) {
                let ghost before = open@;
                open.pop();
                assert(cviews(open@) =~= cviews(before).drop_last());
            }
        }
        push_all(current, tag);
    } else if ends_with_chars(tag, slash_gt.as_slice()) || ends_with_chars(tag, comment_end.as_slice())
        || starts_with_chars(tag, comment_start.as_slice()) {
        push_all(current, tag);
    } else {
        let a = trim_start_char_chars(tag, '<');
        let w = first_word_chars(a.as_slice());
        let name = trim_end_char_chars(w.as_slice(), '>');
        let c1 = closing_tag_chars(name.as_slice());
        let c2 = closing_tag_chars(name.as_slice());
        let ghost o = open@;
        let ghost st = stack@;
        open.push(c1);
        stack.push(c2);
        assert(cviews(open@) =~= cviews(o).push(closing_of(tag@)));
        assert(cviews(stack@) =~= cviews(st).push(closing_of(tag@)));
        push_all(current, tag);
    }
}

/// Reads one run of text into the state.
fn read_text(chunks: &mut Vec<Vec<char>>, current: &mut Vec<char>, stack: &Vec<Vec<char>>, open: &Vec<Vec<char>>, s: &[char], size: usize)
    ensures
        state_of(final(chunks)@, final(current)@, stack@, open@) == text_step(
            state_of(old(chunks)@, old(current)@, stack@, open@),
            s@,
            size as int,
        ),
{
    let bc = blen_of(current.as_slice());
    let bs = blen_of(s);
    proof {
        lemma_blen_bounds(current@);
        lemma_blen_bounds(s@);
        assert(current@.len() == current.len());
        assert(s@.len() == s.len());
        assert(bc + bs <= 4 * (usize::MAX as int) + 4 * (usize::MAX as int));
    }
    if current.len() > 0 && bc + bs > size as u128 {
        let mut done = current.clone();
        assert(done@ == current@);
        let cl = closings_of(open);
        push_all(&mut done, cl.as_slice());
        let ghost ch = chunks@;
        chunks.push(done);
        assert(cviews(chunks@) =~= cviews(ch).push(old(current)@ + closings(cviews(open@))));
        let mut next = reopenings_of(stack);
        push_all(&mut next, s);
        *current = next;
    } else {
        push_all(current, s);
    }
}

/// Splits HTML while keeping its structure balanced in every chunk.
#[derive(Debug, Clone)]
pub struct HtmlSemanticPreservingSplitter {
    /// The size, in bytes, past which a chunk is closed before more text.
    pub chunk_size: usize,
    /// The overlap between chunks (kept for configuration; not applied).
    pub chunk_overlap: usize,
}

impl HtmlSemanticPreservingSplitter {
    /// A splitter with the given chunk size and overlap.
    pub fn new(chunk_size: usize, chunk_overlap: usize) -> (res: Self)
        ensures
            res.chunk_size == chunk_size,
            res.chunk_overlap == chunk_overlap,
    {
        HtmlSemanticPreservingSplitter { chunk_size, chunk_overlap }
    }

    /// The splitter with a chunk size of 4000 and an overlap of 200.
    pub fn default() -> (res: Self)
        ensures
            res.chunk_size == 4000,
            res.chunk_overlap == 200,
    {
        HtmlSemanticPreservingSplitter { chunk_size: 4000, chunk_overlap: 200 }
    }

    /// Cuts `text` into tags and runs of text and builds chunks: a run of
    /// text that would take a non-empty chunk past the chunk size first
    /// closes the chunk (with the closing tags of the open elements,
    /// innermost first) and starts the next with every element opened so
    /// far reopened; the last chunk is closed the same way.
    pub fn split_text(&self, text: &str) -> (res: Result<Vec<String>, ChainError>)
        ensures
            regex_is_valid(html_token_pattern()) <==> res is Ok,
            res matches Ok(v) ==> views(v@) == html_semantic_chunks(text@, self.chunk_size as int),
            res matches Err(e) ==> e is ParserError,
    {
        let g1 = match capture_ranges("(</?[a-zA-Z][^>]*>)|([^<]+)", text, 1) {
            Some(r) => r,
            None => return Err(ChainError::ParserError(String::from_str("invalid HTML token pattern"))),
        };
        let g2 = match capture_ranges("(</?[a-zA-Z][^>]*>)|([^<]+)", text, 2) {
            Some(r) => r,
            None => return Err(ChainError::ParserError(String::from_str("invalid HTML token pattern"))),
        };
        let t = str_chars(text);
        let ghost G1 = group_ranges(html_token_pattern(), text@, 1);
        let ghost G2 = group_ranges(html_token_pattern(), text@, 2);
        assert(ranges_view(g1@) == G1);
        assert(ranges_view(g2@) == G2);
        let size = self.chunk_size;
        let mut chunks: Vec<Vec<char>> = Vec::new();
        let mut current: Vec<char> = Vec::new();
        let mut stack: Vec<Vec<char>> = Vec::new();
        let mut open: Vec<Vec<char>> = Vec::new();
        proof {
            assert(cviews(chunks@) =~= Seq::<Seq<char>>::empty());
            assert(cviews(stack@) =~= Seq::<Seq<char>>::empty());
            assert(cviews(open@) =~= Seq::<Seq<char>>::empty());
            assert(current@ =~= Seq::<char>::empty());
            assert(state_of(chunks@, current@, stack@, open@) == html_run(t@, G1, G2, 0, size as int));
        }
        let mut m: usize = 0;
        while m < g1.len()
            invariant
                m <= g1@.len(),
                g1@.len() == g2@.len(),
                t@ == text@,
                ranges_view(g1@) == G1,
                ranges_view(g2@) == G2,
                forall|i: int| #![trigger g1@[i]] 0 <= i < g1@.len() ==> (g1@[i] matches Some(p) ==> p.0 <= p.1 <= text@.len()),
                forall|i: int| #![trigger g2@[i]] 0 <= i < g2@.len() ==> (g2@[i] matches Some(p) ==> p.0 <= p.1 <= text@.len()),
                state_of(chunks@, current@, stack@, open@) == html_run(t@, G1, G2, m as int, size as int),
            decreases g1@.len() - m,
        {
            assert(G1[m as int] == match g1@[m as int] {
                Some(p) => Some((p.0 as int, p.1 as int)),
                None => None,
            });
            assert(G2[m as int] == match g2@[m as int] {
                Some(p) => Some((p.0 as int, p.1 as int)),
                None => None,
            });
            match g1[m] {
                Some((a, b)) => {
                    let tag = chars_between(t.as_slice(), a, b);
                    read_tag(&chunks, &mut current, &mut stack, &mut open, tag.as_slice());
                },
                None => match g2[m] {
                    Some((a, b)) => {
                        let run = chars_between(t.as_slice(), a, b);
                        read_text(&mut chunks, &mut current, &stack, &open, run.as_slice(), size);
                    },
                    None => {},
                },
            }
            m += 1;
        }
        if current.len() > 0 {
            let cl = closings_of(&open);
            push_all(&mut current, cl.as_slice());
            let ghost ch = chunks@;
            chunks.push(current);
            assert(cviews(chunks@) =~= cviews(ch).push(html_run(t@, G1, G2, g1@.len() as int, size as int).current + closings(cviews(open@))));
        }
        let out = strings_from_chars(&chunks);
        assert(views(out@) =~= cviews(chunks@));
        Ok(out)
    }
}

} // verus!
