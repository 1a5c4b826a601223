//! Splitters that cut a document at header matches into sections and merge
//! the sections into chunks.
//!
//! A section runs from one header match to the next (the first section
//! starts at the first header); text before the first header is not part of
//! any section. Without any header the whole text is one section.

use crate::chunk_merge::{chars_between, chars_from, merge_sections, section_merge};
use crate::errors::ChainError;
use crate::pattern::{capture_ranges, regex_is_valid};
use crate::sentence_splitters::{group_ranges, range_text, ranges_view};
use crate::text::{blen, blen_of, cviews, push_all, str_chars, strings_from_chars, trim, trim_chars, views};
use vstd::prelude::*;

verus! {

broadcast use vstd::seq_lib::group_seq_properties;

/// The sections for header matches starting at `starts` with header texts
/// `headers`: the state is the sections so far, where the open section
/// starts, and its header (empty before the first header).
pub open spec fn section_fold(text: Seq<char>, starts: Seq<int>, headers: Seq<Seq<char>>) -> (Seq<(Seq<char>, Seq<char>)>, int, Seq<char>)
    decreases starts.len(),
{
    if starts.len() == 0 || headers.len() != starts.len() {
        (Seq::empty(), 0, Seq::empty())
    } else {
        let (secs, lp, lh) = section_fold(text, starts.drop_last(), headers.drop_last());
        let st = starts.last();
        (if lh.len() > 0 { secs.push((lh, text.subrange(lp, st))) } else { secs }, st, headers.last())
    }
}

/// The `(header, content)` sections of `text`.
pub open spec fn header_sections(text: Seq<char>, starts: Seq<int>, headers: Seq<Seq<char>>) -> Seq<(Seq<char>, Seq<char>)> {
    let (secs, lp, lh) = section_fold(text, starts, headers);
    if lh.len() > 0 {
        secs.push((lh, text.subrange(lp, text.len() as int)))
    } else {
        secs.push((Seq::empty(), text))
    }
}

/// The views of a list of `(header, content)` pairs.
pub open spec fn pair_views(v: Seq<(Vec<char>, Vec<char>)>) -> Seq<(Seq<char>, Seq<char>)> {
    v.map_values(|p: (Vec<char>, Vec<char>)| (p.0@, p.1@))
}

/// The starts form a non-decreasing list inside the text.
pub open spec fn starts_ok(text: Seq<char>, starts: Seq<usize>) -> bool {
    &&& forall|i: int| #![trigger starts[i]] 0 <= i < starts.len() ==> starts[i] <= text.len()
    &&& forall|i: int, j: int| #![trigger starts[i], starts[j]] 0 <= i < j < starts.len() ==> starts[i] <= starts[j]
}

/// The view of a list of starts.
pub open spec fn starts_view(v: Seq<usize>) -> Seq<int> {
    v.map_values(|x: usize| x as int)
}

/// Cuts `text` into `(header, content)` sections at the given header
/// matches.
pub fn cut_sections(text: &[char], starts: &Vec<usize>, headers: &Vec<Vec<char>>) -> (out: Vec<(Vec<char>, Vec<char>)>)
    requires
        starts@.len() == headers@.len(),
        starts_ok(text@, starts@),
    ensures
        pair_views(out@) == header_sections(text@, starts_view(starts@), cviews(headers@)),
{
    let ghost sv = starts_view(starts@);
    let ghost hv = cviews(headers@);
    let mut secs: Vec<(Vec<char>, Vec<char>)> = Vec::new();
    let mut lp: usize = 0;
    let mut lh: Vec<char> = Vec::new();
    let mut i: usize = 0;
    while i < starts.len()
        invariant
            i <= starts@.len(),
            starts@.len() == headers@.len(),
            starts_ok(text@, starts@),
            sv == starts_view(starts@),
            hv == cviews(headers@),
            lp <= text@.len(),
            i > 0 ==> lp == starts@[i - 1],
            i == 0 ==> lp == 0,
            (pair_views(secs@), lp as int, lh@) == section_fold(text@, sv.take(i as int), hv.take(i as int)),
        decreases starts@.len() - i,
    {
        proof {
            assert(sv.take(i + 1).drop_last() =~= sv.take(i as int));
            assert(hv.take(i + 1).drop_last() =~= hv.take(i as int));
            assert(sv.take(i + 1).last() == starts@[i as int] as int);
            assert(hv.take(i + 1).last() == headers@[i as int]@);
            if i > 0 {
                assert(starts@[i - 1] <= starts@[i as int]);
            }
        }
        let st = starts[i];
        if lh.len() > 0 {
            let content = chars_between(text, lp, st);
            let mut h: Vec<char> = Vec::new();
            std::mem::swap(&mut h, &mut lh);
            proof {
                assert(pair_views(secs@.push((h, content))) =~= pair_views(secs@).push((h@, content@)));
            }
            secs.push((h, content));
        }
        lh = vstd::slice::slice_to_vec(headers[i].as_slice());
        lp = st;
        i += 1;
    }
    assert(sv.take(starts@.len() as int) =~= sv);
    assert(hv.take(starts@.len() as int) =~= hv);
    if lh.len() > 0 {
        let content = chars_from(text, lp);
        proof {
            assert(text@.skip(lp as int) =~= text@.subrange(lp as int, text@.len() as int));
            assert(pair_views(secs@.push((lh, content))) =~= pair_views(secs@).push((lh@, content@)));
        }
        secs.push((lh, content));
    } else {
        let all = vstd::slice::slice_to_vec(text);
        let e: Vec<char> = Vec::new();
        proof {
            assert(pair_views(secs@.push((e, all))) =~= pair_views(secs@).push((e@, all@)));
        }
        secs.push((e, all));
    }
    secs
}

/// The start of each present range.
pub open spec fn range_starts(ranges: Seq<Option<(int, int)>>) -> Seq<int> {
    ranges.map_values(|r: Option<(int, int)>| match r {
        Some(p) => p.0,
        None => 0,
    })
}

/// The text of each range.
pub open spec fn range_texts_of(text: Seq<char>, ranges: Seq<Option<(int, int)>>) -> Seq<Seq<char>> {
    ranges.map_values(|r: Option<(int, int)>| range_text(text, r))
}

/// Well-formed character ranges: inside the text, in order, not
/// overlapping.
pub open spec fn ranges_ok(text: Seq<char>, v: Seq<Option<(usize, usize)>>) -> bool {
    &&& forall|i: int| #![trigger v[i]] 0 <= i < v.len() ==> (v[i] matches Some(p) ==> p.0 <= p.1 <= text.len())
    &&& forall|i: int, j: int| #![trigger v[i], v[j]] 0 <= i < j < v.len() ==> (v[i] matches Some(p) ==> (v[j] matches Some(q) ==> p.1 <= q.0))
    &&& forall|i: int| 0 <= i < v.len() ==> (#[trigger] v[i]) is Some
}

/// The starts and texts of match ranges, keeping those `keep` selects.
fn starts_and_texts(text: &[char], ranges: &Vec<Option<(usize, usize)>>, skip_closing: bool) -> (out: (Vec<usize>, Vec<Vec<char>>))
    requires
        ranges_ok(text@, ranges@),
    ensures
        out.0@.len() == out.1@.len(),
        starts_ok(text@, out.0@),
        (starts_view(out.0@), cviews(out.1@)) == kept_matches(text@, ranges_view(ranges@), skip_closing),
{
    let ghost rv = ranges_view(ranges@);
    let mut st: Vec<usize> = Vec::new();
    let mut hs: Vec<Vec<char>> = Vec::new();
    let mut i: usize = 0;
    while i < ranges.len()
        invariant
            i <= ranges@.len(),
            ranges_ok(text@, ranges@),
            rv == ranges_view(ranges@),
            st@.len() == hs@.len(),
            forall|k: int| #![trigger st@[k]] 0 <= k < st@.len() ==> st@[k] <= text@.len(),
            forall|a: int, b: int| #![trigger st@[a], st@[b]] 0 <= a < b < st@.len() ==> st@[a] <= st@[b],
            st@.len() > 0 && i < ranges@.len() ==> (ranges@[i as int] matches Some(q) ==> st@[st@.len() - 1] <= q.0),
            forall|k: int| #![trigger st@[k]] 0 <= k < st@.len() ==> (forall|m: int| #![trigger ranges@[m]] i <= m < ranges@.len() ==> (ranges@[m] matches Some(q) ==> st@[k] <= q.0)),
            (starts_view(st@), cviews(hs@)) == kept_matches(text@, rv.take(i as int), skip_closing),
        decreases ranges@.len() - i,
    {
        proof {
            assert(rv.take(i + 1).drop_last() =~= rv.take(i as int));
            assert(rv.take(i + 1).last() == rv[i as int]);
        }
        match ranges[i] {
            Some((a, b)) => {
                let closing = skip_closing && a < b && b - a >= 2 && text[a] == '<' && text[a + 1] == '/';
                proof {
                    assert(closing == (skip_closing && is_closing_tag(text@.subrange(a as int, b as int))));
                }
                if !closing {
                    let h = chars_between(text, a, b);
                    proof {
                        assert(starts_view(st@.push(a)) =~= starts_view(st@).push(a as int));
                        assert(cviews(hs@.push(h)) =~= cviews(hs@).push(h@));
                        assert forall|m: int| #![trigger ranges@[m]] i + 1 <= m < ranges@.len() implies (ranges@[m] matches Some(q) ==> a <= q.0) by {
                            if ranges@[m] is Some {
                                assert(ranges@[i as int] == Some((a, b)));
                            }
                        }
                    }
                    st.push(a);
                    hs.push(h);
                }
            },
            None => {},
        }
        i += 1;
    }
    assert(rv.take(ranges@.len() as int) =~= rv);
    (st, hs)
}

/// The text starts with `</`.
pub open spec fn is_closing_tag(t: Seq<char>) -> bool {
    t.len() >= 2 && t[0] == '<' && t[1] == '/'
}

/// The starts and texts of the present ranges, leaving out closing tags
/// when `skip_closing`.
pub open spec fn kept_matches(text: Seq<char>, ranges: Seq<Option<(int, int)>>, skip_closing: bool) -> (Seq<int>, Seq<Seq<char>>)
    decreases ranges.len(),
{
    if ranges.len() == 0 {
        (Seq::empty(), Seq::empty())
    } else {
        let (s, h) = kept_matches(text, ranges.drop_last(), skip_closing);
        match ranges.last() {
            Some(p) => if skip_closing && is_closing_tag(text.subrange(p.0, p.1)) {
                (s, h)
            } else {
                (s.push(p.0), h.push(text.subrange(p.0, p.1)))
            },
            None => (s, h),
        }
    }
}

/// `n` copies of `#`.
pub open spec fn hashes(n: nat) -> Seq<char> {
    Seq::new(n, |i: int| '#')
}

/// A markdown section as rendered into a chunk: `#` repeated once per byte
/// of the header text, a space, the header, a newline and the content; a
/// headerless section is its content.
pub open spec fn markdown_section_text(sec: (Seq<char>, Seq<char>)) -> Seq<char> {
    if sec.0.len() == 0 {
        sec.1
    } else {
        hashes(blen(sec.0)) + " "@ + sec.0 + "\n"@ + sec.1
    }
}

/// An HTML section as rendered into a chunk: the header tag, a newline and
/// the trimmed content; a headerless section (or any section when headers
/// are not included) is its content.
pub open spec fn html_section_text(sec: (Seq<char>, Seq<char>), include_header: bool) -> Seq<char> {
    if sec.0.len() == 0 || !include_header {
        sec.1
    } else {
        sec.0 + "\n"@ + trim(sec.1)
    }
}

/// Renders sections as HTML section texts.
fn html_texts(secs: &Vec<(Vec<char>, Vec<char>)>, include_header: bool) -> (out: Vec<Vec<char>>)
    ensures
        cviews(out@) == pair_views(secs@).map_values(|s: (Seq<char>, Seq<char>)| html_section_text(s, include_header)),
{
    let mut out: Vec<Vec<char>> = Vec::new();
    let mut i: usize = 0;
    while i < secs.len()
        invariant
            i <= secs@.len(),
            cviews(out@) =~= pair_views(secs@).take(i as int).map_values(|s: (Seq<char>, Seq<char>)| html_section_text(s, include_header)),
        decreases secs@.len() - i,
    {
        let (h, c) = (&secs[i].0, &secs[i].1);
        let t: Vec<char> = if h.len() == 0 || !include_header {
            vstd::slice::slice_to_vec(c.as_slice())
        } else {
            let mut x = vstd::slice::slice_to_vec(h.as_slice());
            x.push('\n');
            let tc = trim_chars(c.as_slice());
            push_all(&mut x, tc.as_slice());
            proof {
                reveal_strlit("\n");
                assert(x@ =~= h@ + "\n"@ + trim(c@));
            }
            x
        };
        proof {
            assert(cviews(out@.push(t)) =~= cviews(out@).push(t@));
            assert(pair_views(secs@).take(i + 1) =~= pair_views(secs@).take(i as int).push((h@, c@)));
        }
        out.push(t);
        i += 1;
    }
    assert(pair_views(secs@).take(secs@.len() as int) =~= pair_views(secs@));
    out
}

/// Renders sections as markdown section texts.
fn markdown_texts(secs: &Vec<(Vec<char>, Vec<char>)>) -> (out: Vec<Vec<char>>)
    ensures
        cviews(out@) == pair_views(secs@).map_values(|s: (Seq<char>, Seq<char>)| markdown_section_text(s)),
{
    let mut out: Vec<Vec<char>> = Vec::new();
    let mut i: usize = 0;
    while i < secs.len()
        invariant
            i <= secs@.len(),
            cviews(out@) =~= pair_views(secs@).take(i as int).map_values(|s: (Seq<char>, Seq<char>)| markdown_section_text(s)),
        decreases secs@.len() - i,
    {
        let (h, c) = (&secs[i].0, &secs[i].1);
        let t: Vec<char> = if h.len() == 0 {
            vstd::slice::slice_to_vec(c.as_slice())
        } else {
            let n = blen_of(h.as_slice());
            let mut x: Vec<char> = Vec::new();
            let mut k: u128 = 0;
            while k < n
                invariant
                    k <= n,
                    x@ =~= hashes(k as nat),
                decreases n - k,
            {
                x.push('#');
                k += 1;
            }
            x.push(' ');
            push_all(&mut x, h.as_slice());
            x.push('\n');
            push_all(&mut x, c.as_slice());
            proof {
                reveal_strlit("\n");
                reveal_strlit(" ");
                assert(x@ =~= hashes(blen(h@)) + " "@ + h@ + "\n"@ + c@);
            }
            x
        };
        proof {
            assert(cviews(out@.push(t)) =~= cviews(out@).push(t@));
            assert(pair_views(secs@).take(i + 1) =~= pair_views(secs@).take(i as int).push((h@, c@)));
        }
        out.push(t);
        i += 1;
    }
    assert(pair_views(secs@).take(secs@.len() as int) =~= pair_views(secs@));
    out
}

/// The pattern [`HtmlTextSplitter`] finds headers with.
pub open spec fn html_header_pattern() -> Seq<char> {
    "<h[1-6][^>]*>"@
}

/// The chunks of an HTML text split at header tags.
pub open spec fn html_chunks(text: Seq<char>, ranges: Seq<Option<(int, int)>>, include_header: bool, skip_closing: bool, size: int) -> Seq<Seq<char>> {
    let (st, hs) = kept_matches(text, ranges, skip_closing);
    section_merge(
        header_sections(text, st, hs).map_values(|s: (Seq<char>, Seq<char>)| html_section_text(s, include_header)),
        size,
    )
}

/// Splits an HTML text at header tags and merges the sections.
fn split_html(pattern: &str, text: &str, include_header: bool, skip_closing: bool, size: usize) -> (res: Result<Vec<String>, ChainError>)
    ensures
        !regex_is_valid(pattern@) <==> res is Err,
        res matches Ok(v) ==> views(v@) == html_chunks(text@, group_ranges(pattern@, text@, 0), include_header, skip_closing, size as int),
{
    let ranges = match capture_ranges(pattern, text, 0) {
        Some(r) => r,
        None => {
            return Err(ChainError::ParserError(String::from_str("invalid header pattern")));
        },
    };
    let t = str_chars(text);
    let (st, hs) = starts_and_texts(t.as_slice(), &ranges, skip_closing);
    let secs = cut_sections(t.as_slice(), &st, &hs);
    let texts = html_texts(&secs, include_header);
    let chunks = merge_sections(&texts, size);
    let out = strings_from_chars(&chunks);
    assert(views(out@) =~= cviews(chunks@));
    Ok(out)
}

/// Splits HTML at header tags (`<h1>` … `<h6>`), keeping each header with
/// its section.
#[derive(Debug, Clone)]
pub struct HtmlTextSplitter {
    /// Target chunk size in bytes.
    pub chunk_size: usize,
    /// Overlap between chunks in bytes.
    pub chunk_overlap: usize,
}

impl HtmlTextSplitter {
    /// Creates a new `HtmlTextSplitter`.
    pub fn new(chunk_size: usize, chunk_overlap: usize) -> (res: Self)
        ensures
            res.chunk_size == chunk_size,
            res.chunk_overlap == chunk_overlap,
    {
        HtmlTextSplitter { chunk_size, chunk_overlap }
    }

    /// The splitter with a chunk size of 4000 and an overlap of 200.
    pub fn default() -> (res: Self)
        ensures
            res.chunk_size == 4000,
            res.chunk_overlap == 200,
    {
        HtmlTextSplitter { chunk_size: 4000, chunk_overlap: 200 }
    }

    /// Splits `text` at header tags; each section is its tag, a newline and
    /// its trimmed content, and sections are merged while they fit.
    pub fn split_text(&self, text: &str) -> (res: Result<Vec<String>, ChainError>)
        ensures
            !regex_is_valid(html_header_pattern()) <==> res is Err,
            res matches Ok(v) ==> views(v@) == html_chunks(text@, group_ranges(html_header_pattern(), text@, 0), true, false, self.chunk_size as int),
    {
        split_html("<h[1-6][^>]*>", text, true, false, self.chunk_size)
    }
}

/// The pattern [`HtmlSectionSplitter`] finds header tags with (opening and
/// closing).
pub open spec fn html_section_pattern() -> Seq<char> {
    "</?h[1-6][^>]*>"@
}

/// Splits HTML into sections at opening header tags, optionally keeping the
/// header tags in the output.
#[derive(Debug, Clone)]
pub struct HtmlSectionSplitter {
    /// Target chunk size in bytes.
    pub chunk_size: usize,
    /// Overlap between chunks in bytes.
    pub chunk_overlap: usize,
    /// Whether each section starts with its header tag.
    pub include_headers: bool,
}

impl HtmlSectionSplitter {
    /// Creates a new `HtmlSectionSplitter` that includes header tags.
    pub fn new(chunk_size: usize, chunk_overlap: usize) -> (res: Self)
        ensures
            res.chunk_size == chunk_size,
            res.chunk_overlap == chunk_overlap,
            res.include_headers,
    {
        HtmlSectionSplitter { chunk_size, chunk_overlap, include_headers: true }
    }

    /// The splitter with a chunk size of 4000, an overlap of 200, and header
    /// tags included.
    pub fn default() -> (res: Self)
        ensures
            res.chunk_size == 4000,
            res.chunk_overlap == 200,
            res.include_headers,
    {
        HtmlSectionSplitter { chunk_size: 4000, chunk_overlap: 200, include_headers: true }
    }

    /// Sets whether header tags are included.
    pub fn with_include_headers(self, keep_headers: bool) -> (res: Self)
        ensures
            res.chunk_size == self.chunk_size,
            res.chunk_overlap == self.chunk_overlap,
            res.include_headers == keep_headers,
    {
        HtmlSectionSplitter { chunk_size: self.chunk_size, chunk_overlap: self.chunk_overlap, include_headers: keep_headers }
    }

    /// Splits `text` at opening header tags (closing tags are skipped) and
    /// merges the sections while they fit.
    pub fn split_text(&self, text: &str) -> (res: Result<Vec<String>, ChainError>)
        ensures
            !regex_is_valid(html_section_pattern()) <==> res is Err,
            res matches Ok(v) ==> views(v@) == html_chunks(text@, group_ranges(html_section_pattern(), text@, 0), self.include_headers, true, self.chunk_size as int),
    {
        split_html("</?h[1-6][^>]*>", text, self.include_headers, true, self.chunk_size)
    }
}

/// The pattern [`MarkdownHeaderTextSplitter`] finds headers with; group 2
/// is the header text.
pub open spec fn markdown_header_pattern() -> Seq<char> {
    "(?m)^(#{1,6})\\s+(.+)$"@
}

/// The chunks of a markdown text split at its headers.
pub open spec fn markdown_chunks(text: Seq<char>, whole: Seq<Option<(int, int)>>, titles: Seq<Option<(int, int)>>, size: int) -> Seq<Seq<char>> {
    section_merge(
        header_sections(text, range_starts(whole), range_texts_of(text, titles)).map_values(
            |s: (Seq<char>, Seq<char>)| markdown_section_text(s),
        ),
        size,
    )
}

/// Splits markdown at header lines, keeping each header with its section.
#[derive(Debug, Clone)]
pub struct MarkdownHeaderTextSplitter {
    /// Target chunk size in bytes.
    pub chunk_size: usize,
    /// Overlap between chunks in bytes.
    pub chunk_overlap: usize,
}

impl MarkdownHeaderTextSplitter {
    /// Creates a new `MarkdownHeaderTextSplitter`.
    pub fn new(chunk_size: usize, chunk_overlap: usize) -> (res: Self)
        ensures
            res.chunk_size == chunk_size,
            res.chunk_overlap == chunk_overlap,
    {
        MarkdownHeaderTextSplitter { chunk_size, chunk_overlap }
    }

    /// The splitter with a chunk size of 4000 and an overlap of 200.
    pub fn default() -> (res: Self)
        ensures
            res.chunk_size == 4000,
            res.chunk_overlap == 200,
    {
        MarkdownHeaderTextSplitter { chunk_size: 4000, chunk_overlap: 200 }
    }

    /// Splits `text` at header lines (`#` to `######`, whitespace, title)
    /// and merges the sections while they fit.
    pub fn split_text(&self, text: &str) -> (res: Result<Vec<String>, ChainError>)
        ensures
            !regex_is_valid(markdown_header_pattern()) <==> res is Err,
            res matches Ok(v) ==> views(v@) == markdown_chunks(
                text@,
                group_ranges(markdown_header_pattern(), text@, 0),
                group_ranges(markdown_header_pattern(), text@, 2),
                self.chunk_size as int,
            ),
    {
        let whole = match capture_ranges("(?m)^(#{1,6})\\s+(.+)$", text, 0) {
            Some(r) => r,
            None => {
                return Err(ChainError::ParserError(String::from_str("invalid header pattern")));
            },
        };
        let titles = match capture_ranges("(?m)^(#{1,6})\\s+(.+)$", text, 2) {
            Some(r) => r,
            None => {
                return Err(ChainError::ParserError(String::from_str("invalid header pattern")));
            },
        };
        let t = str_chars(text);
        let ghost wv = ranges_view(whole@);
        let ghost tv = ranges_view(titles@);
        let mut st: Vec<usize> = Vec::new();
        let mut hs: Vec<Vec<char>> = Vec::new();
        let mut i: usize = 0;
        while i < whole.len()
            invariant
                i <= whole@.len(),
                whole@.len() == titles@.len(),
                t@ == text@,
                wv == ranges_view(whole@),
                tv == ranges_view(titles@),
                ranges_ok(text@, whole@),
                forall|k: int| #![trigger titles@[k]] 0 <= k < titles@.len() ==> (titles@[k] matches Some(p) ==> p.0 <= p.1 <= text@.len()),
                st@.len() == i,
                hs@.len() == i,
                forall|k: int| 0 <= k < i ==> #[trigger] st@[k] as int == range_starts(wv)[k],
                forall|k: int| 0 <= k < i ==> #[trigger] hs@[k]@ == range_texts_of(text@, tv)[k],
            decreases whole@.len() - i,
        {
            let a: usize = match whole[i] {
                Some((x, _)) => x,
                None => 0,
            };
            let h: Vec<char> = match titles[i] {
                Some((x, y)) => chars_between(t.as_slice(), x, y),
                None => Vec::new(),
            };
            st.push(a);
            hs.push(h);
            i += 1;
        }
        proof {
            assert(starts_view(st@) =~= range_starts(wv));
            assert(cviews(hs@) =~= range_texts_of(text@, tv));
            assert forall|x: int, y: int| #![trigger st@[x], st@[y]] 0 <= x < y < st@.len() implies st@[x] <= st@[y] by {
                assert(whole@[x] is Some && whole@[y] is Some);
            }
            assert forall|x: int| #![trigger st@[x]] 0 <= x < st@.len() implies st@[x] <= text@.len() by {
                assert(whole@[x] is Some);
            }
        }
        let secs = cut_sections(t.as_slice(), &st, &hs);
        let texts = markdown_texts(&secs);
        let chunks = merge_sections(&texts, self.chunk_size);
        let out = strings_from_chars(&chunks);
        assert(views(out@) =~= cviews(chunks@));
        Ok(out)
    }
}

} // verus!
