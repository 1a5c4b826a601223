//! Splitters that find sentences with a regular expression and merge them
//! into chunks joined by spaces, with an overlap between chunks.

use crate::chunk_merge::{chars_between, merge_with_overlap, overlap_merge};
use crate::errors::ChainError;
use crate::pattern::{capture_ranges, char_spans, regex_capture_spans, regex_is_valid, spans_view};
use crate::text::{cviews, is_whitespace, is_ws, join, join_chars, str_chars, string_from_chars, strings_from_chars, trim, trim_chars, views};
use crate::text_splitters::{rec_split, RecursiveCharacterTextSplitter};
use crate::chunk_merge::close_open;
use vstd::prelude::*;

verus! {

broadcast use vstd::seq_lib::group_seq_properties;

/// The character ranges of a capture group in each match of `pattern`.
pub open spec fn group_ranges(pattern: Seq<char>, text: Seq<char>, group: nat) -> Seq<Option<(int, int)>> {
    char_spans(text, regex_capture_spans(pattern, text, group))
}

/// The view of a list of optional character ranges.
pub open spec fn ranges_view(v: Seq<Option<(usize, usize)>>) -> Seq<Option<(int, int)>> {
    spans_view(v).map_values(|o: Option<(nat, nat)>| match o {
        Some(p) => Some((p.0 as int, p.1 as int)),
        None => None,
    })
}

/// The text of an optional range (empty for `None`).
pub open spec fn range_text(text: Seq<char>, r: Option<(int, int)>) -> Seq<char> {
    match r {
        Some(p) => text.subrange(p.0, p.1),
        None => Seq::empty(),
    }
}

/// The trimmed texts of the ranges, leaving out those that trim to nothing.
pub open spec fn trimmed_pieces(text: Seq<char>, ranges: Seq<Option<(int, int)>>) -> Seq<Seq<char>>
    decreases ranges.len(),
{
    if ranges.len() == 0 {
        Seq::empty()
    } else {
        let rest = trimmed_pieces(text, ranges.drop_last());
        let t = trim(range_text(text, ranges.last()));
        if t.len() > 0 {
            rest.push(t)
        } else {
            rest
        }
    }
}

/// The chunks of a sentence splitter: the text itself when no sentence is
/// found, otherwise the sentences merged with spaces (`None` when an
/// overlap cut falls inside a character).
pub open spec fn sentence_chunks(
    text: Seq<char>,
    ranges: Seq<Option<(int, int)>>,
    size: int,
    overlap: nat,
) -> Option<Seq<Seq<char>>> {
    let s = trimmed_pieces(text, ranges);
    if s.len() == 0 {
        Some(seq![text])
    } else {
        overlap_merge(s, ' ', size, overlap)
    }
}

/// What a sentence splitter returns for `text` with the sentence pattern
/// `pattern` (capture group 1 is the sentence).
pub open spec fn sentence_split_result(
    pattern: Seq<char>,
    text: Seq<char>,
    size: int,
    overlap: nat,
    res: Result<Vec<String>, ChainError>,
) -> bool {
    if !regex_is_valid(pattern) {
        res is Err && res matches Err(ChainError::ParserError(_))
    } else {
        match sentence_chunks(text, group_ranges(pattern, text, 1), size, overlap) {
            Some(c) => res matches Ok(v) && views(v@) == c,
            None => res matches Err(ChainError::ValidationError(_)),
        }
    }
}

/// The message returned when an overlap cut would fall inside a character.
pub open spec fn cut_message() -> Seq<char> {
    "chunk overlap does not end on a character boundary"@
}

/// Collects the trimmed, non-empty texts of the ranges.
pub fn collect_trimmed(text: &[char], ranges: &Vec<Option<(usize, usize)>>) -> (out: Vec<Vec<char>>)
    requires
        forall|i: int| #![trigger ranges@[i]] 0 <= i < ranges@.len() ==> (ranges@[i] matches Some(p) ==> p.0 <= p.1 <= text@.len()),
    ensures
        cviews(out@) == trimmed_pieces(text@, ranges_view(ranges@)),
{
    let ghost rv = ranges_view(ranges@);
    let mut out: Vec<Vec<char>> = Vec::new();
    let mut i: usize = 0;
    while i < ranges.len()
        invariant
            i <= ranges@.len(),
            rv == ranges_view(ranges@),
            forall|k: int| #![trigger ranges@[k]] 0 <= k < ranges@.len() ==> (ranges@[k] matches Some(p) ==> p.0 <= p.1 <= text@.len()),
            cviews(out@) == trimmed_pieces(text@, rv.take(i as int)),
        decreases ranges@.len() - i,
    {
        proof {
            assert(rv.take(i + 1).drop_last() =~= rv.take(i as int));
            assert(rv.take(i + 1).last() == rv[i as int]);
        }
        let piece: Vec<char> = match ranges[i] {
            Some((a, b)) => chars_between(text, a, b),
            None => Vec::new(),
        };
        assert(piece@ == range_text(text@, rv[i as int]));
        let t = trim_chars(piece.as_slice());
        if t.len() > 0 {
            proof {
                assert(cviews(out@.push(t)) =~= cviews(out@).push(t@));
            }
            out.push(t);
        }
        i += 1;
    }
    assert(rv.take(ranges@.len() as int) =~= rv);
    out
}

/// Splits `text` into sentences with `pattern` (group 1 is the sentence)
/// and merges them into chunks of about `size` bytes.
pub fn split_sentences(pattern: &str, text: &str, size: usize, overlap: usize) -> (res: Result<Vec<String>, ChainError>)
    ensures
        sentence_split_result(pattern@, text@, size as int, overlap as nat, res),
{
    let ranges = match capture_ranges(pattern, text, 1) {
        Some(r) => r,
        None => {
            return Err(ChainError::ParserError(String::from_str("invalid sentence pattern")));
        },
    };
    let t = str_chars(text);
    let sentences = collect_trimmed(t.as_slice(), &ranges);
    if sentences.len() == 0 {
        let whole = string_from_chars(t.as_slice());
        let v = vec![whole];
        assert(views(v@) =~= seq![text@]);
        return Ok(v);
    }
    match merge_with_overlap(&sentences, ' ', size, overlap) {
        Some(chunks) => {
            let out = strings_from_chars(&chunks);
            assert(views(out@) =~= cviews(chunks@));
            Ok(out)
        },
        None => Err(ChainError::ValidationError(String::from_str("chunk overlap does not end on a character boundary"))),
    }
}

/// The sentence pattern of [`SentenceTransformersTextSplitter`].
pub open spec fn sentence_transformers_pattern() -> Seq<char> {
    "(?s)([^.!?]+[.!?]+)"@
}

/// Splits text at sentence boundaries found by a regular expression.
#[derive(Debug, Clone)]
pub struct SentenceTransformersTextSplitter {
    /// Target chunk size in bytes.
    pub chunk_size: usize,
    /// Overlap between chunks in bytes.
    pub chunk_overlap: usize,
}

impl SentenceTransformersTextSplitter {
    /// Creates a new `SentenceTransformersTextSplitter`.
    pub fn new(chunk_size: usize, chunk_overlap: usize) -> (res: Self)
        ensures
            res.chunk_size == chunk_size,
            res.chunk_overlap == chunk_overlap,
    {
        SentenceTransformersTextSplitter { chunk_size, chunk_overlap }
    }

    /// Splits `text` into sentences (runs ending in `.`, `!` or `?`) and
    /// merges them.
    pub fn split_text(&self, text: &str) -> (res: Result<Vec<String>, ChainError>)
        ensures
            sentence_split_result(sentence_transformers_pattern(), text@, self.chunk_size as int, self.chunk_overlap as nat, res),
    {
        split_sentences("(?s)([^.!?]+[.!?]+)", text, self.chunk_size, self.chunk_overlap)
    }
}

/// The sentence pattern of [`NltkTextSplitter`].
pub open spec fn nltk_pattern() -> Seq<char> {
    "(?s)(.+?[.!?]+(?:\\s|$))"@
}

/// Splits text into sentences the way a punkt-style tokenizer would, using
/// a regular expression.
#[derive(Debug, Clone)]
pub struct NltkTextSplitter {
    /// Target chunk size in bytes.
    pub chunk_size: usize,
    /// Overlap between chunks in bytes.
    pub chunk_overlap: usize,
}

impl NltkTextSplitter {
    /// Creates a new `NltkTextSplitter`.
    pub fn new(chunk_size: usize, chunk_overlap: usize) -> (res: Self)
        ensures
            res.chunk_size == chunk_size,
            res.chunk_overlap == chunk_overlap,
    {
        NltkTextSplitter { chunk_size, chunk_overlap }
    }

    /// The splitter with a chunk size of 4000 and an overlap of 200.
    pub fn default() -> (res: Self)
        ensures
            res.chunk_size == 4000,
            res.chunk_overlap == 200,
    {
        NltkTextSplitter { chunk_size: 4000, chunk_overlap: 200 }
    }

    /// Splits `text` into sentences and merges them.
    pub fn split_text(&self, text: &str) -> (res: Result<Vec<String>, ChainError>)
        ensures
            sentence_split_result(nltk_pattern(), text@, self.chunk_size as int, self.chunk_overlap as nat, res),
    {
        split_sentences("(?s)(.+?[.!?]+(?:\\s|$))", text, self.chunk_size, self.chunk_overlap)
    }
}

/// The sentence pattern of [`SpacyTextSplitter`].
pub open spec fn spacy_pattern() -> Seq<char> {
    "(?s)(.+?(?:[.!?]+[\"')\\]]*\\s+|\\n+))"@
}

/// Splits text into sentences the way a statistical sentencizer would,
/// using a regular expression.
#[derive(Debug, Clone)]
pub struct SpacyTextSplitter {
    /// Target chunk size in bytes.
    pub chunk_size: usize,
    /// Overlap between chunks in bytes.
    pub chunk_overlap: usize,
}

impl SpacyTextSplitter {
    /// Creates a new `SpacyTextSplitter`.
    pub fn new(chunk_size: usize, chunk_overlap: usize) -> (res: Self)
        ensures
            res.chunk_size == chunk_size,
            res.chunk_overlap == chunk_overlap,
    {
        SpacyTextSplitter { chunk_size, chunk_overlap }
    }

    /// The splitter with a chunk size of 4000 and an overlap of 200.
    pub fn default() -> (res: Self)
        ensures
            res.chunk_size == 4000,
            res.chunk_overlap == 200,
    {
        SpacyTextSplitter { chunk_size: 4000, chunk_overlap: 200 }
    }

    /// Splits `text` into sentences and merges them.
    pub fn split_text(&self, text: &str) -> (res: Result<Vec<String>, ChainError>)
        ensures
            sentence_split_result(spacy_pattern(), text@, self.chunk_size as int, self.chunk_overlap as nat, res),
    {
        split_sentences("(?s)(.+?(?:[.!?]+[\"')\\]]*\\s+|\\n+))", text, self.chunk_size, self.chunk_overlap)
    }
}

/// One step of whitespace splitting: whitespace closes the open word,
/// any other character extends it.
pub open spec fn ws_step(st: (Seq<Seq<char>>, Seq<char>), c: char) -> (Seq<Seq<char>>, Seq<char>) {
    if is_ws(c) {
        (if st.1.len() > 0 { st.0.push(st.1) } else { st.0 }, Seq::empty())
    } else {
        (st.0, st.1.push(c))
    }
}

/// Whitespace splitting over a prefix.
pub open spec fn ws_fold(s: Seq<char>) -> (Seq<Seq<char>>, Seq<char>)
    decreases s.len(),
{
    if s.len() == 0 {
        (Seq::empty(), Seq::empty())
    } else {
        ws_step(ws_fold(s.drop_last()), s.last())
    }
}

/// The maximal runs of non-whitespace characters (what
/// `str::split_whitespace` yields).
pub open spec fn whitespace_words(s: Seq<char>) -> Seq<Seq<char>> {
    close_open(ws_fold(s))
}

/// Splits on runs of whitespace.
pub fn split_whitespace_chars(s: &[char]) -> (out: Vec<Vec<char>>)
    ensures
        cviews(out@) == whitespace_words(s@),
{
    let mut words: Vec<Vec<char>> = Vec::new();
    let mut cur: Vec<char> = Vec::new();
    let mut i: usize = 0;
    while i < s.len()
        invariant
            i <= s@.len(),
            (cviews(words@), cur@) == ws_fold(s@.take(i as int)),
        decreases s@.len() - i,
    {
        proof {
            assert(s@.take(i + 1).drop_last() =~= s@.take(i as int));
        }
        let c = s[i];
        if is_whitespace(c) {
            if cur.len() > 0 {
                let mut w: Vec<char> = Vec::new();
                std::mem::swap(&mut w, &mut cur);
                proof {
                    assert(cviews(words@.push(w)) =~= cviews(words@).push(w@));
                }
                words.push(w);
            }
            assert(cur@ =~= Seq::<char>::empty());
        } else {
            cur.push(c);
        }
        i += 1;
    }
    assert(s@.take(s@.len() as int) =~= s@);
    if cur.len() > 0 {
        proof {
            assert(cviews(words@.push(cur)) =~= cviews(words@).push(cur@));
        }
        words.push(cur);
    }
    words
}

/// The pieces that end at each match end: from the previous end (or the
/// start) up to the match end, skipping empty pieces, then the rest of the
/// text after the last match if any.
pub open spec fn end_pieces_fold(text: Seq<char>, ranges: Seq<Option<(int, int)>>) -> (Seq<Seq<char>>, int)
    decreases ranges.len(),
{
    if ranges.len() == 0 {
        (Seq::empty(), 0)
    } else {
        let (ps, last) = end_pieces_fold(text, ranges.drop_last());
        let e = match ranges.last() {
            Some(p) => p.1,
            None => text.len() as int,
        };
        (if last < e { ps.push(text.subrange(last, e)) } else { ps }, e)
    }
}

/// The pieces of `text` cut after each match.
pub open spec fn end_pieces(text: Seq<char>, ranges: Seq<Option<(int, int)>>) -> Seq<Seq<char>> {
    let (ps, last) = end_pieces_fold(text, ranges);
    if last < text.len() {
        ps.push(text.subrange(last, text.len() as int))
    } else {
        ps
    }
}

/// The pattern [`KonlpySplitter`] cuts after: a run of Hangul syllables
/// followed by a particle or verb ending.
pub open spec fn konlpy_pattern() -> Seq<char> {
    "(?m)([가-힣]+)(은|는|이|가|을|를|의|에|로|으로|와|과|도|만|부터|까지|하다|되다)"@
}

/// The separators [`KonlpySplitter`] splits with: lines, spaces, characters.
pub open spec fn konlpy_separators() -> Seq<Seq<char>> {
    seq!["\n"@, " "@, ""@]
}

/// The pieces of a Korean text: cut after each particle match when there
/// is one, otherwise its whitespace-separated words.
pub open spec fn konlpy_pieces(text: Seq<char>, ranges: Seq<Option<(int, int)>>) -> Seq<Seq<char>> {
    if ranges.len() > 0 {
        end_pieces(text, ranges)
    } else {
        whitespace_words(text)
    }
}

/// Splits Korean text at particle and verb-ending boundaries, then splits
/// the resulting lines recursively.
#[derive(Debug, Clone)]
pub struct KonlpySplitter {
    /// Target chunk size in bytes.
    pub chunk_size: usize,
    /// Overlap between chunks in bytes.
    pub chunk_overlap: usize,
}

impl KonlpySplitter {
    /// Creates a new `KonlpySplitter`.
    pub fn new(chunk_size: usize, chunk_overlap: usize) -> (res: Self)
        ensures
            res.chunk_size == chunk_size,
            res.chunk_overlap == chunk_overlap,
    {
        KonlpySplitter { chunk_size, chunk_overlap }
    }

    /// The splitter with a chunk size of 4000 and an overlap of 200.
    pub fn default() -> (res: Self)
        ensures
            res.chunk_size == 4000,
            res.chunk_overlap == 200,
    {
        KonlpySplitter { chunk_size: 4000, chunk_overlap: 200 }
    }

    /// Cuts `text` after each particle (or into words when there is none),
    /// joins the pieces with newlines, and splits that recursively on
    /// newlines, spaces and characters.
    pub fn split_text(&self, text: &str) -> (res: Result<Vec<String>, ChainError>)
        ensures
            !regex_is_valid(konlpy_pattern()) <==> res is Err,
            res matches Ok(v) ==> views(v@) == rec_split(
                join(konlpy_pieces(text@, group_ranges(konlpy_pattern(), text@, 0)), "\n"@),
                konlpy_separators(),
                self.chunk_size as int,
            ),
    {
        let ranges = match capture_ranges("(?m)([가-힣]+)(은|는|이|가|을|를|의|에|로|으로|와|과|도|만|부터|까지|하다|되다)", text, 0) {
            Some(r) => r,
            None => {
                return Err(ChainError::ParserError(String::from_str("invalid particle pattern")));
            },
        };
        let t = str_chars(text);
        let ghost rv = ranges_view(ranges@);
        let pieces: Vec<Vec<char>> = if ranges.len() > 0 {
            let mut ps: Vec<Vec<char>> = Vec::new();
            let mut last: usize = 0;
            let mut i: usize = 0;
            while i < ranges.len()
                invariant
                    i <= ranges@.len(),
                    t@ == text@,
                    rv == ranges_view(ranges@),
                    forall|k: int| #![trigger ranges@[k]] 0 <= k < ranges@.len() ==> (ranges@[k] matches Some(p) ==> p.0 <= p.1 <= text@.len()),
                    last <= t@.len(),
                    (cviews(ps@), last as int) == end_pieces_fold(t@, rv.take(i as int)),
                decreases ranges@.len() - i,
            {
                proof {
                    assert(rv.take(i + 1).drop_last() =~= rv.take(i as int));
                    assert(rv.take(i + 1).last() == rv[i as int]);
                }
                let e: usize = match ranges[i] {
                    Some((_a, b)) => b,
                    None => t.len(),
                };
                if last < e {
                    let piece = chars_between(t.as_slice(), last, e);
                    proof {
                        assert(cviews(ps@.push(piece)) =~= cviews(ps@).push(piece@));
                    }
                    ps.push(piece);
                }
                last = e;
                i += 1;
            }
            assert(rv.take(ranges@.len() as int) =~= rv);
            if last < t.len() {
                let piece = chars_between(t.as_slice(), last, t.len());
                proof {
                    assert(cviews(ps@.push(piece)) =~= cviews(ps@).push(piece@));
                }
                ps.push(piece);
            }
            ps
        } else {
            split_whitespace_chars(t.as_slice())
        };
        let nl: Vec<char> = vec!['\n'];
        let joined = join_chars(&pieces, nl.as_slice());
        let joined_text = string_from_chars(joined.as_slice());
        let seps: Vec<String> = vec![String::from_str("\n"), String::from_str(" "), String::from_str("")];
        assert(views(seps@) =~= konlpy_separators());
        let splitter = RecursiveCharacterTextSplitter::new(seps, self.chunk_size, self.chunk_overlap);
        proof {
            assert(nl@ =~= "\n"@) by {
                reveal_strlit("\n");
            }
        }
        splitter.split_text(joined_text.as_str())
    }
}

} // verus!
