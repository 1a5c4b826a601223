//! Text splitters for breaking documents into chunks.
//!
//! Sizes are measured in UTF-8 bytes, as `str::len` measures them.

use crate::errors::ChainError;
use crate::text::{
    blen, blen_of, char_pieces, char_pieces_of, cviews, split_all, split_chars, lemma_blen_bounds, lemma_blen_concat, push_all, split_std, split_std_chars,
    str_chars, strings_from_chars, views, matches_at, lemma_find_from,
};
use vstd::prelude::*;
use vstd::slice::slice_to_vec;
use crate::tokenization::{cl100k_kept_bytes, cl100k_tokens, lossy_utf8, Cl100KEncoder, TokenEncoder};

pub use crate::json_splitters::{JsonTextSplitter, RecursiveJsonSplitter};
pub use crate::section_splitters::{HtmlSectionSplitter, HtmlTextSplitter, MarkdownHeaderTextSplitter};
pub use crate::sentence_splitters::{KonlpySplitter, NltkTextSplitter, SentenceTransformersTextSplitter, SpacyTextSplitter};

verus! {

broadcast use vstd::seq_lib::group_seq_properties;

/// The chunks of a finished greedy merge: the closed chunks, then the open
/// chunk if it is not empty.
pub open spec fn flush(st: (Seq<Seq<char>>, Seq<char>)) -> Seq<Seq<char>> {
    if st.1.len() > 0 {
        st.0.push(st.1)
    } else {
        st.0
    }
}

/// One step of the separator merge: `split` joins the open chunk (with the
/// separator between them) when the byte lengths of both and of the
/// separator fit in `size`; otherwise the open chunk is closed and `split`
/// opens the next one.
pub open spec fn char_step(
    st: (Seq<Seq<char>>, Seq<char>),
    split: Seq<char>,
    sep: Seq<char>,
    size: int,
) -> (Seq<Seq<char>>, Seq<char>) {
    let (chunks, cur) = st;
    if blen(cur) + blen(split) + blen(sep) <= size {
        (chunks, if cur.len() > 0 { cur + sep + split } else { split })
    } else {
        (if cur.len() > 0 { chunks.push(cur) } else { chunks }, split)
    }
}

/// The separator merge over the first `splits.len()` pieces.
pub open spec fn char_fold(splits: Seq<Seq<char>>, sep: Seq<char>, size: int) -> (Seq<Seq<char>>, Seq<char>)
    decreases splits.len(),
{
    if splits.len() == 0 {
        (Seq::empty(), Seq::empty())
    } else {
        char_step(char_fold(splits.drop_last(), sep, size), splits.last(), sep, size)
    }
}

/// Applies one step of the separator merge to the state.
fn char_merge_step(
    chunks: &mut Vec<Vec<char>>,
    cur: &mut Vec<char>,
    cur_len: &mut u128,
    split: &[char],
    sep: &[char],
    sep_len: u128,
    size: usize,
)
    requires
        *old(cur_len) == blen(old(cur)@),
        sep_len == blen(sep@),
    ensures
        *final(cur_len) == blen(final(cur)@),
        (cviews(final(chunks)@), final(cur)@) == char_step(
            (cviews(old(chunks)@), old(cur)@),
            split@,
            sep@,
            size as int,
        ),
{
    let split_len = blen_of(split);
    proof {
        assert(cur@.len() == cur.len());
        assert(split@.len() == split.len());
        assert(sep@.len() == sep.len());
        lemma_blen_bounds(cur@);
        lemma_blen_bounds(split@);
        lemma_blen_bounds(sep@);
    }
    if *cur_len + split_len + sep_len <= size as u128 {
        if cur.len() > 0 {
            proof {
                lemma_blen_concat(cur@, sep@);
                lemma_blen_concat(cur@ + sep@, split@);
            }
            push_all(cur, sep);
            push_all(cur, split);
            *cur_len = *cur_len + sep_len + split_len;
        } else {
            *cur = slice_to_vec(split);
            *cur_len = split_len;
        }
    } else {
        if cur.len() > 0 {
            let mut c: Vec<char> = Vec::new();
            std::mem::swap(&mut c, cur);
            proof {
                assert(cviews(chunks@.push(c)) =~= cviews(chunks@).push(c@));
            }
            chunks.push(c);
        }
        *cur = slice_to_vec(split);
        *cur_len = split_len;
    }
}

/// The chunks that [`CharacterTextSplitter`] produces.
pub open spec fn character_split(text: Seq<char>, sep: Seq<char>, size: int) -> Seq<Seq<char>> {
    flush(char_fold(split_std(text, sep), sep, size))
}

/// Splits text on a fixed separator string, merging consecutive pieces while
/// the merged chunk stays within `chunk_size` bytes.
#[derive(Debug, Clone)]
pub struct CharacterTextSplitter {
    /// The separator to split on (default: `"\n\n"`).
    pub separator: String,
    /// The target maximum chunk size in bytes.
    pub chunk_size: usize,
    /// The number of bytes to overlap between consecutive chunks.
    pub chunk_overlap: usize,
}

impl CharacterTextSplitter {
    /// Creates a new `CharacterTextSplitter`.
    pub fn new(separator: &str, chunk_size: usize, chunk_overlap: usize) -> (res: Self)
        ensures
            res.separator@ == separator@,
            res.chunk_size == chunk_size,
            res.chunk_overlap == chunk_overlap,
    {
        CharacterTextSplitter { separator: separator.to_owned(), chunk_size, chunk_overlap }
    }

    /// Splits `text` on the separator and greedily merges the pieces.
    pub fn split_text(&self, text: &str) -> (res: Result<Vec<String>, ChainError>)
        ensures
            match res {
                Ok(v) => views(v@) == character_split(text@, self.separator@, self.chunk_size as int),
                Err(_) => false,
            },
    {
        let t = str_chars(text);
        let sep = str_chars(self.separator.as_str());
        let splits = split_std_chars(t.as_slice(), sep.as_slice());
        let sep_len = blen_of(sep.as_slice());
        let size = self.chunk_size as u128;
        let mut chunks: Vec<Vec<char>> = Vec::new();
        let mut cur: Vec<char> = Vec::new();
        let mut cur_len: u128 = 0;
        let mut i: usize = 0;
        while i < splits.len()
            invariant
                i <= splits@.len(),
                cviews(splits@) == split_std(text@, self.separator@),
                sep@ == self.separator@,
                sep_len == blen(sep@),
                size == self.chunk_size,
                cur_len == blen(cur@),
                (cviews(chunks@), cur@) == char_fold(
                    cviews(splits@).take(i as int),
                    sep@,
                    self.chunk_size as int,
                ),
            decreases splits@.len() - i,
        {
            proof {
                assert(cviews(splits@).take(i + 1).drop_last() =~= cviews(splits@).take(i as int));
                assert(cviews(splits@).take(i + 1).last() == splits@[i as int]@);
            }
            char_merge_step(&mut chunks, &mut cur, &mut cur_len, splits[i].as_slice(), sep.as_slice(), sep_len, self.chunk_size);
            i += 1;
        }
        assert(cviews(splits@).take(splits@.len() as int) =~= cviews(splits@));
        if cur.len() > 0 {
            proof {
                assert(cviews(chunks@.push(cur)) =~= cviews(chunks@).push(cur@));
            }
            chunks.push(cur);
        }
        let out = strings_from_chars(&chunks);
        assert(views(out@) =~= cviews(chunks@));
        Ok(out)
    }
}


/// The pieces a recursive level splits its text into: the characters for the
/// empty separator, otherwise the pieces between separator occurrences.
pub open spec fn level_pieces(text: Seq<char>, sep: Seq<char>) -> Seq<Seq<char>> {
    if sep.len() == 0 {
        char_pieces(text)
    } else {
        split_all(text, sep)
    }
}

/// The chunks that recursive splitting with the separators `seps` (tried in
/// order) produces for `text`.
pub open spec fn rec_split(text: Seq<char>, seps: Seq<Seq<char>>, size: int) -> Seq<Seq<char>>
    decreases seps.len(), 0nat,
{
    if seps.len() == 0 {
        seq![text]
    } else {
        let splits = level_pieces(text, seps[0]);
        flush(rec_fold(splits, seps[0], seps.drop_first(), size, splits.len()))
    }
}

/// The merge state of one recursive level after its first `n` pieces: a
/// piece joins the open chunk (with the separator between non-empty parts)
/// when it fits in `size` bytes; otherwise the open chunk is closed, and a
/// piece longer than `size` is split with the remaining separators `rest`
/// (when there are any) while a shorter one opens the next chunk.
pub open spec fn rec_fold(
    splits: Seq<Seq<char>>,
    sep: Seq<char>,
    rest: Seq<Seq<char>>,
    size: int,
    n: nat,
) -> (Seq<Seq<char>>, Seq<char>)
    decreases rest.len(), n,
{
    if n == 0 || n > splits.len() {
        (Seq::empty(), Seq::empty())
    } else {
        let st = rec_fold(splits, sep, rest, size, (n - 1) as nat);
        let split = splits[n - 1];
        let chunks = st.0;
        let cur = st.1;
        let sep_len: int = if cur.len() > 0 && sep.len() > 0 { blen(sep) as int } else { 0 };
        if blen(cur) + sep_len + blen(split) <= size {
            (chunks, if cur.len() > 0 && sep.len() > 0 { cur + sep + split } else { cur + split })
        } else {
            let closed = if cur.len() > 0 { chunks.push(cur) } else { chunks };
            if blen(split) > size && rest.len() > 0 {
                (closed + rec_split(split, rest, size), Seq::empty())
            } else {
                (closed, split)
            }
        }
    }
}

/// Splits text recursively using a list of separators, trying each in order.
///
/// Default separators target paragraph, line, word, and character boundaries.
#[derive(Debug, Clone)]
pub struct RecursiveCharacterTextSplitter {
    /// Ordered list of separator strings to try.
    pub separators: Vec<String>,
    /// Target maximum chunk size in bytes.
    pub chunk_size: usize,
    /// Overlap between consecutive chunks.
    pub chunk_overlap: usize,
}

impl RecursiveCharacterTextSplitter {
    /// Creates a new `RecursiveCharacterTextSplitter`.
    pub fn new(separators: Vec<String>, chunk_size: usize, chunk_overlap: usize) -> (res: Self)
        ensures
            res.separators == separators,
            res.chunk_size == chunk_size,
            res.chunk_overlap == chunk_overlap,
    {
        RecursiveCharacterTextSplitter { separators, chunk_size, chunk_overlap }
    }

    /// The splitter with the default separators `"\n\n"`, `"\n"`, `" "`, `""`,
    /// a chunk size of 4000 and an overlap of 200.
    pub fn default() -> (res: Self)
        ensures
            views(res.separators@) == seq!["\n\n"@, "\n"@, " "@, ""@],
            res.chunk_size == 4000,
            res.chunk_overlap == 200,
    {
        let seps: Vec<String> = vec![String::from_str("\n\n"), String::from_str("\n"), String::from_str(" "), String::from_str("")];
        assert(views(seps@) =~= seq!["\n\n"@, "\n"@, " "@, ""@]);
        RecursiveCharacterTextSplitter { separators: seps, chunk_size: 4000, chunk_overlap: 200 }
    }

    /// Recursive splitting of `text` with the separators `seps`.
    fn split_text_internal(&self, text: &[char], seps: &[Vec<char>]) -> (out: Vec<Vec<char>>)
        ensures
            cviews(out@) == rec_split(text@, cviews(seps@), self.chunk_size as int),
        decreases seps@.len(),
    {
        let ghost sv = cviews(seps@);
        if seps.len() == 0 {
            let out: Vec<Vec<char>> = vec![slice_to_vec(text)];
            assert(cviews(out@) =~= seq![text@]);
            return out;
        }
        let sep = &seps[0];
        let splits = if sep.len() == 0 {
            char_pieces_of(text)
        } else {
            split_chars(text, sep.as_slice())
        };
        let remaining = vstd::slice::slice_subrange(seps, 1, seps.len());
        proof {
            assert(sv[0] == sep@);
            assert(cviews(remaining@) =~= sv.drop_first());
            assert(cviews(splits@) == level_pieces(text@, sv[0]));
        }
        let sep_len = blen_of(sep.as_slice());
        let size = self.chunk_size as u128;
        let mut chunks: Vec<Vec<char>> = Vec::new();
        let mut cur: Vec<char> = Vec::new();
        let mut cur_len: u128 = 0;
        let mut i: usize = 0;
        while i < splits.len()
            invariant
                i <= splits@.len(),
                seps@.len() > 0,
                sv == cviews(seps@),
                sv[0] == sep@,
                cviews(remaining@) == sv.drop_first(),
                remaining@.len() < seps@.len(),
                cviews(splits@) == level_pieces(text@, sv[0]),
                sep_len == blen(sep@),
                size == self.chunk_size,
                cur_len == blen(cur@),
                (cviews(chunks@), cur@) == rec_fold(
                    cviews(splits@),
                    sep@,
                    sv.drop_first(),
                    self.chunk_size as int,
                    i as nat,
                ),
            decreases splits@.len() - i,
        {
            let split = splits[i].as_slice();
            let split_len = blen_of(split);
            proof {
                assert(cviews(splits@)[i as int] == split@);
                assert(cur@.len() == cur.len());
                assert(split@.len() == split.len());
                assert(sep@.len() == sep.len());
                lemma_blen_bounds(cur@);
                lemma_blen_bounds(split@);
                lemma_blen_bounds(sep@);
            }
            let sl: u128 = if cur.len() > 0 && sep.len() > 0 { sep_len } else { 0 };
            if cur_len + sl + split_len <= size {
                if cur.len() > 0 && sep.len() > 0 {
                    proof {
                        lemma_blen_concat(cur@, sep@);
                        lemma_blen_concat(cur@ + sep@, split@);
                    }
                    push_all(&mut cur, sep.as_slice());
                } else {
                    proof {
                        lemma_blen_concat(cur@, split@);
                    }
                }
                push_all(&mut cur, split);
                cur_len = cur_len + sl + split_len;
            } else {
                if cur.len() > 0 {
                    let mut c: Vec<char> = Vec::new();
                    std::mem::swap(&mut c, &mut cur);
                    proof {
                        assert(cviews(chunks@.push(c)) =~= cviews(chunks@).push(c@));
                    }
                    chunks.push(c);
                }
                if split_len > size && remaining.len() > 0 {
                    let sub = self.split_text_internal(split, remaining);
                    let ghost before = cviews(chunks@);
                    let mut k: usize = 0;
                    while k < sub.len()
                        invariant
                            k <= sub@.len(),
                            cviews(chunks@) == before + cviews(sub@).take(k as int),
                        decreases sub@.len() - k,
                    {
                        let piece = sub[k].clone();
                        proof {
                            assert(cviews(chunks@.push(piece)) =~= cviews(chunks@).push(piece@));
                            assert(cviews(sub@).take(k + 1) =~= cviews(sub@).take(k as int).push(sub@[k as int]@));
                        }
                        chunks.push(piece);
                        k += 1;
                    }
                    assert(cviews(sub@).take(sub@.len() as int) =~= cviews(sub@));
                    cur = Vec::new();
                    cur_len = 0;
                } else {
                    cur = slice_to_vec(split);
                    cur_len = split_len;
                }
            }
            i += 1;
        }
        if cur.len() > 0 {
            proof {
                assert(cviews(chunks@.push(cur)) =~= cviews(chunks@).push(cur@));
            }
            chunks.push(cur);
        }
        chunks
    }

    /// Splits `text` recursively with the configured separators.
    pub fn split_text(&self, text: &str) -> (res: Result<Vec<String>, ChainError>)
        ensures
            match res {
                Ok(v) => views(v@) == rec_split(text@, views(self.separators@), self.chunk_size as int),
                Err(_) => false,
            },
    {
        let t = str_chars(text);
        let mut seps: Vec<Vec<char>> = Vec::new();
        let mut i: usize = 0;
        while i < self.separators.len()
            invariant
                i <= self.separators@.len(),
                cviews(seps@) =~= views(self.separators@).take(i as int),
            decreases self.separators@.len() - i,
        {
            let c = str_chars(self.separators[i].as_str());
            proof {
                assert(cviews(seps@.push(c)) =~= cviews(seps@).push(c@));
                assert(views(self.separators@).take(i + 1) =~= views(self.separators@).take(i as int).push(self.separators@[i as int]@));
            }
            seps.push(c);
            i += 1;
        }
        assert(views(self.separators@).take(self.separators@.len() as int) =~= views(self.separators@));
        let chunks = self.split_text_internal(t.as_slice(), seps.as_slice());
        let out = strings_from_chars(&chunks);
        assert(views(out@) =~= cviews(chunks@));
        Ok(out)
    }
}


/// The separators that [`CodeTextSplitter`] tries, in order.
pub open spec fn code_separators() -> Seq<Seq<char>> {
    seq!["\n\n"@, "\n"@, ";"@, " "@, ""@]
}

/// Splits general-purpose code using language-aware recursion.
#[derive(Debug, Clone)]
pub struct CodeTextSplitter {
    /// Target chunk size in bytes.
    pub chunk_size: usize,
    /// Overlap between chunks.
    pub chunk_overlap: usize,
    /// Programming language hint (not used when splitting).
    pub language: String,
}

impl CodeTextSplitter {
    /// Creates a new `CodeTextSplitter`.
    pub fn new(language: &str, chunk_size: usize, chunk_overlap: usize) -> (res: Self)
        ensures
            res.chunk_size == chunk_size,
            res.chunk_overlap == chunk_overlap,
            res.language@ == language@,
    {
        CodeTextSplitter { chunk_size, chunk_overlap, language: language.to_owned() }
    }

    /// Splits `text` recursively with this splitter's separators.
    pub fn split_text(&self, text: &str) -> (res: Result<Vec<String>, ChainError>)
        ensures
            match res {
                Ok(v) => views(v@) == rec_split(text@, code_separators(), self.chunk_size as int),
                Err(_) => false,
            },
    {
        let seps: Vec<String> = vec![String::from_str("\n\n"), String::from_str("\n"), String::from_str(";"), String::from_str(" "), String::from_str("")];
        assert(views(seps@) =~= code_separators());
        let splitter = RecursiveCharacterTextSplitter::new(seps, self.chunk_size, self.chunk_overlap);
        splitter.split_text(text)
    }
}

/// The separators that [`PythonCodeTextSplitter`] tries, in order.
pub open spec fn python_separators() -> Seq<Seq<char>> {
    seq!["\nclass "@, "\nfunc "@, "\ndef "@, "\n\t"@, "\n  "@, "\n"@, ""@]
}

/// Splits Python code using class/function definitions as split points.
#[derive(Debug, Clone)]
pub struct PythonCodeTextSplitter {
    /// Target chunk size in bytes.
    pub chunk_size: usize,
    /// Overlap between chunks.
    pub chunk_overlap: usize,
}

impl PythonCodeTextSplitter {
    /// Creates a new `PythonCodeTextSplitter`.
    pub fn new(chunk_size: usize, chunk_overlap: usize) -> (res: Self)
        ensures
            res.chunk_size == chunk_size,
            res.chunk_overlap == chunk_overlap,
    {
        PythonCodeTextSplitter { chunk_size, chunk_overlap }
    }

    /// Splits `text` recursively with this splitter's separators.
    pub fn split_text(&self, text: &str) -> (res: Result<Vec<String>, ChainError>)
        ensures
            match res {
                Ok(v) => views(v@) == rec_split(text@, python_separators(), self.chunk_size as int),
                Err(_) => false,
            },
    {
        let seps: Vec<String> = vec![String::from_str("\nclass "), String::from_str("\nfunc "), String::from_str("\ndef "), String::from_str("\n\t"), String::from_str("\n  "), String::from_str("\n"), String::from_str("")];
        assert(views(seps@) =~= python_separators());
        let splitter = RecursiveCharacterTextSplitter::new(seps, self.chunk_size, self.chunk_overlap);
        splitter.split_text(text)
    }
}

/// The separators that [`MarkdownTextSplitter`] tries, in order.
pub open spec fn markdown_separators() -> Seq<Seq<char>> {
    seq!["\n## "@, "\n### "@, "\n#### "@, "\n##### "@, "\n###### "@, "\n\n"@, "\n"@, " "@, ""@]
}

/// Splits Markdown text using heading-based recursion.
#[derive(Debug, Clone)]
pub struct MarkdownTextSplitter {
    /// Target chunk size in bytes.
    pub chunk_size: usize,
    /// Overlap between chunks.
    pub chunk_overlap: usize,
}

impl MarkdownTextSplitter {
    /// Creates a new `MarkdownTextSplitter`.
    pub fn new(chunk_size: usize, chunk_overlap: usize) -> (res: Self)
        ensures
            res.chunk_size == chunk_size,
            res.chunk_overlap == chunk_overlap,
    {
        MarkdownTextSplitter { chunk_size, chunk_overlap }
    }

    /// Splits `text` recursively with this splitter's separators.
    pub fn split_text(&self, text: &str) -> (res: Result<Vec<String>, ChainError>)
        ensures
            match res {
                Ok(v) => views(v@) == rec_split(text@, markdown_separators(), self.chunk_size as int),
                Err(_) => false,
            },
    {
        let seps: Vec<String> = vec![String::from_str("\n## "), String::from_str("\n### "), String::from_str("\n#### "), String::from_str("\n##### "), String::from_str("\n###### "), String::from_str("\n\n"), String::from_str("\n"), String::from_str(" "), String::from_str("")];
        assert(views(seps@) =~= markdown_separators());
        let splitter = RecursiveCharacterTextSplitter::new(seps, self.chunk_size, self.chunk_overlap);
        splitter.split_text(text)
    }
}

/// The separators that [`LatexTextSplitter`] tries, in order.
pub open spec fn latex_separators() -> Seq<Seq<char>> {
    seq!["\n\\chapter{"@, "\n\\section{"@, "\n\\subsection{"@, "\n\\subsubsection{"@, "\n\n"@, "\n"@, " "@, ""@]
}

/// Splits LaTeX documents using chapter/section/subsection boundaries.
#[derive(Debug, Clone)]
pub struct LatexTextSplitter {
    /// Target chunk size in bytes.
    pub chunk_size: usize,
    /// Overlap between chunks.
    pub chunk_overlap: usize,
}

impl LatexTextSplitter {
    /// Creates a new `LatexTextSplitter`.
    pub fn new(chunk_size: usize, chunk_overlap: usize) -> (res: Self)
        ensures
            res.chunk_size == chunk_size,
            res.chunk_overlap == chunk_overlap,
    {
        LatexTextSplitter { chunk_size, chunk_overlap }
    }

    /// Splits `text` recursively with this splitter's separators.
    pub fn split_text(&self, text: &str) -> (res: Result<Vec<String>, ChainError>)
        ensures
            match res {
                Ok(v) => views(v@) == rec_split(text@, latex_separators(), self.chunk_size as int),
                Err(_) => false,
            },
    {
        let seps: Vec<String> = vec![String::from_str("\n\\chapter{"), String::from_str("\n\\section{"), String::from_str("\n\\subsection{"), String::from_str("\n\\subsubsection{"), String::from_str("\n\n"), String::from_str("\n"), String::from_str(" "), String::from_str("")];
        assert(views(seps@) =~= latex_separators());
        let splitter = RecursiveCharacterTextSplitter::new(seps, self.chunk_size, self.chunk_overlap);
        splitter.split_text(text)
    }
}

/// The separators that [`JsxTextSplitter`] tries, in order.
pub open spec fn jsx_separators() -> Seq<Seq<char>> {
    seq!["\nfunction "@, "\nconst "@, "\nexport "@, "\nimport "@, "\nexport default "@, "\nclass "@, "\n\n"@, "\n"@, " "@, ""@]
}

/// Splits JSX / React code using component and function boundaries.
#[derive(Debug, Clone)]
pub struct JsxTextSplitter {
    /// Target chunk size in bytes.
    pub chunk_size: usize,
    /// Overlap between chunks.
    pub chunk_overlap: usize,
}

impl JsxTextSplitter {
    /// Creates a new `JsxTextSplitter`.
    pub fn new(chunk_size: usize, chunk_overlap: usize) -> (res: Self)
        ensures
            res.chunk_size == chunk_size,
            res.chunk_overlap == chunk_overlap,
    {
        JsxTextSplitter { chunk_size, chunk_overlap }
    }

    /// Splits `text` recursively with this splitter's separators.
    pub fn split_text(&self, text: &str) -> (res: Result<Vec<String>, ChainError>)
        ensures
            match res {
                Ok(v) => views(v@) == rec_split(text@, jsx_separators(), self.chunk_size as int),
                Err(_) => false,
            },
    {
        let seps: Vec<String> = vec![String::from_str("\nfunction "), String::from_str("\nconst "), String::from_str("\nexport "), String::from_str("\nimport "), String::from_str("\nexport default "), String::from_str("\nclass "), String::from_str("\n\n"), String::from_str("\n"), String::from_str(" "), String::from_str("")];
        assert(views(seps@) =~= jsx_separators());
        let splitter = RecursiveCharacterTextSplitter::new(seps, self.chunk_size, self.chunk_overlap);
        splitter.split_text(text)
    }
}

/// The separators that [`XslTextSplitter`] tries, in order.
pub open spec fn xsl_separators() -> Seq<Seq<char>> {
    seq!["\n<xsl:template "@, "\n<xsl:if "@, "\n<xsl:for-each "@, "\n<xsl:choose>"@, "\n<xsl:when "@, "\n\n"@, "\n"@, " "@, ""@]
}

/// Splits XSL / XSLT stylesheets using template and control-flow boundaries.
#[derive(Debug, Clone)]
pub struct XslTextSplitter {
    /// Target chunk size in bytes.
    pub chunk_size: usize,
    /// Overlap between chunks.
    pub chunk_overlap: usize,
}

impl XslTextSplitter {
    /// Creates a new `XslTextSplitter`.
    pub fn new(chunk_size: usize, chunk_overlap: usize) -> (res: Self)
        ensures
            res.chunk_size == chunk_size,
            res.chunk_overlap == chunk_overlap,
    {
        XslTextSplitter { chunk_size, chunk_overlap }
    }

    /// Splits `text` recursively with this splitter's separators.
    pub fn split_text(&self, text: &str) -> (res: Result<Vec<String>, ChainError>)
        ensures
            match res {
                Ok(v) => views(v@) == rec_split(text@, xsl_separators(), self.chunk_size as int),
                Err(_) => false,
            },
    {
        let seps: Vec<String> = vec![String::from_str("\n<xsl:template "), String::from_str("\n<xsl:if "), String::from_str("\n<xsl:for-each "), String::from_str("\n<xsl:choose>"), String::from_str("\n<xsl:when "), String::from_str("\n\n"), String::from_str("\n"), String::from_str(" "), String::from_str("")];
        assert(views(seps@) =~= xsl_separators());
        let splitter = RecursiveCharacterTextSplitter::new(seps, self.chunk_size, self.chunk_overlap);
        splitter.split_text(text)
    }
}

/// The separators that [`ExperimentalMarkdownSyntaxSplitter`] tries, in order.
pub open spec fn markdown_syntax_separators() -> Seq<Seq<char>> {
    seq!["\n```"@, "\n---"@, "\n***"@, "\n___"@, "\n# "@, "\n## "@, "\n### "@, "\n#### "@, "\n##### "@, "\n###### "@, "\n\n"@, "\n"@, " "@, ""@]
}

/// Splits Markdown documents while keeping code fences, rules, headings and
/// paragraphs together where possible.
#[derive(Debug, Clone)]
pub struct ExperimentalMarkdownSyntaxSplitter {
    /// Target chunk size in bytes.
    pub chunk_size: usize,
    /// Overlap between chunks.
    pub chunk_overlap: usize,
}

impl ExperimentalMarkdownSyntaxSplitter {
    /// Creates a new `ExperimentalMarkdownSyntaxSplitter`.
    pub fn new(chunk_size: usize, chunk_overlap: usize) -> (res: Self)
        ensures
            res.chunk_size == chunk_size,
            res.chunk_overlap == chunk_overlap,
    {
        ExperimentalMarkdownSyntaxSplitter { chunk_size, chunk_overlap }
    }

    /// Splits `text` recursively with this splitter's separators.
    pub fn split_text(&self, text: &str) -> (res: Result<Vec<String>, ChainError>)
        ensures
            match res {
                Ok(v) => views(v@) == rec_split(text@, markdown_syntax_separators(), self.chunk_size as int),
                Err(_) => false,
            },
    {
        let seps: Vec<String> = vec![String::from_str("\n```"), String::from_str("\n---"), String::from_str("\n***"), String::from_str("\n___"), String::from_str("\n# "), String::from_str("\n## "), String::from_str("\n### "), String::from_str("\n#### "), String::from_str("\n##### "), String::from_str("\n###### "), String::from_str("\n\n"), String::from_str("\n"), String::from_str(" "), String::from_str("")];
        assert(views(seps@) =~= markdown_syntax_separators());
        let splitter = RecursiveCharacterTextSplitter::new(seps, self.chunk_size, self.chunk_overlap);
        splitter.split_text(text)
    }
}

/// The consecutive blocks of `size` items that cover `n` items: block `k`
/// spans `k * size` up to `min((k + 1) * size, n)`.
pub open spec fn token_blocks(n: nat, size: nat) -> Seq<(nat, nat)>
    decreases n,
{
    if n == 0 || size == 0 {
        Seq::empty()
    } else if n <= size {
        seq![(0nat, n)]
    } else {
        token_blocks((n - size) as nat, size).map_values(|b: (nat, nat)| ((b.0 + size) as nat, (b.1 + size) as nat)).insert(0, (0nat, size))
    }
}

/// The tokens cut into consecutive blocks of `size`.
pub open spec fn token_chunks(tokens: Seq<u32>, size: nat) -> Seq<Seq<u32>> {
    token_blocks(tokens.len(), size).map_values(|b: (nat, nat)| tokens.subrange(b.0 as int, b.1 as int))
}

/// Cuts tokens into consecutive blocks of `size`.
pub fn chunk_tokens(tokens: &Vec<u32>, size: usize) -> (out: Vec<Vec<u32>>)
    requires
        size > 0,
    ensures
        out@.map_values(|v: Vec<u32>| v@) == token_chunks(tokens@, size as nat),
{
    let mut out: Vec<Vec<u32>> = Vec::new();
    let mut start: usize = 0;
    let n = tokens.len();
    while start < n
        invariant
            n == tokens@.len(),
            size > 0,
            start <= n,
            start % size == 0 || start == n,
            out@.map_values(|v: Vec<u32>| v@) =~= token_chunks(tokens@.take(start as int), size as nat),
        decreases n - start,
    {
        let end: usize = if n - start < size { n } else { start + size };
        let mut block: Vec<u32> = Vec::new();
        let mut i: usize = start;
        while i < end
            invariant
                start <= i <= end <= n,
                n == tokens@.len(),
                block@ == tokens@.subrange(start as int, i as int),
            decreases end - i,
        {
            block.push(tokens[i]);
            i += 1;
            assert(tokens@.subrange(start as int, i as int) =~= tokens@.subrange(start as int, i - 1).push(tokens@[i - 1]));
        }
        proof {
            if end == start + size {
                assert((start + size) % (size as int) == 0) by (nonlinear_arith)
                    requires
                        start % size == 0,
                        size > 0,
                ;
            }
            lemma_token_chunks_step(tokens@, start as nat, end as nat, size as nat);
            assert(out@.push(block).map_values(|v: Vec<u32>| v@) =~= out@.map_values(|v: Vec<u32>| v@).push(block@));
        }
        out.push(block);
        start = end;
    }
    assert(tokens@.take(n as int) =~= tokens@);
    out
}

/// Blocks of a longer prefix extend the blocks of a shorter one.
proof fn lemma_token_chunks_step(tokens: Seq<u32>, start: nat, end: nat, size: nat)
    requires
        size > 0,
        start < end <= tokens.len(),
        start % size == 0,
        end == start + size || (end == tokens.len() && end - start < size),
    ensures
        token_chunks(tokens.take(end as int), size) == token_chunks(tokens.take(start as int), size).push(
            tokens.subrange(start as int, end as int),
        ),
{
    lemma_blocks_extend(start, end, size);
    let a = token_blocks(start, size);
    let b = token_blocks(end, size);
    assert(b == a.push((start, end)));
    let ta = tokens.take(start as int);
    let tb = tokens.take(end as int);
    assert forall|k: int| 0 <= k < a.len() implies #[trigger] ta.subrange(a[k].0 as int, a[k].1 as int) == tb.subrange(a[k].0 as int, a[k].1 as int) by {
        lemma_block_bounds(start, size, k);
        assert(ta.subrange(a[k].0 as int, a[k].1 as int) =~= tb.subrange(a[k].0 as int, a[k].1 as int));
    }
    assert(tb.len() == end && ta.len() == start);
    assert(tb.subrange(start as int, end as int) =~= tokens.subrange(start as int, end as int));
    let ca = token_chunks(ta, size);
    let cb = token_chunks(tb, size);
    assert(cb.len() == ca.len() + 1);
    assert forall|k: int| 0 <= k < cb.len() implies cb[k] == ca.push(tokens.subrange(start as int, end as int))[k] by {
        if k < a.len() {
            assert(b[k] == a[k]);
        } else {
            assert(b[k] == (start, end));
        }
    }
    assert(cb =~= ca.push(tokens.subrange(start as int, end as int)));
}

/// Every block of `n` items lies within them.
proof fn lemma_block_bounds(n: nat, size: nat, k: int)
    requires
        size > 0,
        0 <= k < token_blocks(n, size).len(),
    ensures
        token_blocks(n, size)[k].0 <= token_blocks(n, size)[k].1 <= n,
    decreases n,
{
    if n > size {
        if k > 0 {
            lemma_block_bounds((n - size) as nat, size, k - 1);
        }
    }
}

/// Adding a block to a multiple of `size` items adds it at the end.
proof fn lemma_blocks_extend(start: nat, end: nat, size: nat)
    requires
        size > 0,
        start < end,
        start % size == 0,
        end - start <= size,
    ensures
        token_blocks(end, size) == token_blocks(start, size).push((start, end)),
    decreases start,
{
    if start == 0 {
        assert(token_blocks(0, size) =~= Seq::<(nat, nat)>::empty());
        assert(token_blocks(end, size) =~= seq![(0nat, end)]);
    } else {
        assert(start >= size) by (nonlinear_arith)
            requires
                start % size == 0,
                start > 0,
                size > 0,
        ;
        assert((start - size) % (size as int) == 0) by (nonlinear_arith)
            requires
                start % size == 0,
                start >= size,
                size > 0,
        ;
        lemma_blocks_extend((start - size) as nat, (end - size) as nat, size);
        let inner = token_blocks((start - size) as nat, size);
        let f = |b: (nat, nat)| ((b.0 + size) as nat, (b.1 + size) as nat);
        assert(inner.push(((start - size) as nat, (end - size) as nat)).map_values(f) =~= inner.map_values(f).push((start, end)));
        if start == size {
            assert(token_blocks(start, size) =~= seq![(0nat, size)]);
            assert(inner =~= Seq::<(nat, nat)>::empty());
        }
        assert(token_blocks(end, size) =~= token_blocks(start, size).push((start, end)));
    }
}

/// Splits text into chunks of at most `chunk_size` tokens.
pub struct TokenTextSplitter {
    /// Maximum tokens per chunk.
    pub chunk_size: usize,
    /// Overlap in tokens between consecutive chunks.
    pub chunk_overlap: usize,
    /// The token encoder to use.
    pub encoder: Box<dyn TokenEncoder>,
}

impl TokenTextSplitter {
    /// Creates a splitter that uses the Cl100K encoder.
    pub fn new(chunk_size: usize, chunk_overlap: usize) -> (res: Self)
        ensures
            res.chunk_size == chunk_size,
            res.chunk_overlap == chunk_overlap,
            forall|t: Seq<char>| #[trigger] res.encoder.encoding(t) == Ok::<Seq<u32>, ChainError>(cl100k_tokens(t)),
            forall|b: Seq<u32>| #[trigger] res.encoder.decoding(b) == Ok::<Seq<char>, ChainError>(
                lossy_utf8(cl100k_kept_bytes(b)),
            ),
    {
        TokenTextSplitter { chunk_size, chunk_overlap, encoder: Box::new(Cl100KEncoder) }
    }

    /// Creates a splitter with a custom encoder.
    pub fn with_encoder(encoder: Box<dyn TokenEncoder>, chunk_size: usize, chunk_overlap: usize) -> (res: Self)
        ensures
            res.chunk_size == chunk_size,
            res.chunk_overlap == chunk_overlap,
    {
        TokenTextSplitter { chunk_size, chunk_overlap, encoder }
    }

    /// Encodes `text`, cuts the tokens into consecutive blocks of
    /// `chunk_size` (see [`chunk_tokens`]) and decodes each block. When
    /// the text encodes to no token there is no chunk, whatever the sizes.
    /// Otherwise the window only advances with a positive size and no
    /// overlap: with an overlap, or a size of 0, it would revisit a window
    /// forever. Encoder errors are returned as they come.
    pub fn split_text(&self, text: &str) -> (res: Result<Vec<String>, ChainError>)
        requires
            self.encoder.encoding(text@) matches Ok(t) && t.len() > 0 ==> self.chunk_size > 0 && self.chunk_overlap == 0,
        ensures
            self.encoder.encoding(text@) matches Err(e) ==> res == Err::<Vec<String>, ChainError>(e),
            self.encoder.encoding(text@) matches Ok(t) ==> {
                let blocks = token_chunks(t, self.chunk_size as nat);
                match res {
                    Ok(out) => out@.len() == blocks.len() && forall|i: int| 0 <= i < blocks.len()
                        ==> self.encoder.decoding(#[trigger] blocks[i]) == Ok::<Seq<char>, ChainError>(out@[i]@),
                    Err(e) => exists|i: int| 0 <= i < blocks.len()
                        && self.encoder.decoding(#[trigger] blocks[i]) == Err::<Seq<char>, ChainError>(e)
                        && forall|j: int| 0 <= j < i ==> self.encoder.decoding(#[trigger] blocks[j]) is Ok,
                }
            },
    {
        let tokens = match self.encoder.encode(text) {
            Ok(t) => t,
            Err(e) => {
                return Err(e);
            },
        };
        if tokens.len() == 0 {
            assert(token_chunks(tokens@, self.chunk_size as nat) =~= Seq::<Seq<u32>>::empty());
            return Ok(Vec::new());
        }
        let blocks = chunk_tokens(&tokens, self.chunk_size);
        let ghost bs = token_chunks(tokens@, self.chunk_size as nat);
        assert(blocks@.len() == bs.len());
        let mut out: Vec<String> = Vec::new();
        let mut i: usize = 0;
        while i < blocks.len()
            invariant
                i <= blocks@.len(),
                blocks@.map_values(|v: Vec<u32>| v@) == bs,
                blocks@.len() == bs.len(),
                bs == token_chunks(tokens@, self.chunk_size as nat),
                self.encoder.encoding(text@) == Ok::<Seq<u32>, ChainError>(tokens@),
                out@.len() == i,
                forall|k: int| 0 <= k < i ==> self.encoder.decoding(#[trigger] bs[k]) == Ok::<Seq<char>, ChainError>(out@[k]@),
            decreases blocks@.len() - i,
        {
            assert(blocks@[i as int]@ == bs[i as int]);
            match self.encoder.decode(blocks[i].as_slice()) {
                Ok(s) => out.push(s),
                Err(e) => {
                    assert(forall|j: int| 0 <= j < i ==> self.encoder.decoding(#[trigger] bs[j]) is Ok);
                    assert(self.encoder.decoding(bs[i as int]) == Err::<Seq<char>, ChainError>(e));
                    return Err(e);
                },
            }
            i += 1;
        }
        Ok(out)
    }
}

/// A chunk either fits in `size` bytes or is one of `pieces`.
pub open spec fn fits_or_piece(c: Seq<char>, pieces: Seq<Seq<char>>, size: int) -> bool {
    blen(c) <= size || pieces.contains(c)
}

/// Every closed chunk of the separator merge is non-empty and fits or is a
/// piece; so is the open chunk.
proof fn lemma_char_fold_fits(splits: Seq<Seq<char>>, pieces: Seq<Seq<char>>, sep: Seq<char>, size: int)
    requires
        0 <= size,
        forall|i: int| 0 <= i < splits.len() ==> pieces.contains(#[trigger] splits[i]),
    ensures
        forall|k: int| 0 <= k < char_fold(splits, sep, size).0.len() ==> (#[trigger] char_fold(splits, sep, size).0[k]).len() > 0
            && fits_or_piece(char_fold(splits, sep, size).0[k], pieces, size),
        fits_or_piece(char_fold(splits, sep, size).1, pieces, size),
    decreases splits.len(),
{
    if splits.len() == 0 {
        assert(blen(Seq::<char>::empty()) == 0) by {
            crate::text::lemma_blen_empty();
        }
    } else {
        let init = splits.drop_last();
        let split = splits.last();
        assert forall|i: int| 0 <= i < init.len() implies pieces.contains(#[trigger] init[i]) by {
            assert(init[i] == splits[i]);
        }
        lemma_char_fold_fits(init, pieces, sep, size);
        assert(pieces.contains(splits[splits.len() - 1]));
        assert(split == splits[splits.len() - 1]);
        let st = char_fold(init, sep, size);
        let cur = st.1;
        if blen(cur) + blen(split) + blen(sep) <= size {
            if cur.len() > 0 {
                lemma_blen_concat(cur, sep);
                lemma_blen_concat(cur + sep, split);
                assert(blen(cur + sep + split) <= size);
            } else {
                assert(blen(split) <= size);
            }
        } else {
            assert(fits_or_piece(split, pieces, size));
            if cur.len() > 0 {
                let c2 = st.0.push(cur);
                assert forall|k: int| 0 <= k < c2.len() implies (#[trigger] c2[k]).len() > 0 && fits_or_piece(c2[k], pieces, size) by {
                    if k < st.0.len() {
                        assert(c2[k] == st.0[k]);
                    }
                }
            }
        }
    }
}

/// Every chunk a [`CharacterTextSplitter`] produces is non-empty, and is
/// within `chunk_size` bytes unless it is a single piece of the text (a
/// piece that is longer than `chunk_size` by itself).
pub proof fn law_character_chunks_fit(text: Seq<char>, sep: Seq<char>, size: int)
    requires
        0 <= size,
    ensures
        forall|k: int| 0 <= k < character_split(text, sep, size).len() ==> (#[trigger] character_split(text, sep, size)[k]).len() > 0
            && fits_or_piece(character_split(text, sep, size)[k], split_std(text, sep), size),
{
    let pieces = split_std(text, sep);
    assert forall|i: int| 0 <= i < pieces.len() implies pieces.contains(#[trigger] pieces[i]) by {}
    lemma_char_fold_fits(pieces, pieces, sep, size);
    let st = char_fold(pieces, sep, size);
    let out = character_split(text, sep, size);
    if st.1.len() > 0 {
        assert forall|k: int| 0 <= k < out.len() implies (#[trigger] out[k]).len() > 0 && fits_or_piece(out[k], pieces, size) by {
            if k < st.0.len() {
                assert(out[k] == st.0[k]);
            }
        }
    }
}

/// The blocks of `n` items are non-empty, at most `size` long, and
/// consecutive from 0 to `n`.
proof fn lemma_blocks_shape(n: nat, size: nat)
    requires
        size > 0,
    ensures
        forall|k: int| 0 <= k < token_blocks(n, size).len() ==> {
            let b = #[trigger] token_blocks(n, size)[k];
            &&& b.0 < b.1 <= n
            &&& b.1 - b.0 <= size
        },
        n > 0 ==> token_blocks(n, size).len() > 0 && token_blocks(n, size)[0].0 == 0 && token_blocks(n, size).last().1 == n,
        forall|k: int| 0 <= k < token_blocks(n, size).len() - 1 ==> (#[trigger] token_blocks(n, size)[k]).1 == token_blocks(n, size)[k + 1].0,
    decreases n,
{
    if n > size {
        let m = (n - size) as nat;
        lemma_blocks_shape(m, size);
        let inner = token_blocks(m, size);
        let f = |b: (nat, nat)| ((b.0 + size) as nat, (b.1 + size) as nat);
        let shifted = inner.map_values(f);
        let all = shifted.insert(0, (0nat, size));
        assert(token_blocks(n, size) == all);
        assert forall|k: int| 0 <= k < all.len() implies {
            let b = #[trigger] all[k];
            &&& b.0 < b.1 <= n
            &&& b.1 - b.0 <= size
        } by {
            if k > 0 {
                assert(all[k] == shifted[k - 1]);
                assert(shifted[k - 1] == f(inner[k - 1]));
            }
        }
        assert forall|k: int| 0 <= k < all.len() - 1 implies (#[trigger] all[k]).1 == all[k + 1].0 by {
            if k > 0 {
                assert(all[k] == f(inner[k - 1]));
                assert(all[k + 1] == f(inner[k]));
            } else {
                assert(all[1] == f(inner[0]));
            }
        }
        assert(all.last() == f(inner.last()));
    }
}

/// The concatenation of a list of token lists.
pub open spec fn concat_all(cs: Seq<Seq<u32>>) -> Seq<u32>
    decreases cs.len(),
{
    if cs.len() == 0 {
        Seq::empty()
    } else {
        concat_all(cs.drop_last()) + cs.last()
    }
}

/// The blocks are consecutive, each non-empty and at most `size` long,
/// from 0 to `n`.
pub open spec fn blocks_well_shaped(bs: Seq<(nat, nat)>, n: nat, size: nat) -> bool {
    &&& forall|k: int| 0 <= k < bs.len() ==> {
        let b = #[trigger] bs[k];
        &&& b.0 < b.1 <= n
        &&& b.1 - b.0 <= size
    }
    &&& n > 0 ==> bs.len() > 0 && bs[0].0 == 0 && bs.last().1 == n
    &&& forall|k: int| 0 <= k < bs.len() - 1 ==> (#[trigger] bs[k]).1 == bs[k + 1].0
}

/// The token blocks of [`TokenTextSplitter`] cover the tokens exactly: in
/// order they concatenate to the tokens, and each holds between 1 and
/// `size` tokens.
pub proof fn law_token_chunks_cover(tokens: Seq<u32>, size: nat)
    requires
        size > 0,
    ensures
        forall|k: int| 0 <= k < token_chunks(tokens, size).len() ==> 0 < (#[trigger] token_chunks(tokens, size)[k]).len() <= size,
        concat_all(token_chunks(tokens, size)) == tokens,
{
    let n = tokens.len();
    lemma_blocks_shape(n, size);
    let bs = token_blocks(n, size);
    let cs = token_chunks(tokens, size);
    assert(blocks_well_shaped(bs, n, size));
    assert forall|k: int| 0 <= k < cs.len() implies 0 < (#[trigger] cs[k]).len() <= size by {
        assert(cs[k] == tokens.subrange(bs[k].0 as int, bs[k].1 as int));
    }
    lemma_chunks_concat(tokens, bs, cs, size, cs.len() as int);
    if n == 0 {
        assert(tokens =~= Seq::<u32>::empty());
    } else {
        assert(cs.take(cs.len() as int) =~= cs);
        assert(tokens.take(n as int) =~= tokens);
    }
}

/// The first `j` chunks concatenate to the tokens up to the end of block
/// `j - 1`.
proof fn lemma_chunks_concat(tokens: Seq<u32>, bs: Seq<(nat, nat)>, cs: Seq<Seq<u32>>, size: nat, j: int)
    requires
        blocks_well_shaped(bs, tokens.len(), size),
        cs.len() == bs.len(),
        forall|k: int| 0 <= k < cs.len() ==> #[trigger] cs[k] == tokens.subrange(bs[k].0 as int, bs[k].1 as int),
        0 <= j <= cs.len(),
    ensures
        concat_all(cs.take(j)) == tokens.take(if j == 0 { 0 } else { bs[j - 1].1 as int }),
    decreases j,
{
    if j == 0 {
        assert(cs.take(0) =~= Seq::<Seq<u32>>::empty());
        assert(tokens.take(0) =~= Seq::<u32>::empty());
    } else {
        lemma_chunks_concat(tokens, bs, cs, size, j - 1);
        assert(cs.take(j).drop_last() =~= cs.take(j - 1));
        assert(cs.take(j).last() == cs[j - 1]);
        let start: int = if j == 1 { 0 } else { bs[j - 2].1 as int };
        if j > 1 {
            assert(bs[j - 2].1 == bs[j - 1].0);
        }
        assert(start == bs[j - 1].0);
        assert(tokens.take(start) + tokens.subrange(start, bs[j - 1].1 as int) =~= tokens.take(bs[j - 1].1 as int));
    }
}


/// A text with no occurrence of the non-empty separator `sep` is one piece.
proof fn lemma_split_all_absent(text: Seq<char>, sep: Seq<char>)
    requires
        forall|k: int| !matches_at(text, sep, k),
    ensures
        split_all(text, sep) == seq![text],
{
    lemma_find_from(text, sep, 0);
    assert(text.subrange(0, text.len() as int) =~= text);
}

/// Separators are tried in order, none skipped: a text longer than the
/// chunk size that holds no occurrence of the first (non-empty) separator
/// is split exactly as the remaining separators split it.
pub proof fn law_recursive_split_tries_next_separator(text: Seq<char>, seps: Seq<Seq<char>>, size: int)
    requires
        seps.len() > 0,
        seps[0].len() > 0,
        forall|k: int| !matches_at(text, seps[0], k),
        0 <= size < blen(text),
    ensures
        rec_split(text, seps, size) == rec_split(text, seps.drop_first(), size),
{
    lemma_blen_bounds(text);
    lemma_split_all_absent(text, seps[0]);
    let splits = level_pieces(text, seps[0]);
    assert(splits == seq![text]);
    let rest = seps.drop_first();
    assert(rec_fold(splits, seps[0], rest, size, 0) == (Seq::<Seq<char>>::empty(), Seq::<char>::empty()));
    if rest.len() > 0 {
        assert(Seq::<Seq<char>>::empty() + rec_split(text, rest, size) =~= rec_split(text, rest, size));
        assert(rec_fold(splits, seps[0], rest, size, 1) == (rec_split(text, rest, size), Seq::<char>::empty()));
        assert(rec_split(text, seps, size) == flush(rec_fold(splits, seps[0], rest, size, 1)));
        assert(flush((rec_split(text, rest, size), Seq::<char>::empty())) == rec_split(text, rest, size));
    } else {
        assert(rec_fold(splits, seps[0], rest, size, 1) == (Seq::<Seq<char>>::empty(), text));
        assert(rec_split(text, rest, size) == seq![text]);
        assert(Seq::<Seq<char>>::empty().push(text) =~= seq![text]);
        assert(rec_split(text, seps, size) == flush(rec_fold(splits, seps[0], rest, size, 1)));
        assert(flush((Seq::<Seq<char>>::empty(), text)) == seq![text]);
    }
}

} // verus!
