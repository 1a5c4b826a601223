//! Document compressors.

use crate::errors::ChainError;
use crate::messages::BaseMessage;
use crate::prompt::{chat_format, empty_map, map_insert, messages_result, ChatPromptTemplate, MessageTemplate};
use crate::text::{find_chars_from, find_from, lemma_find_from, str_chars, trim, trim_chars};
use vstd::prelude::*;

verus! {

/// A compressor that returns documents unchanged.
#[derive(Debug, Clone)]
pub struct NoopDocumentCompressor;

impl NoopDocumentCompressor {
    /// Creates a new `NoopDocumentCompressor`.
    pub fn new() -> (res: Self) {
        NoopDocumentCompressor
    }
}

/// The system instruction of the default extraction prompt.
pub open spec fn extractor_system() -> Seq<char> {
    "You are an expert at extracting relevant information from documents."@
}

/// The human template of the default extraction prompt.
pub open spec fn extractor_human() -> Seq<char> {
    "Given the question: {query}\n\nExtract from the following document any text relevant to answering the question:\n\n{document}"@
}

/// The default prompt for extracting relevant text from a document: a
/// system instruction and a human template over `{query}` and `{document}`.
pub fn default_extractor_prompt() -> (res: ChatPromptTemplate)
    ensures
        res.messages@.len() == 2,
        res.messages@[0] matches MessageTemplate::System(t) && t@ == extractor_system(),
        res.messages@[1] matches MessageTemplate::Human(t) && t@ == extractor_human(),
{
    let p = ChatPromptTemplate::new()
        .add_system("You are an expert at extracting relevant information from documents.")
        .add_human("Given the question: {query}\n\nExtract from the following document any text relevant to answering the question:\n\n{document}");
    assert(p.messages@[0] == p.messages@.drop_last()[0]);
    p
}

/// The system instruction of the default relevance-filter prompt.
pub open spec fn filter_system() -> Seq<char> {
    "You are an expert at determining document relevance."@
}

/// The human template of the default relevance-filter prompt.
pub open spec fn filter_human() -> Seq<char> {
    "Determine if the following document is relevant to the question: {query}\n\nDocument: {document}\n\nAnswer with exactly 'YES' or 'NO':"@
}

/// The default prompt for deciding whether a document is relevant: a system
/// instruction and a human template over `{query}` and `{document}` asking
/// for `YES` or `NO`.
pub fn default_filter_prompt() -> (res: ChatPromptTemplate)
    ensures
        res.messages@.len() == 2,
        res.messages@[0] matches MessageTemplate::System(t) && t@ == filter_system(),
        res.messages@[1] matches MessageTemplate::Human(t) && t@ == filter_human(),
{
    let p = ChatPromptTemplate::new()
        .add_system("You are an expert at determining document relevance.")
        .add_human("Determine if the following document is relevant to the question: {query}\n\nDocument: {document}\n\nAnswer with exactly 'YES' or 'NO':");
    assert(p.messages@[0] == p.messages@.drop_last()[0]);
    p
}

/// The prompt arguments for compressing one document: `query` and
/// `document`.
pub open spec fn compression_args(query: Seq<char>, document: Seq<char>) -> Map<Seq<char>, Seq<char>> {
    Map::<Seq<char>, Seq<char>>::empty().insert("query"@, query).insert("document"@, document)
}

/// The messages sent to the model for one document: the prompt formatted
/// with the query and the document's content.
pub fn compression_messages(prompt: &ChatPromptTemplate, query: &str, document: &str) -> (res: Result<Vec<BaseMessage>, ChainError>)
    ensures
        messages_result(res, chat_format(prompt.messages@, compression_args(query@, document@))),
{
    let mut kw = empty_map();
    map_insert(&mut kw, String::from_str("query"), query.to_owned());
    map_insert(&mut kw, String::from_str("document"), document.to_owned());
    proof {
        assert(crate::prompt::string_map_view(kw) =~= compression_args(query@, document@));
    }
    prompt.format_prompt(&kw)
}

/// The text of a model reply: the last generation of the first prompt's
/// generations, or empty when there is none.
pub open spec fn reply_text(generations: Seq<Seq<String>>) -> Seq<char> {
    if generations.len() > 0 && generations[0].len() > 0 {
        generations[0].last()@
    } else {
        Seq::empty()
    }
}

/// Picks the reply text out of the generations.
pub fn first_reply_text(generations: &Vec<Vec<String>>) -> (res: String)
    ensures
        res@ == reply_text(deep_strings(generations@)),
{
    if generations.len() > 0 && generations[0].len() > 0 {
        let first = &generations[0];
        first[first.len() - 1].clone()
    } else {
        String::new()
    }
}

/// The string lists of a list of string vectors.
pub open spec fn deep_strings(v: Seq<Vec<String>>) -> Seq<Seq<String>> {
    v.map_values(|x: Vec<String>| x@)
}

/// What an extracting compressor keeps of a document given the model's
/// reply: nothing when the reply is blank, otherwise the reply replaces
/// the document's content.
pub fn extracted_content(reply: &str) -> (res: Option<String>)
    ensures
        trim(reply@).len() == 0 <==> res is None,
        res matches Some(s) ==> s@ == reply@,
{
    let cs = str_chars(reply);
    let t = trim_chars(cs.as_slice());
    if t.len() == 0 {
        None
    } else {
        Some(reply.to_owned())
    }
}

/// The upper-case form of a text (`str::to_uppercase`).
pub uninterp spec fn upper_text(s: Seq<char>) -> Seq<char>;

/// Upper-cases a text with `str::to_uppercase`.
///
/// Claimed of std: the result depends only on the text (named
/// `upper_text`); Unicode's case mappings are not modelled.
#[verifier::external_body]
fn to_upper(s: &str) -> (res: String)
    ensures
        res@ == upper_text(s@),
{
    s.to_uppercase()
}

/// Whether the filter's reply says the document is relevant: its trimmed,
/// upper-cased text contains `YES`.
pub fn reply_says_relevant(reply: &str) -> (res: bool)
    ensures
        res == (find_from(upper_text(trim(reply@)), "YES"@, 0) is Some),
{
    let cs = str_chars(reply);
    let t = trim_chars(cs.as_slice());
    let ts = crate::text::string_from_chars(t.as_slice());
    let up = to_upper(ts.as_str());
    let uc = str_chars(up.as_str());
    let yes = str_chars("YES");
    let found = find_chars_from(uc.as_slice(), yes.as_slice(), 0);
    found.is_some()
}

} // verus!
