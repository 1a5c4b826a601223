//! Model outputs: text and chat generations, batched results, run ids, and
//! streaming chunks that merge by concatenation.
//!
//! Provider metadata (`generation_info`, `llm_output`) is a
//! `serde_json::Value`; the library reads an object's members through
//! [`object_members`] and merges two metadata objects member by member.

use crate::messages::{BaseMessage, MessageType};
use crate::routing::{assign_entries, entries_map, keys_distinct};
use crate::text::IntoText;
use vstd::prelude::*;

verus! {

#[verifier::external_type_specification]
#[verifier::external_body]
pub struct ExUuid(uuid::Uuid);

/// Copies a JSON value with `serde_json::Value::clone`.
///
/// Claimed of the crate: the copy equals the original (a `Value` is plain
/// data without shared state).
#[verifier::external_body]
pub(crate) fn copy_value(v: &serde_json::Value) -> (r: serde_json::Value)
    ensures
        r == *v,
{
    v.clone()
}

/// The members of a JSON object by name; `None` for a value that is not an
/// object.
pub uninterp spec fn object_members(v: serde_json::Value) -> Option<Map<Seq<char>, serde_json::Value>>;

/// The members of `v`, when it is a JSON object (`serde_json::Value::Object`),
/// as name and value pairs copied out of its `serde_json::Map`.
///
/// Claimed of the crate: there are entries exactly when `v` is an object;
/// their names are distinct (a map holds each key once) and they are the
/// object's members.
#[verifier::external_body]
pub(crate) fn object_entries(v: &serde_json::Value) -> (r: Option<Vec<(String, serde_json::Value)>>)
    ensures
        r is Some <==> object_members(*v) is Some,
        r matches Some(es) ==> keys_distinct(es@) && object_members(*v) == Some(entries_map(es@)),
{
    match v {
        serde_json::Value::Object(m) => Some(m.iter().map(|(k, x)| (k.clone(), x.clone())).collect()),
        _ => None,
    }
}

/// The JSON object with the given members (`serde_json::Value::Object` of a
/// `serde_json::Map` collected from the pairs).
///
/// Claimed of the crate: the object's members are the pairs (their names
/// are distinct, so none replaces another).
#[verifier::external_body]
pub(crate) fn object_of(es: Vec<(String, serde_json::Value)>) -> (r: serde_json::Value)
    requires
        keys_distinct(es@),
    ensures
        object_members(r) == Some(entries_map(es@)),
{
    serde_json::Value::Object(es.into_iter().collect())
}

/// The result of merging metadata `source` into `target`: when both are
/// objects, the members of both with those of `source` replacing those of
/// `target` under the same name; otherwise `target` unchanged.
pub open spec fn json_merged(target: serde_json::Value, source: serde_json::Value, res: serde_json::Value) -> bool {
    match (object_members(target), object_members(source)) {
        (Some(t), Some(s)) => object_members(res) == Some(t.union_prefer_right(s)),
        _ => res == target,
    }
}

/// Merges the members of `source` into `target` when both are JSON objects
/// (see [`json_merged`]).
fn merge_json_objects(target: &mut serde_json::Value, source: &serde_json::Value)
    ensures
        json_merged(*old(target), *source, *final(target)),
{
    match object_entries(target) {
        Some(t) => match object_entries(source) {
            Some(s) => {
                let merged = assign_entries(t, &s);
                *target = object_of(merged);
            },
            None => {},
        },
        None => {},
    }
}

/// `v` is the object `{"token_usage": {}}`.
pub open spec fn is_empty_token_usage(v: serde_json::Value) -> bool {
    object_members(v) matches Some(m) && m.dom() == set!["token_usage"@]
        && object_members(m["token_usage"@]) == Some(Map::<Seq<char>, serde_json::Value>::empty())
}

/// The metadata a flattened result other than the first carries in place
/// of the provider's: the object `{"token_usage": {}}`.
fn empty_token_usage() -> (r: serde_json::Value)
    ensures
        is_empty_token_usage(r),
{
    let inner_entries: Vec<(String, serde_json::Value)> = Vec::new();
    assert(entries_map(inner_entries@) =~= Map::<Seq<char>, serde_json::Value>::empty());
    let inner = object_of(inner_entries);
    let mut outer: Vec<(String, serde_json::Value)> = Vec::new();
    outer.push((String::from_str("token_usage"), inner));
    proof {
        let m = entries_map(outer@);
        assert(outer@[0].0@ == "token_usage"@);
        assert(m.dom() =~= set!["token_usage"@]);
        assert(m["token_usage"@] == inner) by {
            let c = choose|i: int| 0 <= i < outer@.len() && outer@[i].0@ == "token_usage"@;
            assert(c == 0);
        }
    }
    object_of(outer)
}

/// A fresh random (version 4) id from `uuid::Uuid::new_v4`.
///
/// Claimed of the crate: nothing; the id is random.
#[verifier::external_body]
fn new_run_id() -> uuid::Uuid {
    uuid::Uuid::new_v4()
}

/// Copies optional metadata.
fn copy_info(v: &Option<serde_json::Value>) -> (r: Option<serde_json::Value>)
    ensures
        r == *v,
{
    match v {
        Some(x) => Some(copy_value(x)),
        None => None,
    }
}

/// A single text generation of a model, with optional provider metadata.
#[derive(Debug, Clone)]
pub struct Generation {
    /// The generated text.
    pub text: String,
    /// Provider metadata, such as the finish reason.
    pub generation_info: Option<serde_json::Value>,
}

impl Generation {
    /// A generation of `text` without metadata.
    pub fn new<S: IntoText>(text: S) -> (res: Self)
        ensures
            res.text@ == text.text_view(),
            res.generation_info is None,
    {
        Generation { text: text.into_text(), generation_info: None }
    }

    /// The generation with its metadata set.
    pub fn with_generation_info(self, info: serde_json::Value) -> (res: Self)
        ensures
            res.text == self.text,
            res.generation_info == Some(info),
    {
        Generation { generation_info: Some(info), ..self }
    }

    /// A copy of the generation.
    fn copy(&self) -> (res: Self)
        ensures
            res.text@ == self.text@,
            res.generation_info == self.generation_info,
    {
        Generation { text: self.text.clone(), generation_info: copy_info(&self.generation_info) }
    }
}

/// A single chat generation: the message the model produced, its text and
/// optional provider metadata.
#[derive(Debug, Clone)]
pub struct ChatGeneration {
    /// The message produced.
    pub message: BaseMessage,
    /// Provider metadata.
    pub generation_info: Option<serde_json::Value>,
    /// The message's content.
    pub text: String,
}

impl ChatGeneration {
    /// A chat generation of `message`; its text is the message's content.
    pub fn new(message: BaseMessage) -> (res: Self)
        ensures
            res.message == message,
            res.text@ == message.content@,
            res.generation_info is None,
    {
        let text = message.content.clone();
        ChatGeneration { message, generation_info: None, text }
    }

    /// The chat generation with its metadata set.
    pub fn with_generation_info(self, info: serde_json::Value) -> (res: Self)
        ensures
            res.message == self.message,
            res.text == self.text,
            res.generation_info == Some(info),
    {
        ChatGeneration { generation_info: Some(info), ..self }
    }
}

/// The id of one model or chain run.
#[derive(Debug, Clone, Copy)]
pub struct RunInfo {
    /// The run's unique id.
    pub run_id: uuid::Uuid,
}

impl RunInfo {
    /// Run information with a fresh random id.
    pub fn new() -> (res: Self) {
        RunInfo { run_id: new_run_id() }
    }

    /// Run information with the given id.
    pub fn with_run_id(run_id: uuid::Uuid) -> (res: Self)
        ensures
            res.run_id == run_id,
    {
        RunInfo { run_id }
    }

    /// Run information with a fresh random id.
    pub fn default() -> (res: Self) {
        RunInfo::new()
    }
}

/// The output of a text model call: candidate generations per prompt, with
/// optional provider metadata and per-prompt run information.
#[derive(Debug, Clone)]
pub struct LLMResult {
    /// Generations, by prompt, then by candidate.
    pub generations: Vec<Vec<Generation>>,
    /// Provider metadata, such as token usage.
    pub llm_output: Option<serde_json::Value>,
    /// Run information per prompt.
    pub run: Option<Vec<RunInfo>>,
}

/// Copies a list of generations.
fn copy_generations(v: &Vec<Generation>) -> (res: Vec<Generation>)
    ensures
        res@.len() == v@.len(),
        forall|i: int| 0 <= i < v@.len() ==> (#[trigger] res@[i]).text@ == v@[i].text@ && res@[i].generation_info == v@[i].generation_info,
{
    let mut res: Vec<Generation> = Vec::new();
    let mut i: usize = 0;
    while i < v.len()
        invariant
            i <= v@.len(),
            res@.len() == i,
            forall|j: int| 0 <= j < i ==> (#[trigger] res@[j]).text@ == v@[j].text@ && res@[j].generation_info == v@[j].generation_info,
        decreases v@.len() - i,
    {
        res.push(v[i].copy());
        i += 1;
    }
    res
}

impl LLMResult {
    /// A result holding `generations`, without metadata or run information.
    pub fn new(generations: Vec<Vec<Generation>>) -> (res: Self)
        ensures
            res.generations == generations,
            res.llm_output is None,
            res.run is None,
    {
        LLMResult { generations, llm_output: None, run: None }
    }

    /// The result with its provider metadata set.
    pub fn with_llm_output(self, output: serde_json::Value) -> (res: Self)
        ensures
            res.generations == self.generations,
            res.llm_output == Some(output),
            res.run == self.run,
    {
        LLMResult { llm_output: Some(output), ..self }
    }

    /// The result with its run information set.
    pub fn with_run(self, run: Vec<RunInfo>) -> (res: Self)
        ensures
            res.generations == self.generations,
            res.llm_output == self.llm_output,
            res.run == Some(run),
    {
        LLMResult { run: Some(run), ..self }
    }

    /// One result per prompt, each holding that prompt's generations. The
    /// first keeps the provider metadata; the others, when there is
    /// metadata, carry `{"token_usage": {}}` instead, so that token usage is
    /// counted once. None carries run information.
    pub fn flatten(&self) -> (res: Vec<LLMResult>)
        ensures
            res@.len() == self.generations@.len(),
            forall|i: int|
                0 <= i < res@.len() ==> {
                    &&& (#[trigger] res@[i]).generations@.len() == 1
                    &&& res@[i].generations@[0]@.len() == self.generations@[i]@.len()
                    &&& forall|j: int|
                        0 <= j < self.generations@[i]@.len() ==> (#[trigger] res@[i].generations@[0]@[j]).text@
                            == self.generations@[i]@[j].text@ && res@[i].generations@[0]@[j].generation_info
                            == self.generations@[i]@[j].generation_info
                    &&& res@[i].run is None
                    &&& (res@[i].llm_output is Some <==> self.llm_output is Some)
                    &&& i == 0 ==> res@[i].llm_output == self.llm_output
                    &&& i > 0 ==> (res@[i].llm_output matches Some(v) ==> is_empty_token_usage(v))
                },
    {
        let mut res: Vec<LLMResult> = Vec::new();
        let mut i: usize = 0;
        while i < self.generations.len()
            invariant
                i <= self.generations@.len(),
                res@.len() == i,
                forall|k: int|
                    0 <= k < i ==> {
                        &&& (#[trigger] res@[k]).generations@.len() == 1
                        &&& res@[k].generations@[0]@.len() == self.generations@[k]@.len()
                        &&& forall|j: int|
                            0 <= j < self.generations@[k]@.len() ==> (#[trigger] res@[k].generations@[0]@[j]).text@
                                == self.generations@[k]@[j].text@ && res@[k].generations@[0]@[j].generation_info
                                == self.generations@[k]@[j].generation_info
                        &&& res@[k].run is None
                        &&& (res@[k].llm_output is Some <==> self.llm_output is Some)
                        &&& k == 0 ==> res@[k].llm_output == self.llm_output
                        &&& k > 0 ==> (res@[k].llm_output matches Some(v) ==> is_empty_token_usage(v))
                    },
            decreases self.generations@.len() - i,
        {
            let llm_output = if i == 0 {
                copy_info(&self.llm_output)
            } else {
                match &self.llm_output {
                    Some(_) => Some(empty_token_usage()),
                    None => None,
                }
            };
            let gens = copy_generations(&self.generations[i]);
            let mut one: Vec<Vec<Generation>> = Vec::new();
            one.push(gens);
            res.push(LLMResult { generations: one, llm_output, run: None });
            i += 1;
        }
        res
    }
}

/// The output of a chat model call: candidate chat generations and optional
/// provider metadata.
#[derive(Debug, Clone)]
pub struct ChatResult {
    /// Candidate chat generations.
    pub generations: Vec<Vec<ChatGeneration>>,
    /// Provider metadata.
    pub llm_output: Option<serde_json::Value>,
}

impl ChatResult {
    /// A result holding `generations`, without metadata.
    pub fn new(generations: Vec<Vec<ChatGeneration>>) -> (res: Self)
        ensures
            res.generations == generations,
            res.llm_output is None,
    {
        ChatResult { generations, llm_output: None }
    }

    /// The result with its provider metadata set.
    pub fn with_llm_output(self, output: serde_json::Value) -> (res: Self)
        ensures
            res.generations == self.generations,
            res.llm_output == Some(output),
    {
        ChatResult { llm_output: Some(output), ..self }
    }
}

/// What merging metadata gives: `other`'s when this has none, this one's
/// when `other` has none; with both present, the two merged member by
/// member (see [`json_merged`]).
pub open spec fn merged_info(mine: Option<serde_json::Value>, other: Option<serde_json::Value>, res: Option<serde_json::Value>) -> bool {
    match (mine, other) {
        (_, None) => res == mine,
        (None, Some(o)) => res == Some(o),
        (Some(m), Some(o)) => res matches Some(r) && json_merged(m, o, r),
    }
}

/// Merges metadata in place (see [`merged_info`]).
fn merge_info(mine: &mut Option<serde_json::Value>, other: &Option<serde_json::Value>)
    ensures
        merged_info(*old(mine), *other, *final(mine)),
{
    if let Some(o) = other {
        match mine {
            Some(m) => {
                merge_json_objects(m, o);
            },
            None => {
                *mine = Some(copy_value(o));
            },
        }
    }
}

/// A streamed piece of a text generation.
#[derive(Debug, Clone)]
pub struct GenerationChunk {
    /// The text fragment.
    pub text: String,
    /// Metadata attached to the fragment.
    pub generation_info: Option<serde_json::Value>,
}

impl GenerationChunk {
    /// A chunk of `text` without metadata.
    pub fn new<S: IntoText>(text: S) -> (res: Self)
        ensures
            res.text@ == text.text_view(),
            res.generation_info is None,
    {
        GenerationChunk { text: text.into_text(), generation_info: None }
    }

    /// The chunk with its metadata set.
    pub fn with_generation_info(self, info: serde_json::Value) -> (res: Self)
        ensures
            res.text == self.text,
            res.generation_info == Some(info),
    {
        GenerationChunk { generation_info: Some(info), ..self }
    }

    /// Appends `other`: the texts are concatenated and the metadata merged
    /// (see [`merged_info`]).
    pub fn merge(&mut self, other: &GenerationChunk)
        ensures
            final(self).text@ == old(self).text@ + other.text@,
            merged_info(old(self).generation_info, other.generation_info, final(self).generation_info),
    {
        self.text.append(other.text.as_str());
        merge_info(&mut self.generation_info, &other.generation_info);
    }

    /// The concatenation of two chunks (see [`GenerationChunk::merge`]).
    pub fn add(self, rhs: GenerationChunk) -> (res: GenerationChunk)
        ensures
            res.text@ == self.text@ + rhs.text@,
            merged_info(self.generation_info, rhs.generation_info, res.generation_info),
    {
        let mut result = self;
        result.merge(&rhs);
        result
    }
}

/// A streamed piece of a chat generation: a partial message, its text and
/// metadata.
#[derive(Debug, Clone)]
pub struct ChatGenerationChunk {
    /// The partial message.
    pub message: BaseMessage,
    /// Metadata attached to the piece.
    pub generation_info: Option<serde_json::Value>,
    /// The text of the piece.
    pub text: String,
}

impl ChatGenerationChunk {
    /// A chunk of `message`; its text is the message's content.
    pub fn new(message: BaseMessage) -> (res: Self)
        ensures
            res.message == message,
            res.text@ == message.content@,
            res.generation_info is None,
    {
        let text = message.content.clone();
        ChatGenerationChunk { message, generation_info: None, text }
    }

    /// A chunk of `text` in a message of the given role.
    pub fn from_text<S: IntoText>(text: S, message_type: MessageType) -> (res: Self)
        ensures
            res.text@ == text.text_view(),
            res.message.content@ == text.text_view(),
            res.message.message_type == message_type,
            res.generation_info is None,
    {
        let content = text.into_text();
        let message = BaseMessage::new(content.as_str(), message_type);
        ChatGenerationChunk { message, generation_info: None, text: content }
    }

    /// The chunk with its metadata set.
    pub fn with_generation_info(self, info: serde_json::Value) -> (res: Self)
        ensures
            res.message == self.message,
            res.text == self.text,
            res.generation_info == Some(info),
    {
        ChatGenerationChunk { generation_info: Some(info), ..self }
    }

    /// Appends `other`: message contents and texts are concatenated, the
    /// role kept, and the metadata merged (see [`merged_info`]).
    pub fn merge(&mut self, other: &ChatGenerationChunk)
        ensures
            final(self).message.content@ == old(self).message.content@ + other.message.content@,
            final(self).message.message_type == old(self).message.message_type,
            final(self).text@ == old(self).text@ + other.text@,
            merged_info(old(self).generation_info, other.generation_info, final(self).generation_info),
    {
        self.message.content.append(other.message.content.as_str());
        self.text.append(other.text.as_str());
        merge_info(&mut self.generation_info, &other.generation_info);
    }

    /// The concatenation of two chunks (see [`ChatGenerationChunk::merge`]).
    pub fn add(self, rhs: ChatGenerationChunk) -> (res: ChatGenerationChunk)
        ensures
            res.message.content@ == self.message.content@ + rhs.message.content@,
            res.message.message_type == self.message.message_type,
            res.text@ == self.text@ + rhs.text@,
            merged_info(self.generation_info, rhs.generation_info, res.generation_info),
    {
        let mut result = self;
        result.merge(&rhs);
        result
    }

    /// A copy of the chunk.
    fn copy(&self) -> (res: Self)
        ensures
            res.message.content@ == self.message.content@,
            res.message.message_type == self.message.message_type,
            res.text@ == self.text@,
            res.generation_info == self.generation_info,
    {
        ChatGenerationChunk {
            message: BaseMessage { content: self.message.content.clone(), message_type: self.message.message_type },
            generation_info: copy_info(&self.generation_info),
            text: self.text.clone(),
        }
    }
}

/// The texts of chunks run together.
pub open spec fn chunk_texts(chunks: Seq<ChatGenerationChunk>) -> Seq<char>
    decreases chunks.len(),
{
    if chunks.len() == 0 {
        Seq::empty()
    } else {
        chunk_texts(chunks.drop_last()) + chunks.last().text@
    }
}

/// The message contents of chunks run together.
pub open spec fn chunk_contents(chunks: Seq<ChatGenerationChunk>) -> Seq<char>
    decreases chunks.len(),
{
    if chunks.len() == 0 {
        Seq::empty()
    } else {
        chunk_contents(chunks.drop_last()) + chunks.last().message.content@
    }
}

/// Merges chunks in order into one; `None` for no chunks. The result has
/// the first chunk's role, the concatenated texts and contents, and
/// metadata exactly when some chunk has metadata (the only chunk's, when
/// exactly one has).
pub fn merge_chat_generation_chunks(chunks: &[ChatGenerationChunk]) -> (res: Option<ChatGenerationChunk>)
    ensures
        chunks@.len() == 0 <==> res is None,
        res matches Some(c) ==> {
            &&& c.text@ == chunk_texts(chunks@)
            &&& c.message.content@ == chunk_contents(chunks@)
            &&& c.message.message_type == chunks@[0].message.message_type
            &&& (c.generation_info is Some <==> exists|i: int| 0 <= i < chunks@.len() && (#[trigger] chunks@[i]).generation_info is Some)
        },
{
    if chunks.len() == 0 {
        return None;
    }
    let mut result = chunks[0].copy();
    proof {
        assert(chunks@.take(1).drop_last() =~= Seq::<ChatGenerationChunk>::empty());
        assert(chunks@.take(1).last() == chunks@[0]);
        assert(chunk_texts(chunks@.take(1).drop_last()) == Seq::<char>::empty());
        assert(chunk_contents(chunks@.take(1).drop_last()) == Seq::<char>::empty());
        assert(chunk_texts(chunks@.take(1)) =~= chunks@[0].text@);
        assert(chunk_contents(chunks@.take(1)) =~= chunks@[0].message.content@);
    }
    let mut i: usize = 1;
    while i < chunks.len()
        invariant
            1 <= i <= chunks@.len(),
            result.text@ == chunk_texts(chunks@.take(i as int)),
            result.message.content@ == chunk_contents(chunks@.take(i as int)),
            result.message.message_type == chunks@[0].message.message_type,
            result.generation_info is Some <==> exists|k: int| 0 <= k < i && (#[trigger] chunks@[k]).generation_info is Some,
        decreases chunks@.len() - i,
    {
        result.merge(&chunks[i]);
        proof {
            assert(chunks@.take(i + 1).drop_last() =~= chunks@.take(i as int));
            assert(chunks@.take(i + 1).last() == chunks@[i as int]);
        }
        i += 1;
    }
    assert(chunks@.take(chunks@.len() as int) =~= chunks@);
    Some(result)
}

} // verus!
