//! Language model values: the unified prompt value, model capability
//! profiles, and the response logic of the fake list models used in tests.
//!
//! The model traits themselves are asynchronous and live with the
//! application; what the fake models decide (which response comes next) is
//! here.

use crate::errors::ChainError;
use crate::messages::{messages_text, render_messages, BaseMessage, MessageType};
use crate::schemas::{ChatGeneration, ChatResult, Generation, LLMResult, MessageChunk};
use crate::text::{is_whitespace, is_ws, str_chars, string_from_chars};
use std::collections::HashMap;
use vstd::prelude::*;

verus! {

/// A prompt for a language model: plain text or a list of chat messages.
#[derive(Debug, Clone)]
pub enum PromptValue {
    /// A plain text prompt.
    Text(String),
    /// A list of chat messages.
    Messages(Vec<BaseMessage>),
}

/// The text of a prompt value: the text itself, or the messages one per
/// line as `Role: content`.
pub open spec fn prompt_text(p: PromptValue) -> Seq<char> {
    match p {
        PromptValue::Text(s) => s@,
        PromptValue::Messages(m) => messages_text(m@),
    }
}

/// The messages of a prompt value: a text prompt is one human message.
pub open spec fn prompt_messages(p: PromptValue) -> Seq<(Seq<char>, MessageType)> {
    match p {
        PromptValue::Text(s) => seq![(s@, MessageType::Human)],
        PromptValue::Messages(m) => m@.map_values(|x: BaseMessage| (x.content@, x.message_type)),
    }
}

impl PromptValue {
    /// Renders the prompt as a single string.
    pub fn to_string(&self) -> (res: String)
        ensures
            res@ == prompt_text(*self),
    {
        match self {
            PromptValue::Text(s) => s.clone(),
            PromptValue::Messages(msgs) => render_messages(msgs),
        }
    }

    /// The prompt as chat messages.
    pub fn to_messages(&self) -> (res: Vec<BaseMessage>)
        ensures
            res@.map_values(|x: BaseMessage| (x.content@, x.message_type)) == prompt_messages(*self),
    {
        match self {
            PromptValue::Text(s) => {
                let m = BaseMessage::new(s.as_str(), MessageType::Human);
                let v = vec![m];
                assert(v@.map_values(|x: BaseMessage| (x.content@, x.message_type)) =~= seq![(s@, MessageType::Human)]);
                v
            },
            PromptValue::Messages(msgs) => {
                let mut out: Vec<BaseMessage> = Vec::new();
                let mut i: usize = 0;
                while i < msgs.len()
                    invariant
                        i <= msgs@.len(),
                        out@.map_values(|x: BaseMessage| (x.content@, x.message_type)) =~= msgs@.take(
                            i as int,
                        ).map_values(|x: BaseMessage| (x.content@, x.message_type)),
                    decreases msgs@.len() - i,
                {
                    let m = BaseMessage::new(msgs[i].content.as_str(), msgs[i].message_type);
                    proof {
                        assert(msgs@.take(i + 1) =~= msgs@.take(i as int).push(msgs@[i as int]));
                        assert(out@.push(m).map_values(|x: BaseMessage| (x.content@, x.message_type)) =~= out@.map_values(
                            |x: BaseMessage| (x.content@, x.message_type),
                        ).push((m.content@, m.message_type)));
                    }
                    out.push(m);
                    i += 1;
                }
                assert(msgs@.take(msgs@.len() as int) =~= msgs@);
                out
            },
        }
    }
}

impl From<String> for PromptValue {
    fn from(s: String) -> (res: PromptValue) {
        PromptValue::Text(s)
    }
}

impl vstd::std_specs::convert::FromSpecImpl<String> for PromptValue {
    open spec fn obeys_from_spec() -> bool {
        true
    }

    open spec fn from_spec(s: String) -> PromptValue {
        PromptValue::Text(s)
    }
}

impl<'a> From<&'a str> for PromptValue {
    fn from(s: &'a str) -> (res: PromptValue) {
        PromptValue::Text(s.to_owned())
    }
}

impl<'a> vstd::std_specs::convert::FromSpecImpl<&'a str> for PromptValue {
    open spec fn obeys_from_spec() -> bool {
        false
    }

    open spec fn from_spec(s: &'a str) -> PromptValue {
        vstd::pervasive::arbitrary()
    }
}

impl From<Vec<BaseMessage>> for PromptValue {
    fn from(msgs: Vec<BaseMessage>) -> (res: PromptValue) {
        PromptValue::Messages(msgs)
    }
}

impl vstd::std_specs::convert::FromSpecImpl<Vec<BaseMessage>> for PromptValue {
    open spec fn obeys_from_spec() -> bool {
        true
    }

    open spec fn from_spec(msgs: Vec<BaseMessage>) -> PromptValue {
        PromptValue::Messages(msgs)
    }
}

/// What a model supports, as reported by its provider; every field is
/// optional.
#[derive(Debug, Clone)]
pub struct ModelProfile {
    /// Human-readable model name.
    pub name: Option<String>,
    /// Availability status (e.g. `"active"`, `"deprecated"`).
    pub status: Option<String>,
    /// Release date.
    pub release_date: Option<String>,
    /// Date of the last update.
    pub last_updated: Option<String>,
    /// Whether the weights are openly available.
    pub open_weights: Option<bool>,
    /// Maximum number of input tokens (the context window).
    pub max_input_tokens: Option<usize>,
    /// Accepts text input.
    pub text_inputs: Option<bool>,
    /// Accepts image input.
    pub image_inputs: Option<bool>,
    /// Accepts image URLs as input.
    pub image_url_inputs: Option<bool>,
    /// Accepts PDF input.
    pub pdf_inputs: Option<bool>,
    /// Accepts audio input.
    pub audio_inputs: Option<bool>,
    /// Accepts video input.
    pub video_inputs: Option<bool>,
    /// Accepts images in tool messages.
    pub image_tool_message: Option<bool>,
    /// Accepts PDFs in tool messages.
    pub pdf_tool_message: Option<bool>,
    /// Maximum number of output tokens.
    pub max_output_tokens: Option<usize>,
    /// Produces reasoning output.
    pub reasoning_output: Option<bool>,
    /// Produces text output.
    pub text_outputs: Option<bool>,
    /// Produces image output.
    pub image_outputs: Option<bool>,
    /// Produces audio output.
    pub audio_outputs: Option<bool>,
    /// Produces video output.
    pub video_outputs: Option<bool>,
    /// Supports tool calling.
    pub tool_calling: Option<bool>,
    /// Supports forcing a tool choice.
    pub tool_choice: Option<bool>,
    /// Supports structured output.
    pub structured_output: Option<bool>,
    /// Supports attachments.
    pub attachment: Option<bool>,
    /// Supports a temperature setting.
    pub temperature: Option<bool>,
}

/// Every field of the profile is unset.
pub open spec fn profile_is_empty(p: ModelProfile) -> bool {
    &&& p.name is None
    &&& p.status is None
    &&& p.release_date is None
    &&& p.last_updated is None
    &&& p.open_weights is None
    &&& p.max_input_tokens is None
    &&& p.text_inputs is None
    &&& p.image_inputs is None
    &&& p.image_url_inputs is None
    &&& p.pdf_inputs is None
    &&& p.audio_inputs is None
    &&& p.video_inputs is None
    &&& p.image_tool_message is None
    &&& p.pdf_tool_message is None
    &&& p.max_output_tokens is None
    &&& p.reasoning_output is None
    &&& p.text_outputs is None
    &&& p.image_outputs is None
    &&& p.audio_outputs is None
    &&& p.video_outputs is None
    &&& p.tool_calling is None
    &&& p.tool_choice is None
    &&& p.structured_output is None
    &&& p.attachment is None
    &&& p.temperature is None
}

impl ModelProfile {
    /// Creates a profile with every field unset.
    pub fn new() -> (res: Self)
        ensures
            profile_is_empty(res),
    {
        ModelProfile {
            name: None,
            status: None,
            release_date: None,
            last_updated: None,
            open_weights: None,
            max_input_tokens: None,
            text_inputs: None,
            image_inputs: None,
            image_url_inputs: None,
            pdf_inputs: None,
            audio_inputs: None,
            video_inputs: None,
            image_tool_message: None,
            pdf_tool_message: None,
            max_output_tokens: None,
            reasoning_output: None,
            text_outputs: None,
            image_outputs: None,
            audio_outputs: None,
            video_outputs: None,
            tool_calling: None,
            tool_choice: None,
            structured_output: None,
            attachment: None,
            temperature: None,
        }
    }

    /// The context window: the maximum number of input tokens, if known.
    pub fn context_window(&self) -> (res: Option<usize>)
        ensures
            res == self.max_input_tokens,
    {
        self.max_input_tokens
    }
}

impl Default for ModelProfile {
    fn default() -> (res: Self)
        ensures
            profile_is_empty(res),
    {
        ModelProfile::new()
    }
}

/// The response a list model gives on its `index`-th call: responses are
/// used in turn, starting over after the last.
pub open spec fn cycled_response(responses: Seq<String>, index: int) -> Seq<char>
    recommends
        responses.len() > 0,
{
    responses[index % (responses.len() as int)]@
}

/// Picks the response for a call number: an error with `empty_message` when
/// there are no responses, otherwise the response at `index` modulo their number.
pub fn response_for_call(responses: &Vec<String>, index: usize, empty_message: &str) -> (res: Result<String, ChainError>)
    ensures
        responses@.len() == 0 <==> res is Err,
        responses@.len() == 0 ==> (res matches Err(ChainError::LLMError(m)) && m@ == empty_message@),
        res matches Ok(s) ==> s@ == cycled_response(responses@, index as int),
        res matches Ok(s) ==> exists|i: int| #![trigger responses@[i]] 0 <= i < responses@.len() && s@ == responses@[i]@,
{
    if responses.len() == 0 {
        return Err(ChainError::LLMError(empty_message.to_owned()));
    }
    let k = index % responses.len();
    let r = responses[k].clone();
    assert(0 <= k < responses@.len());
    Ok(r)
}

/// A fake chat model that returns its responses in turn, starting over
/// after the last.
pub struct FakeListChatModel {
    /// The responses, used in order.
    pub responses: Vec<String>,
    /// An optional delay before each response, in milliseconds.
    pub sleep_ms: Option<u64>,
    counter: std::sync::Arc<std::sync::atomic::AtomicUsize>,
}

impl FakeListChatModel {
    /// The responses, in order.
    pub closed spec fn response_list(&self) -> Seq<String> {
        self.responses@
    }

    /// The delay before each response.
    pub closed spec fn delay_ms(&self) -> Option<u64> {
        self.sleep_ms
    }

    /// Creates a model with the given responses and no delay.
    pub fn new(responses: Vec<String>) -> (res: Self)
        ensures
            res.response_list() == responses@,
            res.delay_ms() is None,
    {
        FakeListChatModel {
            responses,
            sleep_ms: None,
            counter: std::sync::Arc::new(std::sync::atomic::AtomicUsize::new(0)),
        }
    }

    /// Sets a delay before each response.
    pub fn with_sleep_ms(self, ms: u64) -> (res: Self)
        ensures
            res.response_list() == self.response_list(),
            res.delay_ms() == Some(ms),
    {
        FakeListChatModel { responses: self.responses, sleep_ms: Some(ms), counter: self.counter }
    }

    /// The next response: the call counter is advanced and the response at
    /// its previous value (modulo the number of responses) is returned.
    /// Which count a call sees depends on concurrent calls, so only the
    /// response's membership in the list is promised.
    pub fn next_response(&self) -> (res: Result<String, ChainError>)
        ensures
            self.response_list().len() == 0 <==> res is Err,
            self.response_list().len() == 0 ==> (res matches Err(ChainError::LLMError(m)) && m@ == "FakeListChatModel has no responses"@),
            res matches Ok(s) ==> exists|i: int| #![trigger self.response_list()[i]]
                0 <= i < self.response_list().len() && s@ == self.response_list()[i]@,
    {
        if self.responses.len() == 0 {
            return response_for_call(&self.responses, 0, "FakeListChatModel has no responses");
        }
        let idx = self.counter.fetch_add(1, std::sync::atomic::Ordering::SeqCst);
        let r = response_for_call(&self.responses, idx, "FakeListChatModel has no responses");
        assert(self.response_list() =~= self.responses@);
        r
    }
}

/// A fake text model that returns its responses in turn, starting over
/// after the last.
pub struct FakeListLLM {
    /// The responses, used in order.
    pub responses: Vec<String>,
    /// An optional delay before each response, in milliseconds.
    pub sleep_ms: Option<u64>,
    counter: std::sync::Arc<std::sync::atomic::AtomicUsize>,
}

impl FakeListLLM {
    /// The responses, in order.
    pub closed spec fn response_list(&self) -> Seq<String> {
        self.responses@
    }

    /// The delay before each response.
    pub closed spec fn delay_ms(&self) -> Option<u64> {
        self.sleep_ms
    }

    /// Creates a model with the given responses and no delay.
    pub fn new(responses: Vec<String>) -> (res: Self)
        ensures
            res.response_list() == responses@,
            res.delay_ms() is None,
    {
        FakeListLLM {
            responses,
            sleep_ms: None,
            counter: std::sync::Arc::new(std::sync::atomic::AtomicUsize::new(0)),
        }
    }

    /// Sets a delay before each response.
    pub fn with_sleep_ms(self, ms: u64) -> (res: Self)
        ensures
            res.response_list() == self.response_list(),
            res.delay_ms() == Some(ms),
    {
        FakeListLLM { responses: self.responses, sleep_ms: Some(ms), counter: self.counter }
    }

    /// The next response: the call counter is advanced and the response at
    /// its previous value (modulo the number of responses) is returned.
    /// Which count a call sees depends on concurrent calls, so only the
    /// response's membership in the list is promised.
    pub fn next_response(&self) -> (res: Result<String, ChainError>)
        ensures
            self.response_list().len() == 0 <==> res is Err,
            self.response_list().len() == 0 ==> (res matches Err(ChainError::LLMError(m)) && m@ == "FakeListLLM has no responses"@),
            res matches Ok(s) ==> exists|i: int| #![trigger self.response_list()[i]]
                0 <= i < self.response_list().len() && s@ == self.response_list()[i]@,
    {
        if self.responses.len() == 0 {
            return response_for_call(&self.responses, 0, "FakeListLLM has no responses");
        }
        let idx = self.counter.fetch_add(1, std::sync::atomic::Ordering::SeqCst);
        let r = response_for_call(&self.responses, idx, "FakeListLLM has no responses");
        assert(self.response_list() =~= self.responses@);
        r
    }
}

/// A fake chat model whose answer depends only on the position asked for.
pub struct DeterministicFakeListChatModel {
    /// The responses.
    pub responses: Vec<String>,
}

impl DeterministicFakeListChatModel {
    /// Creates a model with the given responses.
    pub fn new(responses: Vec<String>) -> (res: Self)
        ensures
            res.responses@ == responses@,
    {
        DeterministicFakeListChatModel { responses }
    }

    /// The response at `index` modulo the number of responses; an error
    /// when there are none.
    pub fn response_at(&self, index: usize) -> (res: Result<String, ChainError>)
        ensures
            self.responses@.len() == 0 <==> res is Err,
            self.responses@.len() == 0 ==> (res matches Err(ChainError::LLMError(m)) && m@ == "DeterministicFakeListChatModel has no responses"@),
            res matches Ok(s) ==> s@ == cycled_response(self.responses@, index as int),
    {
        response_for_call(&self.responses, index, "DeterministicFakeListChatModel has no responses")
    }
}

/// A list model's answers repeat with the length of its list: the response
/// for call `index + len` is the response for call `index`.
pub proof fn law_responses_cycle(responses: Seq<String>, index: nat)
    requires
        responses.len() > 0,
    ensures
        cycled_response(responses, (index + responses.len()) as int) == cycled_response(responses, index as int),
{
    vstd::arithmetic::div_mod::lemma_mod_add_multiples_vanish(index as int, responses.len() as int);
    assert((index + responses.len()) as int == (responses.len() as int) + (index as int));
}

/// The number of whitespace-separated words in `s` before position `n`:
/// the positions before `n` that hold a non-whitespace character not
/// preceded by one.
pub open spec fn words_before(s: Seq<char>, n: int) -> nat
    decreases n,
{
    if n <= 0 {
        0
    } else {
        words_before(s, n - 1) + if !is_ws(s[n - 1]) && (n - 1 == 0 || is_ws(s[n - 2])) {
            1nat
        } else {
            0nat
        }
    }
}

/// The number of whitespace-separated words in `s` (what
/// `str::split_whitespace().count()` gives).
pub open spec fn word_count(s: Seq<char>) -> nat {
    words_before(s, s.len() as int)
}

/// The words of `text` counted as tokens: the fake models' token count.
pub fn get_num_tokens(text: &str) -> (n: usize)
    ensures
        n == word_count(text@),
{
    let cs = str_chars(text);
    let mut n: usize = 0;
    let mut i: usize = 0;
    while i < cs.len()
        invariant
            i <= cs@.len(),
            cs@ == text@,
            n == words_before(cs@, i as int),
            n <= i,
        decreases cs@.len() - i,
    {
        if !is_whitespace(cs[i]) && (i == 0 || is_whitespace(cs[i - 1])) {
            n = n + 1;
        }
        i += 1;
    }
    n
}

/// A streamed piece of a chat generation.
#[derive(Debug, Clone)]
pub struct ChatGenerationChunk {
    /// The piece of the message.
    pub message: MessageChunk,
    /// Provider metadata by key.
    pub generation_info: Option<HashMap<String, serde_json::Value>>,
}

/// Inserts every entry of `source` into `target` (`HashMap::extend`).
///
/// Claimed of std: afterwards `target` maps each key of `source` to its
/// value in `source`, and every other key as before.
#[verifier::external_body]
fn extend_entries(target: &mut HashMap<String, serde_json::Value>, source: HashMap<String, serde_json::Value>)
    ensures
        final(target)@ == old(target)@.union_prefer_right(source@),
{
    target.extend(source);
}

impl ChatGenerationChunk {
    /// A chunk of `message` without metadata.
    pub fn new(message: MessageChunk) -> (res: Self)
        ensures
            res.message == message,
            res.generation_info is None,
    {
        ChatGenerationChunk { message, generation_info: None }
    }

    /// The same chunk with `info` as its metadata.
    pub fn with_generation_info(self, info: HashMap<String, serde_json::Value>) -> (res: Self)
        ensures
            res.message == self.message,
            res.generation_info == Some(info),
    {
        ChatGenerationChunk { message: self.message, generation_info: Some(info) }
    }

    /// Appends `other` to this chunk: its content is appended, its extra
    /// fields are added (replacing those with the same key), and its
    /// metadata, when present, replaces this chunk's.
    pub fn merge(&mut self, other: ChatGenerationChunk)
        ensures
            final(self).message.content@ == old(self).message.content@ + other.message.content@,
            final(self).message.additional_kwargs@ == old(self).message.additional_kwargs@.union_prefer_right(
                other.message.additional_kwargs@,
            ),
            final(self).message.message_type == old(self).message.message_type,
            final(self).message.name == old(self).message.name,
            final(self).generation_info == (if other.generation_info is Some {
                other.generation_info
            } else {
                old(self).generation_info
            }),
    {
        self.message.content.append(other.message.content.as_str());
        extend_entries(&mut self.message.additional_kwargs, other.message.additional_kwargs);
        if other.generation_info.is_some() {
            self.generation_info = other.generation_info;
        }
    }
}

/// The error when a model returned no generation: `No generations returned`.
pub open spec fn no_generations_message() -> Seq<char> {
    "No generations returned"@
}

/// The first generation of a chat result, as `predict_messages` returns it;
/// an error when there is none.
pub fn first_chat_generation(result: ChatResult) -> (res: Result<ChatGeneration, ChainError>)
    ensures
        result.generations@.len() > 0 ==> res == Ok::<ChatGeneration, ChainError>(result.generations@[0]),
        result.generations@.len() == 0 ==> (res matches Err(ChainError::LLMError(m)) && m@ == no_generations_message()),
{
    let mut gens = result.generations;
    if gens.len() == 0 {
        return Err(ChainError::LLMError(String::from_str("No generations returned")));
    }
    Ok(gens.remove(0))
}

/// The message of the first generation of a chat result, as `predict`
/// returns it; an error when there is none.
pub fn first_message(result: ChatResult) -> (res: Result<BaseMessage, ChainError>)
    ensures
        result.generations@.len() > 0 ==> res == Ok::<BaseMessage, ChainError>(result.generations@[0].message),
        result.generations@.len() == 0 ==> (res matches Err(ChainError::LLMError(m)) && m@ == no_generations_message()),
{
    match first_chat_generation(result) {
        Ok(g) => Ok(g.message),
        Err(e) => Err(e),
    }
}

/// The single chunk a model that does not stream gives: the whole message.
pub fn whole_message_chunk(message: &BaseMessage) -> (res: ChatGenerationChunk)
    ensures
        res.message.content@ == message.content@,
        res.message.message_type == message.message_type,
        res.message.name is None,
        res.message.additional_kwargs@ == Map::<String, serde_json::Value>::empty(),
        res.generation_info is None,
{
    ChatGenerationChunk::new(MessageChunk::new(message.content.clone(), message.message_type))
}

/// The chunks the fake chat model streams for a response: one assistant
/// chunk per character.
pub fn char_chunks(text: &str) -> (res: Vec<ChatGenerationChunk>)
    ensures
        res@.len() == text@.len(),
        forall|i: int| 0 <= i < res@.len() ==> {
            &&& (#[trigger] res@[i]).message.content@ == seq![text@[i]]
            &&& res@[i].message.message_type == MessageType::AI
            &&& res@[i].message.name is None
            &&& res@[i].generation_info is None
        },
{
    let cs = str_chars(text);
    let mut out: Vec<ChatGenerationChunk> = Vec::new();
    let mut i: usize = 0;
    while i < cs.len()
        invariant
            i <= cs@.len(),
            cs@ == text@,
            out@.len() == i,
            forall|k: int| 0 <= k < i ==> {
                &&& (#[trigger] out@[k]).message.content@ == seq![text@[k]]
                &&& out@[k].message.message_type == MessageType::AI
                &&& out@[k].message.name is None
                &&& out@[k].generation_info is None
            },
        decreases cs@.len() - i,
    {
        let one: Vec<char> = vec![cs[i]];
        let piece = string_from_chars(one.as_slice());
        assert(piece@ =~= seq![text@[i as int]]);
        out.push(ChatGenerationChunk::new(MessageChunk::new(piece, MessageType::AI)));
        i += 1;
    }
    out
}

/// The conversation a simple chat model answers: the first of the batch;
/// an error when the batch is empty.
pub fn first_batch(messages: Vec<Vec<BaseMessage>>) -> (res: Result<Vec<BaseMessage>, ChainError>)
    ensures
        messages@.len() > 0 ==> res == Ok::<Vec<BaseMessage>, ChainError>(messages@[0]),
        messages@.len() == 0 ==> (res matches Err(ChainError::LLMError(m)) && m@ == "No messages provided"@),
{
    let mut ms = messages;
    if ms.len() == 0 {
        return Err(ChainError::LLMError(String::from_str("No messages provided")));
    }
    Ok(ms.remove(0))
}

/// A chat result of one assistant message with `content`.
fn single_answer(content: String) -> (res: ChatResult)
    ensures
        res.generations@.len() == 1,
        res.generations@[0].message.content@ == content@,
        res.generations@[0].message.message_type == MessageType::AI,
        res.generations@[0].text@ == content@,
        res.llm_output is None,
{
    let message = BaseMessage::new(content.as_str(), MessageType::AI);
    ChatResult { generations: vec![ChatGeneration::new(message)], llm_output: None }
}

impl FakeListChatModel {
    /// Answers a chat: one assistant generation holding the next response.
    pub fn generate_now(&self) -> (res: Result<ChatResult, ChainError>)
        ensures
            self.response_list().len() == 0 <==> res is Err,
            self.response_list().len() == 0 ==> (res matches Err(ChainError::LLMError(m)) && m@ == "FakeListChatModel has no responses"@),
            res matches Ok(r) ==> {
                &&& r.generations@.len() == 1
                &&& r.generations@[0].message.message_type == MessageType::AI
                &&& r.llm_output is None
                &&& exists|i: int| #![trigger self.response_list()[i]] 0 <= i < self.response_list().len()
                    && r.generations@[0].message.content@ == self.response_list()[i]@
            },
    {
        match self.next_response() {
            Ok(s) => Ok(single_answer(s)),
            Err(e) => Err(e),
        }
    }
}

impl FakeListLLM {
    /// Answers each prompt with the next response, one generation per
    /// prompt; an error when there are no responses.
    pub fn generate_now(&self, prompts: &Vec<String>) -> (res: Result<LLMResult, ChainError>)
        ensures
            self.response_list().len() == 0 && prompts@.len() > 0 ==> (res matches Err(ChainError::LLMError(m))
                && m@ == "FakeListLLM has no responses"@),
            self.response_list().len() > 0 || prompts@.len() == 0 ==> res is Ok,
            res matches Ok(r) ==> {
                &&& r.generations@.len() == prompts@.len()
                &&& r.llm_output is None
                &&& forall|p: int| 0 <= p < prompts@.len() ==> (#[trigger] r.generations@[p])@.len() == 1
                    && exists|i: int| #![trigger self.response_list()[i]] 0 <= i < self.response_list().len()
                        && r.generations@[p]@[0].text@ == self.response_list()[i]@
            },
    {
        let mut generations: Vec<Vec<Generation>> = Vec::new();
        let mut p: usize = 0;
        while p < prompts.len()
            invariant
                p <= prompts@.len(),
                generations@.len() == p,
                p > 0 ==> self.response_list().len() > 0,
                forall|q: int| 0 <= q < p ==> (#[trigger] generations@[q])@.len() == 1
                    && exists|i: int| #![trigger self.response_list()[i]] 0 <= i < self.response_list().len()
                        && generations@[q]@[0].text@ == self.response_list()[i]@,
            decreases prompts@.len() - p,
        {
            match self.next_response() {
                Ok(s) => {
                    generations.push(vec![Generation::new(s)]);
                },
                Err(e) => {
                    return Err(e);
                },
            }
            p += 1;
        }
        let ghost g = generations@;
        let r = LLMResult::new(generations);
        assert forall|q: int| 0 <= q < prompts@.len() implies (#[trigger] r.generations@[q])@.len() == 1
            && exists|i: int| #![trigger self.response_list()[i]] 0 <= i < self.response_list().len()
                && r.generations@[q]@[0].text@ == self.response_list()[i]@ by {
            assert(r.generations@[q] == g[q]);
        }
        Ok(r)
    }
}

impl DeterministicFakeListChatModel {
    /// Answers a chat with the first response, as one assistant generation.
    pub fn generate_now(&self) -> (res: Result<ChatResult, ChainError>)
        ensures
            self.responses@.len() == 0 <==> res is Err,
            self.responses@.len() == 0 ==> (res matches Err(ChainError::LLMError(m)) && m@ == "DeterministicFakeListChatModel has no responses"@),
            res matches Ok(r) ==> {
                &&& r.generations@.len() == 1
                &&& r.generations@[0].message.message_type == MessageType::AI
                &&& r.generations@[0].message.content@ == self.responses@[0]@
                &&& r.llm_output is None
            },
    {
        match self.response_at(0) {
            Ok(s) => Ok(single_answer(s)),
            Err(e) => Err(e),
        }
    }
}

} // verus!
