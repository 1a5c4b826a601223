//! Output parsers that turn raw model responses into structured values.

use crate::chunk_merge::chars_between;
use crate::errors::ChainError;
use crate::json_splitters::{decimal, decimal_chars};
use crate::prompt::{empty_map, map_insert, string_map_view};
use crate::pattern::{capture_ranges, char_spans, regex_capture_spans, regex_is_valid};
use crate::text::{
    cviews, lines, lines_chars, split_all, split_chars, str_chars, string_from_chars, trim, trim_chars,
    views,
};
use std::collections::HashMap;
use std::sync::Arc;
use vstd::prelude::*;

pub use crate::json_parsers::{JsonOutputFunctionsParser, JsonOutputToolsParser, OpenAIFunctionsOutputParser, OpenAIToolsOutputParser};

verus! {

broadcast use vstd::seq_lib::group_seq_properties;

/// Parsing model output text into values of type `T`.
pub trait OutputParser<T> {
    /// Parses a single text string into a `T`.
    fn parse(&self, text: &str) -> Result<T, ChainError>;

    /// Returns a string describing the expected output format.
    fn get_format_instructions(&self) -> String;
}

/// An output parser that returns the input text unchanged.
#[derive(Debug, Clone)]
pub struct StrOutputParser;

impl StrOutputParser {
    /// Returns `text` unchanged.
    pub fn parse_text(&self, text: &str) -> (res: Result<String, ChainError>)
        ensures
            res matches Ok(s) && s@ == text@,
    {
        Ok(text.to_owned())
    }
}

impl OutputParser<String> for StrOutputParser {
    fn parse(&self, text: &str) -> (res: Result<String, ChainError>)
        ensures
            res matches Ok(s) && s@ == text@,
    {
        self.parse_text(text)
    }

    fn get_format_instructions(&self) -> (res: String)
        ensures
            res@ == "Return a plain text string."@,
    {
        String::from_str("Return a plain text string.")
    }
}

/// The pieces of `text` between commas, each trimmed.
pub open spec fn comma_items(text: Seq<char>) -> Seq<Seq<char>> {
    split_all(text, seq![',']).map_values(|s: Seq<char>| trim(s))
}

/// Parses comma-separated text into a list of trimmed items.
#[derive(Debug, Clone)]
pub struct CommaSeparatedListOutputParser;

impl CommaSeparatedListOutputParser {
    /// Splits `text` on commas and trims each piece.
    pub fn parse_list(&self, text: &str) -> (res: Result<Vec<String>, ChainError>)
        ensures
            res matches Ok(v) && views(v@) == comma_items(text@),
    {
        let t = str_chars(text);
        let comma: Vec<char> = vec![','];
        assert(comma@ =~= seq![',']);
        let pieces = split_chars(t.as_slice(), comma.as_slice());
        let mut out: Vec<String> = Vec::new();
        let mut i: usize = 0;
        while i < pieces.len()
            invariant
                i <= pieces@.len(),
                cviews(pieces@) == split_all(text@, seq![',']),
                views(out@) =~= cviews(pieces@).take(i as int).map_values(|s: Seq<char>| trim(s)),
            decreases pieces@.len() - i,
        {
            let s = string_from_chars(trim_chars(pieces[i].as_slice()).as_slice());
            proof {
                assert(views(out@.push(s)) =~= views(out@).push(s@));
                assert(cviews(pieces@).take(i + 1) =~= cviews(pieces@).take(i as int).push(pieces@[i as int]@));
            }
            out.push(s);
            i += 1;
        }
        assert(cviews(pieces@).take(pieces@.len() as int) =~= cviews(pieces@));
        Ok(out)
    }
}

impl OutputParser<Vec<String>> for CommaSeparatedListOutputParser {
    fn parse(&self, text: &str) -> (res: Result<Vec<String>, ChainError>)
        ensures
            res matches Ok(v) && views(v@) == comma_items(text@),
    {
        self.parse_list(text)
    }

    fn get_format_instructions(&self) -> (res: String)
        ensures
            res@ == "Return a comma-separated list."@,
    {
        String::from_str("Return a comma-separated list.")
    }
}

/// The item of a markdown bullet line: for a trimmed line starting with
/// `"- "` or `"* "`, the rest of it trimmed.
pub open spec fn bullet_item(line: Seq<char>) -> Option<Seq<char>> {
    let t = trim(line);
    if t.len() >= 2 && (t[0] == '-' || t[0] == '*') && t[1] == ' ' {
        Some(trim(t.subrange(2, t.len() as int)))
    } else {
        None
    }
}

/// The items of the bullet lines among `ls`, in order.
pub open spec fn bullet_items(ls: Seq<Seq<char>>) -> Seq<Seq<char>>
    decreases ls.len(),
{
    if ls.len() == 0 {
        Seq::empty()
    } else {
        let rest = bullet_items(ls.drop_last());
        match bullet_item(ls.last()) {
            Some(it) => rest.push(it),
            None => rest,
        }
    }
}

/// Parses markdown bullet lists (`- item` or `* item`) into their items.
#[derive(Debug, Clone)]
pub struct MarkdownListOutputParser;

impl MarkdownListOutputParser {
    /// The items of the bullet lines of `text`, in order.
    pub fn parse_list(&self, text: &str) -> (res: Result<Vec<String>, ChainError>)
        ensures
            res matches Ok(v) && views(v@) == bullet_items(lines(text@)),
    {
        let t = str_chars(text);
        let ls = lines_chars(t.as_slice());
        let mut out: Vec<String> = Vec::new();
        let mut i: usize = 0;
        while i < ls.len()
            invariant
                i <= ls@.len(),
                cviews(ls@) == lines(text@),
                views(out@) == bullet_items(cviews(ls@).take(i as int)),
            decreases ls@.len() - i,
        {
            proof {
                assert(cviews(ls@).take(i + 1).drop_last() =~= cviews(ls@).take(i as int));
                assert(cviews(ls@).take(i + 1).last() == ls@[i as int]@);
            }
            let tl = trim_chars(ls[i].as_slice());
            if tl.len() >= 2 && (tl[0] == '-' || tl[0] == '*') && tl[1] == ' ' {
                let rest = vstd::slice::slice_subrange(tl.as_slice(), 2, tl.len());
                let item = string_from_chars(trim_chars(rest).as_slice());
                proof {
                    assert(views(out@.push(item)) =~= views(out@).push(item@));
                }
                out.push(item);
            }
            i += 1;
        }
        assert(cviews(ls@).take(ls@.len() as int) =~= cviews(ls@));
        Ok(out)
    }
}

impl OutputParser<Vec<String>> for MarkdownListOutputParser {
    fn parse(&self, text: &str) -> (res: Result<Vec<String>, ChainError>)
        ensures
            res matches Ok(v) && views(v@) == bullet_items(lines(text@)),
    {
        self.parse_list(text)
    }

    fn get_format_instructions(&self) -> (res: String)
        ensures
            res@ == "Return a markdown bullet list with items starting with '- ' or '* '."@,
    {
        String::from_str("Return a markdown bullet list with items starting with '- ' or '* '.")
    }
}

/// The pattern that matches a numbered-list prefix such as `"1. "` or `"2) "`.
pub open spec fn numbered_pattern() -> Seq<char> {
    "^\\s*(\\d+)[.)]\\s+"@
}

/// The item of a numbered line: when the prefix pattern matches, the rest of
/// the line after the first match, trimmed.
pub open spec fn numbered_item(line: Seq<char>) -> Option<Seq<char>> {
    let spans = char_spans(line, regex_capture_spans(numbered_pattern(), line, 0));
    if spans.len() > 0 && spans[0] is Some {
        Some(trim(line.subrange(spans[0]->Some_0.1, line.len() as int)))
    } else {
        None
    }
}

/// The items of the numbered lines among `ls`, in order.
pub open spec fn numbered_items(ls: Seq<Seq<char>>) -> Seq<Seq<char>>
    decreases ls.len(),
{
    if ls.len() == 0 {
        Seq::empty()
    } else {
        let rest = numbered_items(ls.drop_last());
        match numbered_item(ls.last()) {
            Some(it) => rest.push(it),
            None => rest,
        }
    }
}

/// Parses numbered lists (`N. item` or `N) item`) into their items.
#[derive(Debug, Clone)]
pub struct NumberedListOutputParser;

impl NumberedListOutputParser {
    /// The items of the numbered lines of `text`, in order; an error when
    /// the prefix pattern does not compile.
    pub fn parse_list(&self, text: &str) -> (res: Result<Vec<String>, ChainError>)
        ensures
            regex_is_valid(numbered_pattern()) ==> (res matches Ok(v) && views(v@) == numbered_items(lines(text@))),
            !regex_is_valid(numbered_pattern()) ==> res matches Err(ChainError::ParserError(_)),
    {
        if capture_ranges("^\\s*(\\d+)[.)]\\s+", "", 0).is_none() {
            return Err(ChainError::ParserError(String::from_str("Regex compilation error: invalid numbered-list pattern")));
        }
        let t = str_chars(text);
        let ls = lines_chars(t.as_slice());
        let mut out: Vec<String> = Vec::new();
        let mut i: usize = 0;
        while i < ls.len()
            invariant
                regex_is_valid(numbered_pattern()),
                i <= ls@.len(),
                cviews(ls@) == lines(text@),
                views(out@) == numbered_items(cviews(ls@).take(i as int)),
            decreases ls@.len() - i,
        {
            proof {
                assert(cviews(ls@).take(i + 1).drop_last() =~= cviews(ls@).take(i as int));
                assert(cviews(ls@).take(i + 1).last() == ls@[i as int]@);
            }
            let line = string_from_chars(ls[i].as_slice());
            match capture_ranges("^\\s*(\\d+)[.)]\\s+", line.as_str(), 0) {
                None => {
                    return Err(ChainError::ParserError(String::from_str("Regex compilation error: invalid numbered-list pattern")));
                },
                Some(ranges) => {
                    proof {
                        let a = crate::pattern::spans_view(ranges@).map_values(|o: Option<(nat, nat)>| match o {
                            Some(p) => Some((p.0 as int, p.1 as int)),
                            None => None,
                        });
                        assert(a.len() == ranges@.len());
                        if ranges@.len() > 0 {
                            assert(a[0] == match ranges@[0] {
                                Some(p) => Some((p.0 as int, p.1 as int)),
                                None => None,
                            });
                        }
                    }
                    if ranges.len() > 0 {
                        match ranges[0] {
                            Some((_a, b)) => {
                                let rest = vstd::slice::slice_subrange(ls[i].as_slice(), b, ls[i].len());
                                let item = string_from_chars(trim_chars(rest).as_slice());
                                proof {
                                    assert(views(out@.push(item)) =~= views(out@).push(item@));
                                }
                                out.push(item);
                            },
                            None => {},
                        }
                    }
                },
            }
            i += 1;
        }
        assert(cviews(ls@).take(ls@.len() as int) =~= cviews(ls@));
        Ok(out)
    }
}

impl OutputParser<Vec<String>> for NumberedListOutputParser {
    fn parse(&self, text: &str) -> (res: Result<Vec<String>, ChainError>)
        ensures
            regex_is_valid(numbered_pattern()) ==> (res matches Ok(v) && views(v@) == numbered_items(lines(text@))),
            !regex_is_valid(numbered_pattern()) ==> res matches Err(ChainError::ParserError(_)),
    {
        self.parse_list(text)
    }

    fn get_format_instructions(&self) -> (res: String)
        ensures
            res@ == "Return a numbered list with items starting with 'N. ' or 'N) '."@,
    {
        String::from_str("Return a numbered list with items starting with 'N. ' or 'N) '.")
    }
}


/// Applies a transformation function to the trimmed input text.
pub struct TransformOutputParser<F> {
    /// The transformation function applied to trimmed text.
    pub transform: Arc<F>,
}

impl<F> Clone for TransformOutputParser<F> {
    fn clone(&self) -> (res: Self) {
        TransformOutputParser { transform: Arc::clone(&self.transform) }
    }
}

impl<F: Fn(String) -> Result<String, ChainError>> TransformOutputParser<F> {
    /// Creates a new `TransformOutputParser` with the given transform.
    pub fn new(transform: Arc<F>) -> (res: Self)
        ensures
            res.transform == transform,
    {
        TransformOutputParser { transform }
    }

    /// Trims `text` and applies the transform to it.
    pub fn parse(&self, text: &str) -> (res: Result<String, ChainError>)
        requires
            forall|s: String| call_requires(*self.transform, (s,)),
        ensures
            exists|s: String| s@ == trim(text@) && call_ensures(*self.transform, (s,), res),
    {
        let t = str_chars(text);
        let trimmed = string_from_chars(trim_chars(t.as_slice()).as_slice());
        let f: &F = &*self.transform;
        let r = f(trimmed);
        r
    }
}

/// A parser that deserializes JSON into values of type `T`.
#[derive(Debug)]
pub struct JsonOutputParser<T> {
    _phantom: std::marker::PhantomData<T>,
}

impl<T> JsonOutputParser<T> {
    /// Creates a new `JsonOutputParser`.
    pub fn new() -> (res: Self) {
        JsonOutputParser { _phantom: std::marker::PhantomData }
    }
}

/// Deserializes `text` as JSON into a `T` (`serde_json::from_str`).
///
/// Claimed of the crate: nothing; which texts deserialize into which values
/// of `T` depends on `T`'s deserializer, which is not modelled.
#[verifier::external_body]
fn json_from_str_as<T: serde::de::DeserializeOwned>(text: &str) -> Result<T, serde_json::Error> {
    serde_json::from_str::<T>(text)
}

impl<T: serde::de::DeserializeOwned> JsonOutputParser<T> {
    /// Parses the trimmed `text` as JSON; a failure is a
    /// [`ChainError::ParserError`] carrying the parser's message.
    pub fn parse(&self, text: &str) -> (res: Result<T, ChainError>)
        ensures
            res is Err ==> res matches Err(ChainError::ParserError(_)),
    {
        let t = str_chars(text);
        let trimmed = string_from_chars(trim_chars(t.as_slice()).as_slice());
        match json_from_str_as::<T>(trimmed.as_str()) {
            Ok(v) => Ok(v),
            Err(e) => Err(ChainError::ParserError(crate::errors::json_error_text(&e))),
        }
    }
}

/// Reads `text` as a JSON value (`serde_json::from_str::<serde_json::Value>`)
/// and deserializes that value into a `T` (`serde_json::from_value`);
/// `None` when either step fails.
///
/// Claimed of the crate: nothing; which texts give which values of `T`
/// depends on `T`'s deserializer, which is not modelled.
#[verifier::external_body]
fn json_value_text_as<T: serde::de::DeserializeOwned>(text: &str) -> Option<T> {
    match serde_json::from_str::<serde_json::Value>(text) {
        Ok(v) => serde_json::from_value::<T>(v).ok(),
        Err(_) => None,
    }
}

/// The default value of `T` (`Default::default`).
///
/// Claimed of std: nothing; what the default is depends on `T`.
#[verifier::external_body]
fn default_of<T: Default>() -> T {
    T::default()
}

impl<T: Default + serde::de::DeserializeOwned> JsonOutputParser<T> {
    /// Parses `text` as JSON leniently: the deserialized value when `text`
    /// is JSON that fits `T`, else `T`'s default. Never fails.
    pub fn parse_partial(&self, text: &str) -> (res: Result<T, ChainError>)
        ensures
            res is Ok,
    {
        match json_value_text_as::<T>(text) {
            Some(v) => Ok(v),
            None => Ok(default_of::<T>()),
        }
    }
}

/// What a fixing parser hands to its repair function after a failed
/// parse: the text, a new line, `Error: ` and the error's rendered text.
pub fn fixing_request(text: &str, error: &ChainError) -> (res: String)
    ensures
        res@ == text@ + "\nError: "@ + error.spec_text(),
{
    let mut s = String::from_str(text);
    s.append("\nError: ");
    let e = error.to_string();
    s.append(e.as_str());
    s
}

/// A fixing parser's error when every repair attempt failed to give
/// parsable text: `OutputFixingParser: all retry attempts failed`.
pub fn fixing_exhausted() -> (e: ChainError)
    ensures
        e matches ChainError::ParserError(m) && m@ == "OutputFixingParser: all retry attempts failed"@,
{
    ChainError::ParserError(String::from_str("OutputFixingParser: all retry attempts failed"))
}

/// A fixing parser's error from the synchronous parse when the inner parser
/// failed (repairing needs the asynchronous path).
pub fn fixing_needs_async() -> (e: ChainError)
    ensures
        e matches ChainError::ParserError(m) && m@ == "OutputFixingParser requires async runtime; use parse_with_retry instead"@,
{
    ChainError::ParserError(String::from_str("OutputFixingParser requires async runtime; use parse_with_retry instead"))
}

/// Where a fixing parser is in getting a text it can parse.
#[derive(Debug, Clone, Copy, PartialEq, Eq, Structural)]
pub enum FixingPhase {
    /// Parsing the original text.
    Initial,
    /// Parsing the current text at the start of a repair round.
    RoundStart,
    /// Waiting for the repair function's answer.
    Repairing,
    /// Parsing the text the repair function gave.
    Repaired,
}

/// The state of a fixing parser's repair loop: the round (counting from
/// zero), the rounds allowed, the text at hand and the phase.
#[derive(Debug)]
pub struct FixingState {
    /// The current repair round.
    pub round: usize,
    /// The repair rounds allowed.
    pub max_retries: usize,
    /// The text being parsed or repaired.
    pub current: String,
    /// What the loop waits for.
    pub phase: FixingPhase,
}

/// What happened since the last action.
#[derive(Debug)]
pub enum FixingEvent {
    /// The inner parser accepted the text.
    ParseOk,
    /// The inner parser refused the text with this error.
    ParseFailed(ChainError),
    /// The repair function answered with this text.
    RepairOk(String),
    /// The repair function failed with this error.
    RepairFailed(ChainError),
}

/// What the caller does next.
#[derive(Debug)]
pub enum FixingAction {
    /// Run the inner parser on this text.
    Parse(String),
    /// Call the repair function with this request.
    Repair(String),
    /// Return what the inner parser made of the text just parsed.
    Accept,
    /// Return this error.
    Fail(ChainError),
}

/// The state is consistent: the original text is parsed in round zero,
/// and every later phase lies in a round that is allowed.
pub open spec fn fixing_wf(s: FixingState) -> bool {
    if s.phase == FixingPhase::Initial {
        s.round == 0
    } else {
        s.round < s.max_retries
    }
}

/// The event answers the last action: a parse outcome in a parsing phase,
/// a repair outcome while repairing.
pub open spec fn fixing_expects(p: FixingPhase, e: FixingEvent) -> bool {
    if p == FixingPhase::Repairing {
        e is RepairOk || e is RepairFailed
    } else {
        e is ParseOk || e is ParseFailed
    }
}

/// The repairs asked for so far, from the state alone.
pub open spec fn repairs_asked(s: FixingState) -> int {
    s.round + if s.phase == FixingPhase::Repairing || s.phase == FixingPhase::Repaired {
        1int
    } else {
        0int
    }
}

/// `a` is the action `Fail` with the exhausted-retries error.
pub open spec fn fails_exhausted(a: FixingAction) -> bool {
    a matches FixingAction::Fail(ChainError::ParserError(m)) && m@ == "OutputFixingParser: all retry attempts failed"@
}

/// After a refused parse that ends round `next - 1` (or the original
/// parse, with `next == 0`): the next round's parse of the current text,
/// or, when no round is left, the exhausted error.
pub open spec fn next_round(s: FixingState, next: int, t: FixingState, a: FixingAction) -> bool {
    if next < s.max_retries {
        &&& t.round == next
        &&& t.phase == FixingPhase::RoundStart
        &&& t.current@ == s.current@
        &&& a matches FixingAction::Parse(x) && x@ == s.current@
    } else {
        &&& t.round == s.round
        &&& t.phase == s.phase
        &&& t.current@ == s.current@
        &&& fails_exhausted(a)
    }
}

/// The repair loop's move from `s` on event `e` to state `t` with action
/// `a`: a text that parses is accepted; a refused original text starts
/// round zero, if any round is allowed; a refused text at a round's start
/// goes to the repair function with the error; a failed repair ends with
/// its error; a repaired text is parsed; a refused repaired text ends the
/// round.
pub open spec fn fixing_moves(s: FixingState, e: FixingEvent, t: FixingState, a: FixingAction) -> bool {
    &&& t.max_retries == s.max_retries
    &&& match e {
        FixingEvent::ParseOk => a is Accept && t.round == s.round && t.phase == s.phase && t.current@ == s.current@,
        FixingEvent::ParseFailed(err) => match s.phase {
            FixingPhase::RoundStart => {
                &&& t.round == s.round
                &&& t.phase == FixingPhase::Repairing
                &&& t.current@ == s.current@
                &&& a matches FixingAction::Repair(x) && x@ == s.current@ + "\nError: "@ + err.spec_text()
            },
            FixingPhase::Repaired => next_round(s, s.round + 1, t, a),
            _ => next_round(s, 0, t, a),
        },
        FixingEvent::RepairOk(c) => {
            &&& t.round == s.round
            &&& t.phase == FixingPhase::Repaired
            &&& t.current@ == c@
            &&& a matches FixingAction::Parse(x) && x@ == c@
        },
        FixingEvent::RepairFailed(err) => t.round == s.round && t.phase == s.phase && t.current@ == s.current@
            && a == FixingAction::Fail(err),
    }
}

/// The repair loop's first move: parse the original `text`.
pub fn fixing_start(text: &str, max_retries: usize) -> (res: (FixingState, FixingAction))
    ensures
        fixing_wf(res.0),
        res.0.round == 0,
        res.0.max_retries == max_retries,
        res.0.phase == FixingPhase::Initial,
        res.0.current@ == text@,
        res.1 matches FixingAction::Parse(x) && x@ == text@,
{
    (
        FixingState { round: 0, max_retries, current: String::from_str(text), phase: FixingPhase::Initial },
        FixingAction::Parse(String::from_str(text)),
    )
}

/// The state after a refused parse that ends round `next - 1` (see
/// [`next_round`]).
fn go_to_round(s: FixingState, next: usize) -> (res: (FixingState, FixingAction))
    ensures
        next_round(s, next as int, res.0, res.1),
        res.0.max_retries == s.max_retries,
{
    if next < s.max_retries {
        let x = s.current.clone();
        (FixingState { round: next, max_retries: s.max_retries, current: s.current, phase: FixingPhase::RoundStart }, FixingAction::Parse(x))
    } else {
        (s, FixingAction::Fail(fixing_exhausted()))
    }
}

/// The repair loop's move on event `e` (see [`fixing_moves`]).
pub fn fixing_step(s: FixingState, e: FixingEvent) -> (res: (FixingState, FixingAction))
    requires
        fixing_wf(s),
        fixing_expects(s.phase, e),
    ensures
        fixing_moves(s, e, res.0, res.1),
        res.1 is Parse || res.1 is Repair ==> fixing_wf(res.0),
{
    match e {
        FixingEvent::ParseOk => (s, FixingAction::Accept),
        FixingEvent::ParseFailed(err) => match s.phase {
            FixingPhase::RoundStart => {
                let req = fixing_request(s.current.as_str(), &err);
                (FixingState { round: s.round, max_retries: s.max_retries, current: s.current, phase: FixingPhase::Repairing }, FixingAction::Repair(req))
            },
            FixingPhase::Repaired => {
                let next = s.round + 1;
                go_to_round(s, next)
            },
            _ => go_to_round(s, 0),
        },
        FixingEvent::RepairOk(c) => {
            let x = c.clone();
            (FixingState { round: s.round, max_retries: s.max_retries, current: c, phase: FixingPhase::Repaired }, FixingAction::Parse(x))
        },
        FixingEvent::RepairFailed(err) => (s, FixingAction::Fail(err)),
    }
}

/// A fixing parser asks for at most `max_retries` repairs: each step that
/// asks for one adds one to the count kept in the state, no other step
/// adds any, and the count never passes `max_retries` while the loop goes
/// on.
pub proof fn law_fixing_repairs_bounded(s: FixingState, e: FixingEvent, t: FixingState, a: FixingAction)
    requires
        fixing_wf(s),
        fixing_expects(s.phase, e),
        fixing_moves(s, e, t, a),
        repairs_asked(s) <= s.max_retries,
    ensures
        a is Repair ==> repairs_asked(t) == repairs_asked(s) + 1,
        a is Parse ==> repairs_asked(t) == repairs_asked(s),
        a is Parse || a is Repair ==> fixing_wf(t) && repairs_asked(t) <= t.max_retries,
{
}

/// A parser that deserializes structured JSON into values of type `T`.
#[derive(Debug)]
pub struct StructuredOutputParser<T> {
    _phantom: std::marker::PhantomData<T>,
}

impl<T> StructuredOutputParser<T> {
    /// Creates a new `StructuredOutputParser`.
    pub fn new() -> (res: Self) {
        StructuredOutputParser { _phantom: std::marker::PhantomData }
    }
}

impl<T: serde::de::DeserializeOwned> StructuredOutputParser<T> {
    /// Parses the trimmed `text` as JSON; a failure is a
    /// [`ChainError::ParserError`] reading `Structured parse error: ` and
    /// the parser's message.
    pub fn parse(&self, text: &str) -> (res: Result<T, ChainError>)
        ensures
            res matches Err(e) ==> (e matches ChainError::ParserError(m) && m@.len() >= 24 && m@.subrange(0, 24) == "Structured parse error: "@),
    {
        let t = str_chars(text);
        let trimmed = string_from_chars(trim_chars(t.as_slice()).as_slice());
        match json_from_str_as::<T>(trimmed.as_str()) {
            Ok(v) => Ok(v),
            Err(e) => {
                let mut m = String::from_str("Structured parse error: ");
                let detail = crate::errors::json_error_text(&e);
                m.append(detail.as_str());
                proof {
                    reveal_strlit("Structured parse error: ");
                    assert(m@.subrange(0, 24) =~= "Structured parse error: "@);
                }
                Err(ChainError::ParserError(m))
            },
        }
    }
}

/// `s` without any leading or trailing `"` characters.
pub open spec fn strip_quotes(s: Seq<char>) -> Seq<char>
    decreases s.len(),
{
    if s.len() > 0 && s[0] == '"' {
        strip_quotes(s.drop_first())
    } else if s.len() > 0 && s.last() == '"' {
        strip_quotes(s.drop_last())
    } else {
        s
    }
}

/// Removes leading and trailing `"` characters.
fn strip_quote_chars(s: &[char]) -> (out: Vec<char>)
    ensures
        out@ == strip_quotes(s@),
{
    let mut a: usize = 0;
    let mut b: usize = s.len();
    while a < b && (s[a] == '"' || s[b - 1] == '"')
        invariant
            a <= b <= s@.len(),
            strip_quotes(s@) == strip_quotes(s@.subrange(a as int, b as int)),
        decreases b - a,
    {
        if s[a] == '"' {
            assert(s@.subrange(a as int, b as int).drop_first() =~= s@.subrange(a + 1, b as int));
            a += 1;
        } else {
            assert(s@.subrange(a as int, b as int).drop_last() =~= s@.subrange(a as int, b - 1));
            b -= 1;
        }
    }
    let out = vstd::slice::slice_to_vec(vstd::slice::slice_subrange(s, a, b));
    out
}

/// Deserializes a JSON string holding `text` into a `T`
/// (`serde_json::from_value` of `serde_json::Value::String`).
///
/// Claimed of the crate: nothing; which strings name which values of `T`
/// depends on `T`'s deserializer, which is not modelled.
#[verifier::external_body]
fn json_from_string_value_as<T: serde::de::DeserializeOwned>(text: &str) -> Result<T, serde_json::Error> {
    serde_json::from_value::<T>(serde_json::Value::String(text.to_string()))
}

/// A parser that reads an enum variant of `T` from its name.
#[derive(Debug)]
pub struct EnumOutputParser<T> {
    _phantom: std::marker::PhantomData<T>,
}

impl<T> EnumOutputParser<T> {
    /// Creates a new `EnumOutputParser`.
    pub fn new() -> (res: Self) {
        EnumOutputParser { _phantom: std::marker::PhantomData }
    }
}

/// The variant name an enum parser reads: the text trimmed, stripped of
/// quotes, and trimmed again.
pub open spec fn enum_name(text: Seq<char>) -> Seq<char> {
    trim(strip_quotes(trim(text)))
}

impl<T: serde::de::DeserializeOwned> EnumOutputParser<T> {
    /// The variant name read from `text` (see [`enum_name`]).
    pub fn variant_name(&self, text: &str) -> (res: String)
        ensures
            res@ == enum_name(text@),
    {
        let t = str_chars(text);
        let a = trim_chars(t.as_slice());
        let b = strip_quote_chars(a.as_slice());
        let c = trim_chars(b.as_slice());
        string_from_chars(c.as_slice())
    }

    /// Deserializes the variant named by `text`; a failure is a
    /// [`ChainError::ParserError`] reading `Enum parse error: ` and the
    /// deserializer's message.
    pub fn parse(&self, text: &str) -> (res: Result<T, ChainError>)
        ensures
            res matches Err(e) ==> (e matches ChainError::ParserError(m) && m@.len() >= 18 && m@.subrange(0, 18) == "Enum parse error: "@),
    {
        let name = self.variant_name(text);
        match json_from_string_value_as::<T>(name.as_str()) {
            Ok(v) => Ok(v),
            Err(e) => {
                let mut m = String::from_str("Enum parse error: ");
                let detail = crate::errors::json_error_text(&e);
                m.append(detail.as_str());
                proof {
                    reveal_strlit("Enum parse error: ");
                    assert(m@.subrange(0, 18) =~= "Enum parse error: "@);
                }
                Err(ChainError::ParserError(m))
            },
        }
    }
}

/// `s` with `p` removed from its front as many times as it occurs there.
pub open spec fn strip_prefix_all(s: Seq<char>, p: Seq<char>) -> Seq<char>
    decreases s.len(),
{
    if p.len() > 0 && p.len() <= s.len() && s.subrange(0, p.len() as int) == p {
        strip_prefix_all(s.skip(p.len() as int), p)
    } else {
        s
    }
}

/// `s` with `p` removed from its end as many times as it occurs there.
pub open spec fn strip_suffix_all(s: Seq<char>, p: Seq<char>) -> Seq<char>
    decreases s.len(),
{
    if p.len() > 0 && p.len() <= s.len() && s.subrange(s.len() - p.len(), s.len() as int) == p {
        strip_suffix_all(s.take(s.len() - p.len()), p)
    } else {
        s
    }
}

/// Removes every leading copy of `p`.
fn strip_prefix_chars(s: &[char], p: &[char]) -> (out: Vec<char>)
    ensures
        out@ == strip_prefix_all(s@, p@),
{
    let mut a: usize = 0;
    while p.len() > 0 && p.len() <= s.len() - a && crate::text::chars_match_at(s, p, a)
        invariant
            a <= s@.len(),
            strip_prefix_all(s@, p@) == strip_prefix_all(s@.skip(a as int), p@),
        decreases s@.len() - a,
    {
        assert(s@.skip(a as int).subrange(0, p@.len() as int) =~= s@.subrange(a as int, a + p@.len()));
        assert(s@.skip(a as int).skip(p@.len() as int) =~= s@.skip(a + p@.len()));
        a += p.len();
    }
    proof {
        if p@.len() > 0 && p@.len() <= s@.len() - a {
            assert(s@.skip(a as int).subrange(0, p@.len() as int) =~= s@.subrange(a as int, a + p@.len()));
        }
    }
    vstd::slice::slice_to_vec(vstd::slice::slice_subrange(s, a, s.len()))
}

/// Removes every trailing copy of `p`.
fn strip_suffix_chars(s: &[char], p: &[char]) -> (out: Vec<char>)
    ensures
        out@ == strip_suffix_all(s@, p@),
{
    let mut b: usize = s.len();
    while p.len() > 0 && p.len() <= b && crate::text::chars_match_at(s, p, b - p.len())
        invariant
            b <= s@.len(),
            strip_suffix_all(s@, p@) == strip_suffix_all(s@.take(b as int), p@),
        decreases b,
    {
        assert(s@.take(b as int).subrange(b - p@.len(), b as int) =~= s@.subrange(b - p@.len(), b as int));
        assert(s@.take(b as int).take(b - p@.len()) =~= s@.take(b - p@.len()));
        b -= p.len();
    }
    proof {
        if p@.len() > 0 && p@.len() <= b {
            assert(s@.take(b as int).subrange(b - p@.len(), b as int) =~= s@.subrange(b - p@.len(), b as int));
        }
    }
    vstd::slice::slice_to_vec(vstd::slice::slice_subrange(s, 0, b))
}

/// The JSON a typed parser reads from a fenced reply: the text trimmed,
/// stripped of leading `` ```json `` and `` ``` `` fences and trailing
/// `` ``` `` fences, and trimmed again.
pub open spec fn unfenced(text: Seq<char>) -> Seq<char> {
    trim(strip_suffix_all(strip_prefix_all(strip_prefix_all(trim(text), "```json"@), "```"@), "```"@))
}

/// A parser that deserializes JSON (possibly inside a markdown code fence)
/// into values of type `T`.
#[derive(Debug)]
pub struct PydanticOutputParser<T> {
    _phantom: std::marker::PhantomData<T>,
}

impl<T> PydanticOutputParser<T> {
    /// Creates a new `PydanticOutputParser`.
    pub fn new() -> (res: Self) {
        PydanticOutputParser { _phantom: std::marker::PhantomData }
    }
}

impl<T: serde::de::DeserializeOwned> PydanticOutputParser<T> {
    /// The JSON text read from `text` (see [`unfenced`]).
    pub fn unfence(&self, text: &str) -> (res: String)
        ensures
            res@ == unfenced(text@),
    {
        let t = str_chars(text);
        let a = trim_chars(t.as_slice());
        let fj = str_chars("```json");
        let f = str_chars("```");
        let b = strip_prefix_chars(a.as_slice(), fj.as_slice());
        let c = strip_prefix_chars(b.as_slice(), f.as_slice());
        let d = strip_suffix_chars(c.as_slice(), f.as_slice());
        let e = trim_chars(d.as_slice());
        string_from_chars(e.as_slice())
    }

    /// Deserializes the unfenced JSON; a failure is a
    /// [`ChainError::ParserError`] carrying the parser's message.
    pub fn parse(&self, text: &str) -> (res: Result<T, ChainError>)
        ensures
            res matches Err(e) ==> e is ParserError,
    {
        let body = self.unfence(text);
        match json_from_str_as::<T>(body.as_str()) {
            Ok(v) => Ok(v),
            Err(e) => Err(ChainError::ParserError(crate::errors::json_error_text(&e))),
        }
    }
}

#[verifier::external_type_specification]
#[verifier::external_body]
pub struct ExYamlError(serde_yaml::Error);

/// Deserializes `text` as YAML into a `T` (`serde_yaml::from_str`), with
/// the error's text on failure.
///
/// Claimed of the crate: nothing; which texts deserialize into which values
/// of `T` depends on `T`'s deserializer, which is not modelled.
#[verifier::external_body]
fn yaml_from_str_as<T: serde::de::DeserializeOwned>(text: &str) -> Result<T, String> {
    serde_yaml::from_str::<T>(text).map_err(|e| e.to_string())
}

/// A parser that deserializes YAML into values of type `T`.
#[derive(Debug)]
pub struct YamlOutputParser<T> {
    _phantom: std::marker::PhantomData<T>,
}

impl<T> YamlOutputParser<T> {
    /// Creates a new `YamlOutputParser`.
    pub fn new() -> (res: Self) {
        YamlOutputParser { _phantom: std::marker::PhantomData }
    }
}

impl<T: serde::de::DeserializeOwned> YamlOutputParser<T> {
    /// Deserializes `text` as YAML; a failure is a
    /// [`ChainError::ParserError`] reading `YAML parse error: ` and the
    /// parser's message.
    pub fn parse(&self, text: &str) -> (res: Result<T, ChainError>)
        ensures
            res matches Err(e) ==> (e matches ChainError::ParserError(m) && m@.len() >= 18 && m@.subrange(0, 18) == "YAML parse error: "@),
    {
        match yaml_from_str_as::<T>(text) {
            Ok(v) => Ok(v),
            Err(detail) => {
                let mut m = String::from_str("YAML parse error: ");
                m.append(detail.as_str());
                proof {
                    reveal_strlit("YAML parse error: ");
                    assert(m@.subrange(0, 18) =~= "YAML parse error: "@);
                }
                Err(ChainError::ParserError(m))
            },
        }
    }
}

/// A parser that tries an inner parser up to `max_retries` times.
#[verifier::reject_recursive_types(T)]
pub struct RetryOutputParser<T> {
    inner: Box<dyn OutputParser<T>>,
    /// Maximum number of parse attempts.
    pub max_retries: usize,
}

impl<T> RetryOutputParser<T> {
    /// The maximum number of attempts.
    pub closed spec fn attempts(&self) -> usize {
        self.max_retries
    }

    /// Creates a new `RetryOutputParser` around `inner`.
    pub fn new(inner: Box<dyn OutputParser<T>>, max_retries: usize) -> (res: Self)
        ensures
            res.attempts() == max_retries,
    {
        RetryOutputParser { inner, max_retries }
    }

    /// Parses with the inner parser, returning its first success; after
    /// `max_retries` failures, the last error; with no attempts allowed, a
    /// [`ChainError::ParserError`] saying the retries are exhausted.
    pub fn parse(&self, text: &str) -> (res: Result<T, ChainError>)
        ensures
            self.attempts() == 0 ==> (res matches Err(ChainError::ParserError(m)) && m@ == "Retry output parser exhausted"@),
    {
        let mut last: Option<ChainError> = None;
        let mut i: usize = 0;
        while i < self.max_retries
            invariant
                i <= self.max_retries,
                i == 0 ==> last is None,
            decreases self.max_retries - i,
        {
            match self.inner.parse(text) {
                Ok(v) => {
                    return Ok(v);
                },
                Err(e) => {
                    last = Some(e);
                },
            }
            i += 1;
        }
        match last {
            Some(e) => Err(e),
            None => Err(ChainError::ParserError(String::from_str("Retry output parser exhausted"))),
        }
    }

    /// The inner parser's format instructions.
    pub fn get_format_instructions(&self) -> String {
        self.inner.get_format_instructions()
    }
}

/// A parser for simple `<tag>value</tag>` XML replies.
#[derive(Debug, Clone)]
pub struct XMLOutputParser;

impl XMLOutputParser {
    /// Describes the expected XML format.
    pub fn get_format_instructions(&self) -> (res: String)
        ensures
            res@ == "Return XML with tags like <tag>value</tag>."@,
    {
        String::from_str("Return XML with tags like <tag>value</tag>.")
    }
}

#[verifier::external_type_specification]
#[verifier::external_body]
pub struct ExNaiveDateTime(chrono::NaiveDateTime);

/// What `chrono::NaiveDateTime::parse_from_str` reads from `text` with the
/// format `fmt` (`None` when it fails).
pub uninterp spec fn naive_datetime_parse(text: Seq<char>, fmt: Seq<char>) -> Option<chrono::NaiveDateTime>;

/// What `chrono::DateTime::parse_from_rfc3339` reads from `text`, as the
/// UTC date and time (`None` when it fails).
pub uninterp spec fn rfc3339_naive_utc(text: Seq<char>) -> Option<chrono::NaiveDateTime>;

/// Parses `text` with a `strftime`-style format
/// (`chrono::NaiveDateTime::parse_from_str`).
///
/// Claimed of the crate: the outcome depends only on the text and the
/// format (named `naive_datetime_parse`); which texts a format accepts is
/// left unstated.
#[verifier::external_body]
fn parse_naive(text: &str, fmt: &str) -> (r: Option<chrono::NaiveDateTime>)
    ensures
        r == naive_datetime_parse(text@, fmt@),
{
    chrono::NaiveDateTime::parse_from_str(text, fmt).ok()
}

/// Parses an RFC 3339 timestamp (`chrono::DateTime::parse_from_rfc3339`)
/// and converts it to UTC (`naive_utc`).
///
/// Claimed of the crate: the outcome depends only on the text (named
/// `rfc3339_naive_utc`); which texts are accepted is left unstated.
#[verifier::external_body]
fn parse_rfc3339_utc(text: &str) -> (r: Option<chrono::NaiveDateTime>)
    ensures
        r == rfc3339_naive_utc(text@),
{
    chrono::DateTime::parse_from_rfc3339(text).ok().map(|d| d.naive_utc())
}

/// The formats tried, in order: ISO 8601 with fraction and offset, with
/// fraction, with a space and fraction, without fraction, with a space, and
/// a bare date.
pub open spec fn datetime_formats() -> Seq<Seq<char>> {
    seq![
        "%Y-%m-%dT%H:%M:%S%.f%:z"@,
        "%Y-%m-%dT%H:%M:%S%.f"@,
        "%Y-%m-%d %H:%M:%S%.f"@,
        "%Y-%m-%dT%H:%M:%S"@,
        "%Y-%m-%d %H:%M:%S"@,
        "%Y-%m-%d"@,
    ]
}

/// The value of the first format that reads `text`.
pub open spec fn first_format_parse(text: Seq<char>, fmts: Seq<Seq<char>>) -> Option<chrono::NaiveDateTime>
    decreases fmts.len(),
{
    if fmts.len() == 0 {
        None
    } else {
        match naive_datetime_parse(text, fmts[0]) {
            Some(d) => Some(d),
            None => first_format_parse(text, fmts.drop_first()),
        }
    }
}

/// The date and time read from a reply: the trimmed text read with the
/// first format that accepts it, otherwise as an RFC 3339 timestamp in UTC.
pub open spec fn datetime_reading(text: Seq<char>) -> Option<chrono::NaiveDateTime> {
    match first_format_parse(trim(text), datetime_formats()) {
        Some(d) => Some(d),
        None => rfc3339_naive_utc(trim(text)),
    }
}

/// A parser for date and time replies.
#[derive(Debug, Clone)]
pub struct DatetimeOutputParser;

impl DatetimeOutputParser {
    /// Reads a date and time from `text` (see [`datetime_reading`]); when
    /// nothing reads it, a [`ChainError::ParserError`] naming the text.
    pub fn parse(&self, text: &str) -> (res: Result<chrono::NaiveDateTime, ChainError>)
        ensures
            match datetime_reading(text@) {
                Some(d) => res == Ok::<chrono::NaiveDateTime, ChainError>(d),
                None => res matches Err(ChainError::ParserError(m)) && m@ == "Could not parse datetime: "@ + text@,
            },
    {
        let t = str_chars(text);
        let trimmed = string_from_chars(trim_chars(t.as_slice()).as_slice());
        let fmts: Vec<&str> = vec![
            "%Y-%m-%dT%H:%M:%S%.f%:z",
            "%Y-%m-%dT%H:%M:%S%.f",
            "%Y-%m-%d %H:%M:%S%.f",
            "%Y-%m-%dT%H:%M:%S",
            "%Y-%m-%d %H:%M:%S",
            "%Y-%m-%d",
        ];
        let ghost fv = fmts@.map_values(|f: &str| f@);
        assert(fv =~= datetime_formats());
        let mut i: usize = 0;
        assert(fv.skip(0) =~= fv);
        while i < fmts.len()
            invariant
                i <= fmts@.len(),
                fv == fmts@.map_values(|f: &str| f@),
                fv == datetime_formats(),
                trimmed@ == trim(text@),
                first_format_parse(trimmed@, fv) == first_format_parse(trimmed@, fv.skip(i as int)),
            decreases fmts@.len() - i,
        {
            proof {
                assert(fv.skip(i as int).drop_first() =~= fv.skip(i + 1));
                assert(fv.skip(i as int)[0] == fmts@[i as int]@);
            }
            match parse_naive(trimmed.as_str(), fmts[i]) {
                Some(d) => {
                    assert(first_format_parse(trimmed@, fv.skip(i as int)) == Some(d));
                    return Ok(d);
                },
                None => {},
            }
            i += 1;
        }
        assert(fv.skip(i as int) =~= Seq::<Seq<char>>::empty());
        match parse_rfc3339_utc(trimmed.as_str()) {
            Some(d) => Ok(d),
            None => {
                let mut m = String::from_str("Could not parse datetime: ");
                m.append(text);
                Err(ChainError::ParserError(m))
            },
        }
    }

    /// Describes the expected format.
    pub fn get_format_instructions(&self) -> (res: String)
        ensures
            res@ == "Return a datetime string in ISO 8601 format (e.g., 2024-01-01T00:00:00Z)."@,
    {
        String::from_str("Return a datetime string in ISO 8601 format (e.g., 2024-01-01T00:00:00Z).")
    }
}

/// The number of groups of a pattern, the whole match counted
/// (`regex::Regex::captures_len`).
pub uninterp spec fn regex_group_total(pattern: Seq<char>) -> nat;

/// Compiles `pattern` with `regex::Regex::new` and returns its
/// `captures_len`.
///
/// Claimed of the crate: compilation succeeds exactly when the pattern is
/// valid (as for every compilation here); the count is determined by the
/// pattern (named `regex_group_total`) and includes the whole match, so it
/// is at least one.
#[verifier::external_body]
fn regex_captures_len(pattern: &str) -> (r: Option<usize>)
    ensures
        r is Some <==> regex_is_valid(pattern@),
        r matches Some(n) ==> n == regex_group_total(pattern@) && n >= 1,
{
    regex::Regex::new(pattern).ok().map(|re| re.captures_len())
}

/// The text of group `g` in the first match of `pattern` in `text`, if
/// there is a match and the group took part in it.
pub open spec fn first_capture(pattern: Seq<char>, text: Seq<char>, g: nat) -> Option<Seq<char>> {
    let sp = char_spans(text, regex_capture_spans(pattern, text, g));
    if sp.len() > 0 {
        match sp[0] {
            Some(p) => Some(text.subrange(p.0, p.1)),
            None => None,
        }
    } else {
        None
    }
}

/// `group_<i - 1>` and the text of group `i`, for each group `1..=c` that
/// took part in the first match: the captured groups are named from
/// `group_0` on.
pub open spec fn numbered_pairs(pattern: Seq<char>, text: Seq<char>, c: nat) -> Seq<(Seq<char>, Seq<char>)>
    decreases c,
{
    if c == 0 {
        Seq::empty()
    } else {
        let rest = numbered_pairs(pattern, text, (c - 1) as nat);
        match first_capture(pattern, text, c) {
            Some(x) => rest.push(("group_"@ + decimal((c - 1) as nat), x)),
            None => rest,
        }
    }
}

/// Each key with the text of the group after its position (the first key
/// takes group 1), for the groups that took part in the first match.
pub open spec fn keyed_pairs(pattern: Seq<char>, text: Seq<char>, keys: Seq<Seq<char>>) -> Seq<(Seq<char>, Seq<char>)>
    decreases keys.len(),
{
    if keys.len() == 0 {
        Seq::empty()
    } else {
        let rest = keyed_pairs(pattern, text, keys.drop_last());
        match first_capture(pattern, text, keys.len()) {
            Some(x) => rest.push((keys.last(), x)),
            None => rest,
        }
    }
}

/// The map the pairs make, inserted in order (a later key replaces an
/// earlier one).
pub open spec fn pairs_map(pairs: Seq<(Seq<char>, Seq<char>)>) -> Map<Seq<char>, Seq<char>>
    decreases pairs.len(),
{
    if pairs.len() == 0 {
        Map::empty()
    } else {
        pairs_map(pairs.drop_last()).insert(pairs.last().0, pairs.last().1)
    }
}

/// What the regex parser reads from `text`: keyed `group_0`, `group_1`, …
/// without output keys, by the output keys otherwise.
pub open spec fn regex_pairs(pattern: Seq<char>, keys: Seq<Seq<char>>, text: Seq<char>) -> Seq<(Seq<char>, Seq<char>)> {
    if keys.len() == 0 {
        numbered_pairs(pattern, text, (regex_group_total(pattern) - 1) as nat)
    } else {
        keyed_pairs(pattern, text, keys)
    }
}

/// The text of group `g` in the first match, or `None` when there is none;
/// `Err` when the pattern does not compile.
fn first_group_text(pattern: &str, text: &str, chars: &Vec<char>, g: usize) -> (res: Result<Option<String>, ()>)
    requires
        chars@ == text@,
    ensures
        res is Ok <==> regex_is_valid(pattern@),
        res matches Ok(o) ==> match first_capture(pattern@, text@, g as nat) {
            Some(x) => o matches Some(s) && s@ == x,
            None => o is None,
        },
{
    let ranges = match capture_ranges(pattern, text, g) {
        Some(r) => r,
        None => return Err(()),
    };
    proof {
        let a = crate::pattern::spans_view(ranges@).map_values(|o: Option<(nat, nat)>| match o {
            Some(p) => Some((p.0 as int, p.1 as int)),
            None => None,
        });
        assert(a.len() == ranges@.len());
        if ranges@.len() > 0 {
            assert(a[0] == match ranges@[0] {
                Some(p) => Some((p.0 as int, p.1 as int)),
                None => None,
            });
        }
    }
    if ranges.len() == 0 {
        return Ok(None);
    }
    match ranges[0] {
        Some((a, b)) => {
            let piece = chars_between(chars.as_slice(), a, b);
            Ok(Some(string_from_chars(piece.as_slice())))
        },
        None => Ok(None),
    }
}

/// A parser that reads the capture groups of a regular expression's first
/// match, by output key or as `group_0`, `group_1`, ….
#[derive(Debug, Clone)]
pub struct RegexOutputParser {
    /// The pattern.
    pub regex: String,
    /// The names of the groups, first group first; empty to name them
    /// `group_0`, `group_1`, ….
    pub output_keys: Vec<String>,
}

impl RegexOutputParser {
    /// A parser for a pattern that compiles, without output keys.
    pub fn new(regex: &str) -> (res: Self)
        requires
            regex_is_valid(regex@),
        ensures
            res.regex@ == regex@,
            res.output_keys@.len() == 0,
    {
        RegexOutputParser { regex: regex.to_owned(), output_keys: Vec::new() }
    }

    /// A parser for the pattern, or `None` when it does not compile.
    pub fn try_new(regex: &str) -> (res: Option<Self>)
        ensures
            res is Some <==> regex_is_valid(regex@),
            res matches Some(p) ==> p.regex@ == regex@ && p.output_keys@.len() == 0,
    {
        match regex_captures_len(regex) {
            Some(_) => Some(RegexOutputParser::new(regex)),
            None => None,
        }
    }

    /// The parser with output keys.
    pub fn with_keys(self, keys: Vec<String>) -> (res: Self)
        ensures
            res.regex == self.regex,
            res.output_keys == keys,
    {
        RegexOutputParser { output_keys: keys, ..self }
    }

    /// The `(key, text)` pairs read from `text`, in order (see
    /// [`regex_pairs`]); a parser error when the pattern does not compile.
    pub fn parse_pairs(&self, text: &str) -> (res: Result<Vec<(String, String)>, ChainError>)
        ensures
            regex_is_valid(self.regex@) ==> (res matches Ok(v) && crate::utils::pair_views(v@) == regex_pairs(self.regex@, views(self.output_keys@), text@)),
            !regex_is_valid(self.regex@) ==> res matches Err(ChainError::ParserError(_)),
    {
        let total = match regex_captures_len(self.regex.as_str()) {
            Some(n) => n,
            None => {
                return Err(ChainError::ParserError(String::from_str("Regex compilation error: invalid pattern")));
            },
        };
        let chars = str_chars(text);
        let mut out: Vec<(String, String)> = Vec::new();
        if self.output_keys.len() == 0 {
            let mut g: usize = 1;
            while g < total
                invariant
                    chars@ == text@,
                    regex_is_valid(self.regex@),
                    total == regex_group_total(self.regex@),
                    1 <= g <= total,
                    crate::utils::pair_views(out@) == numbered_pairs(self.regex@, text@, (g - 1) as nat),
                decreases total - g,
            {
                let ghost before = crate::utils::pair_views(out@);
                match first_group_text(self.regex.as_str(), text, &chars, g) {
                    Err(_) => {
                        return Err(ChainError::ParserError(String::from_str("Regex compilation error: invalid pattern")));
                    },
                    Ok(Some(x)) => {
                        let mut key = String::from_str("group_");
                        let d = decimal_chars(g - 1);
                        let ds = string_from_chars(d.as_slice());
                        key.append(ds.as_str());
                        out.push((key, x));
                        assert(crate::utils::pair_views(out@) =~= numbered_pairs(self.regex@, text@, g as nat));
                    },
                    Ok(None) => {},
                }
                g += 1;
            }
            assert(views(self.output_keys@) =~= Seq::<Seq<char>>::empty());
        } else {
            let mut i: usize = 0;
            while i < self.output_keys.len()
                invariant
                    chars@ == text@,
                    regex_is_valid(self.regex@),
                    i <= self.output_keys@.len(),
                    crate::utils::pair_views(out@) == keyed_pairs(self.regex@, text@, views(self.output_keys@).take(i as int)),
                decreases self.output_keys@.len() - i,
            {
                proof {
                    assert(views(self.output_keys@).take(i + 1).drop_last() =~= views(self.output_keys@).take(i as int));
                    assert(views(self.output_keys@).take(i + 1).last() == self.output_keys@[i as int]@);
                }
                match first_group_text(self.regex.as_str(), text, &chars, i + 1) {
                    Err(_) => {
                        return Err(ChainError::ParserError(String::from_str("Regex compilation error: invalid pattern")));
                    },
                    Ok(Some(x)) => {
                        out.push((self.output_keys[i].clone(), x));
                        assert(crate::utils::pair_views(out@) =~= keyed_pairs(self.regex@, text@, views(self.output_keys@).take(i + 1)));
                    },
                    Ok(None) => {},
                }
                i += 1;
            }
            assert(views(self.output_keys@).take(self.output_keys@.len() as int) =~= views(self.output_keys@));
        }
        Ok(out)
    }

    /// The keys and texts read from `text` as a map (see [`pairs_map`]).
    pub fn parse_map(&self, text: &str) -> (res: Result<HashMap<String, String>, ChainError>)
        ensures
            regex_is_valid(self.regex@) ==> (res matches Ok(m) && string_map_view(m) == pairs_map(regex_pairs(self.regex@, views(self.output_keys@), text@))),
            !regex_is_valid(self.regex@) ==> res matches Err(ChainError::ParserError(_)),
    {
        let pairs = self.parse_pairs(text)?;
        let mut m = empty_map();
        let mut i: usize = 0;
        assert(string_map_view(m) =~= pairs_map(crate::utils::pair_views(pairs@).take(0)));
        while i < pairs.len()
            invariant
                i <= pairs@.len(),
                string_map_view(m) == pairs_map(crate::utils::pair_views(pairs@).take(i as int)),
            decreases pairs@.len() - i,
        {
            proof {
                assert(crate::utils::pair_views(pairs@).take(i + 1).drop_last() =~= crate::utils::pair_views(pairs@).take(i as int));
                assert(crate::utils::pair_views(pairs@).take(i + 1).last() == (pairs@[i as int].0@, pairs@[i as int].1@));
            }
            map_insert(&mut m, pairs[i].0.clone(), pairs[i].1.clone());
            i += 1;
        }
        assert(crate::utils::pair_views(pairs@).take(pairs@.len() as int) =~= crate::utils::pair_views(pairs@));
        Ok(m)
    }

    /// The instructions for the expected output: text matching the pattern.
    pub fn format_instructions(&self) -> (res: String)
        ensures
            res@ == "Return text matching the regex pattern: "@ + self.regex@,
    {
        let mut s = String::from_str("Return text matching the regex pattern: ");
        s.append(self.regex.as_str());
        s
    }
}

impl OutputParser<HashMap<String, String>> for RegexOutputParser {
    fn parse(&self, text: &str) -> (res: Result<HashMap<String, String>, ChainError>)
        ensures
            regex_is_valid(self.regex@) ==> (res matches Ok(m) && string_map_view(m) == pairs_map(regex_pairs(self.regex@, views(self.output_keys@), text@))),
            !regex_is_valid(self.regex@) ==> res matches Err(ChainError::ParserError(_)),
    {
        self.parse_map(text)
    }

    fn get_format_instructions(&self) -> (res: String)
        ensures
            res@ == "Return text matching the regex pattern: "@ + self.regex@,
    {
        self.format_instructions()
    }
}

} // verus!
