//! Output parsers for JSON responses in the OpenAI function- and
//! tool-calling shapes.

use crate::errors::ChainError;
use crate::json::{json_parse, member, parse_json, JsonKind, JsonNode};
use crate::output_parsers::OutputParser;
use crate::text::{str_chars, string_from_chars, trim, trim_chars};
use vstd::prelude::*;

verus! {

broadcast use vstd::seq_lib::group_seq_properties;

/// Parses the trimmed text as JSON; a parse failure is a parser error with
/// the parser's message.
fn parse_trimmed(text: &str) -> (r: Result<JsonNode, ChainError>)
    ensures
        match json_parse(trim(text@)) {
            Ok(v) => r == Ok::<JsonNode, ChainError>(v),
            Err(m) => r matches Err(ChainError::ParserError(e)) && e@ == m@,
        },
{
    let t = str_chars(text);
    let tt = trim_chars(t.as_slice());
    let s = string_from_chars(tt.as_slice());
    match parse_json(s.as_str()) {
        Ok(v) => Ok(v),
        Err(m) => Err(ChainError::ParserError(m)),
    }
}

/// The value a field extractor returns: the member `key` when present,
/// otherwise the whole value.
pub open spec fn member_or_whole(v: JsonNode, key: Seq<char>) -> JsonNode {
    match member(v, key) {
        Some(m) => m,
        None => v,
    }
}

/// What a field extractor returns for `text`: the member `key` of the
/// parsed trimmed text, or the whole value; a parser error when it is not
/// JSON.
pub open spec fn extract_result(text: Seq<char>, key: Seq<char>, r: Result<JsonNode, ChainError>) -> bool {
    match json_parse(trim(text)) {
        Ok(v) => r == Ok::<JsonNode, ChainError>(member_or_whole(v, key)),
        Err(m) => r matches Err(ChainError::ParserError(e)) && e@ == m@,
    }
}

/// Parses the trimmed text and returns its member `key`, or the whole
/// value when there is none.
fn extract_member(text: &str, key: &str) -> (r: Result<JsonNode, ChainError>)
    ensures
        extract_result(text@, key@, r),
{
    let v = match parse_trimmed(text) {
        Ok(v) => v,
        Err(e) => {
            return Err(e);
        },
    };
    let has = v.get(key).is_some();
    if has {
        match v.into_member(key) {
            Some(m) => Ok(m),
            None => Err(ChainError::ParserError(String::from_str("missing member"))),
        }
    } else {
        Ok(v)
    }
}

/// Parses OpenAI function-call responses: the `function_call` member of the
/// JSON object, or the whole value when it has none.
#[derive(Debug, Clone)]
pub struct OpenAIFunctionsOutputParser;

impl OutputParser<JsonNode> for OpenAIFunctionsOutputParser {
    fn parse(&self, text: &str) -> (r: Result<JsonNode, ChainError>)
        ensures
            extract_result(text@, "function_call"@, r),
    {
        extract_member(text, "function_call")
    }

    fn get_format_instructions(&self) -> String {
        String::from_str("Return a JSON object with a 'function_call' key containing 'name' and 'arguments'.")
    }
}

/// Parses OpenAI tool-call responses: the `tool_calls` member of the JSON
/// object, or the whole value when it has none.
#[derive(Debug, Clone)]
pub struct OpenAIToolsOutputParser;

impl OutputParser<JsonNode> for OpenAIToolsOutputParser {
    fn parse(&self, text: &str) -> (r: Result<JsonNode, ChainError>)
        ensures
            extract_result(text@, "tool_calls"@, r),
    {
        extract_member(text, "tool_calls")
    }

    fn get_format_instructions(&self) -> String {
        String::from_str("Return a JSON object with a 'tool_calls' array.")
    }
}

/// The arguments value of a call: a string argument is parsed as JSON
/// (its parser message on failure), any other value is kept.
pub open spec fn arguments_value(a: JsonNode) -> Result<JsonNode, String> {
    match a.kind {
        JsonKind::Str(s) => json_parse(s@),
        _ => Ok(a),
    }
}

/// What [`JsonOutputFunctionsParser`] returns for `text`.
pub open spec fn functions_result(text: Seq<char>, r: Result<JsonNode, ChainError>) -> bool {
    match json_parse(trim(text)) {
        Ok(v) => match member(v, "arguments"@) {
            Some(a) => match arguments_value(a) {
                Ok(x) => r == Ok::<JsonNode, ChainError>(x),
                Err(m) => r matches Err(ChainError::ParserError(e)) && e@ == m@,
            },
            None => r == Ok::<JsonNode, ChainError>(v),
        },
        Err(m) => r matches Err(ChainError::ParserError(e)) && e@ == m@,
    }
}

/// Turns an arguments value into its parsed form.
fn parse_arguments(a: JsonNode) -> (r: Result<JsonNode, ChainError>)
    ensures
        match arguments_value(a) {
            Ok(x) => r == Ok::<JsonNode, ChainError>(x),
            Err(m) => r matches Err(ChainError::ParserError(e)) && e@ == m@,
        },
{
    let is_str = a.as_str().is_some();
    if is_str {
        match a.kind {
            JsonKind::Str(s) => match parse_json(s.as_str()) {
                Ok(x) => Ok(x),
                Err(m) => Err(ChainError::ParserError(m)),
            },
            _ => Ok(a),
        }
    } else {
        Ok(a)
    }
}

/// Parses the JSON in a function call's `arguments` member: a string
/// argument is itself parsed as JSON; without `arguments` the whole value
/// is returned.
#[derive(Debug, Clone)]
pub struct JsonOutputFunctionsParser;

impl OutputParser<JsonNode> for JsonOutputFunctionsParser {
    fn parse(&self, text: &str) -> (r: Result<JsonNode, ChainError>)
        ensures
            functions_result(text@, r),
    {
        let v = match parse_trimmed(text) {
            Ok(v) => v,
            Err(e) => {
                return Err(e);
            },
        };
        let has = v.get("arguments").is_some();
        if has {
            match v.into_member("arguments") {
                Some(a) => parse_arguments(a),
                None => Err(ChainError::ParserError(String::from_str("missing member"))),
            }
        } else {
            Ok(v)
        }
    }

    fn get_format_instructions(&self) -> String {
        String::from_str("Return a JSON object inside a function call's 'arguments' field.")
    }
}

/// The `function.arguments` member of a tool call, if present.
pub open spec fn call_arguments(call: JsonNode) -> Option<JsonNode> {
    match member(call, "function"@) {
        Some(f) => member(f, "arguments"@),
        None => None,
    }
}

/// The parsed arguments of the tool calls, in order (calls without
/// arguments contribute nothing); the first string argument that fails to
/// parse gives its message.
pub open spec fn tool_arguments(calls: Seq<JsonNode>) -> Result<Seq<JsonNode>, String>
    decreases calls.len(),
{
    if calls.len() == 0 {
        Ok(Seq::empty())
    } else {
        match tool_arguments(calls.drop_last()) {
            Err(m) => Err(m),
            Ok(rs) => match call_arguments(calls.last()) {
                None => Ok(rs),
                Some(a) => match arguments_value(a) {
                    Ok(x) => Ok(rs.push(x)),
                    Err(m) => Err(m),
                },
            },
        }
    }
}

/// Some tool call has `function.arguments`.
pub open spec fn any_arguments(calls: Seq<JsonNode>) -> bool {
    exists|i: int| 0 <= i < calls.len() && (#[trigger] call_arguments(calls[i])) is Some
}

/// The tool calls of a value: the items of its `tool_calls` array.
pub open spec fn tool_calls_of(v: JsonNode) -> Option<Seq<JsonNode>> {
    match member(v, "tool_calls"@) {
        Some(tc) => match tc.kind {
            JsonKind::Array(items) => Some(items@),
            _ => None,
        },
        None => None,
    }
}

/// What [`JsonOutputToolsParser`] returns for `text`: the parsed arguments
/// of its tool calls when there are any, otherwise the whole value alone.
pub open spec fn tools_result(text: Seq<char>, r: Result<Vec<JsonNode>, ChainError>) -> bool {
    match json_parse(trim(text)) {
        Ok(v) => if tool_calls_of(v) matches Some(calls) && any_arguments(calls) {
            match tool_arguments(tool_calls_of(v)->Some_0) {
                Ok(xs) => r matches Ok(out) && out@ == xs,
                Err(m) => r matches Err(ChainError::ParserError(e)) && e@ == m@,
            }
        } else {
            r matches Ok(out) && out@ == seq![v]
        },
        Err(m) => r matches Err(ChainError::ParserError(e)) && e@ == m@,
    }
}

/// Whether any of the calls has `function.arguments`.
fn has_any_arguments(calls: &Vec<JsonNode>) -> (b: bool)
    ensures
        b == any_arguments(calls@),
{
    let mut i: usize = 0;
    while i < calls.len()
        invariant
            i <= calls@.len(),
            forall|k: int| 0 <= k < i ==> (#[trigger] call_arguments(calls@[k])) is None,
        decreases calls@.len() - i,
    {
        let f = calls[i].get("function");
        let found = match f {
            Some(x) => x.get("arguments").is_some(),
            None => false,
        };
        if found {
            assert(call_arguments(calls@[i as int]) is Some);
            return true;
        }
        i += 1;
    }
    false
}

/// Whether the value's `tool_calls` is an array with some call that has
/// `function.arguments`.
fn has_tool_arguments(v: &JsonNode) -> (b: bool)
    ensures
        b == (tool_calls_of(*v) matches Some(calls) && any_arguments(calls)),
{
    match v.get("tool_calls") {
        Some(tc) => match &tc.kind {
            JsonKind::Array(items) => has_any_arguments(items),
            _ => false,
        },
        None => false,
    }
}

/// Collects the parsed arguments of the tool calls.
fn collect_arguments(calls: Vec<JsonNode>) -> (r: Result<Vec<JsonNode>, ChainError>)
    ensures
        match tool_arguments(calls@) {
            Ok(xs) => r matches Ok(out) && out@ == xs,
            Err(m) => r matches Err(ChainError::ParserError(e)) && e@ == m@,
        },
{
    let ghost orig = calls@;
    assert(calls@.len() == calls.len());
    let mut rest = calls;
    let mut out: Vec<JsonNode> = Vec::new();
    let mut k: usize = 0;
    while rest.len() > 0
        invariant
            k <= orig.len(),
            orig == calls@,
            orig.len() <= usize::MAX,
            rest@ == orig.skip(k as int),
            tool_arguments(orig.take(k as int)) == Ok::<Seq<JsonNode>, String>(out@),
        decreases rest@.len(),
    {
        let call = rest.remove(0);
        proof {
            assert(call == orig[k as int]);
            assert(orig.take(k + 1).drop_last() =~= orig.take(k as int));
            assert(orig.take(k + 1).last() == orig[k as int]);
            assert(orig.skip(k as int).remove(0) =~= orig.skip(k + 1));
        }
        let has_func = call.get("function").is_some();
        if has_func {
            match call.into_member("function") {
                Some(f) => {
                    let has_args = f.get("arguments").is_some();
                    if has_args {
                        match f.into_member("arguments") {
                            Some(a) => {
                                assert(call_arguments(orig[k as int]) == Some(a));
                                let ghost av = arguments_value(a);
                                match parse_arguments(a) {
                                    Ok(x) => {
                                        out.push(x);
                                    },
                                    Err(e) => {
                                        proof {
                                            assert(av is Err);
                                            assert(tool_arguments(orig.take(k + 1)) == Err::<Seq<JsonNode>, String>(av->Err_0));
                                            lemma_tool_arguments_err(orig, k as int + 1);
                                        }
                                        return Err(e);
                                    },
                                }
                            },
                            None => {},
                        }
                    }
                },
                None => {},
            }
        }
        k += 1;
    }
    assert(orig.take(orig.len() as int) =~= orig);
    Ok(out)
}

/// Once a prefix of the calls fails, so do all longer ones.
proof fn lemma_tool_arguments_err(calls: Seq<JsonNode>, n: int)
    requires
        0 < n <= calls.len(),
        tool_arguments(calls.take(n)) is Err,
    ensures
        tool_arguments(calls) == tool_arguments(calls.take(n)),
    decreases calls.len() - n,
{
    if n < calls.len() {
        assert(calls.take(n + 1).drop_last() =~= calls.take(n));
        lemma_tool_arguments_err(calls, n + 1);
    } else {
        assert(calls.take(n) =~= calls);
    }
}

/// Parses the arguments of each tool call (`tool_calls[i].function.arguments`,
/// string arguments parsed as JSON); when there are none, the whole value
/// is the single result.
#[derive(Debug, Clone)]
pub struct JsonOutputToolsParser;

impl OutputParser<Vec<JsonNode>> for JsonOutputToolsParser {
    fn parse(&self, text: &str) -> (r: Result<Vec<JsonNode>, ChainError>)
        ensures
            tools_result(text@, r),
    {
        let v = match parse_trimmed(text) {
            Ok(v) => v,
            Err(e) => {
                return Err(e);
            },
        };
        let ghost gv = v;
        assert(json_parse(trim(text@)) == Ok::<JsonNode, String>(gv));
        if has_tool_arguments(&v) {
            match v.into_member("tool_calls") {
                Some(tc) => match tc.kind {
                    JsonKind::Array(items) => {
                        assert(tool_calls_of(gv) == Some(items@));
                        let r = collect_arguments(items);
                        assert(tool_calls_of(gv) matches Some(calls) && any_arguments(calls));
                        assert(tools_result(text@, r));
                        r
                    },
                    _ => Err(ChainError::ParserError(String::from_str("missing member"))),
                },
                None => Err(ChainError::ParserError(String::from_str("missing member"))),
            }
        } else {
            let out = vec![v];
            assert(out@ =~= seq![gv]);
            assert(!(tool_calls_of(gv) matches Some(calls) && any_arguments(calls)));
            assert(tools_result(text@, Ok::<Vec<JsonNode>, ChainError>(out)));
            Ok(out)
        }
    }

    fn get_format_instructions(&self) -> String {
        String::from_str("Return a JSON object with 'tool_calls' array where each element has 'function.arguments'.")
    }
}

} // verus!
