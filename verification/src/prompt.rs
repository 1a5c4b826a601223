//! Prompt templating: string templates with `{variable}` placeholders, chat
//! message templates, few-shot templates and image prompt templates.

use crate::errors::ChainError;
use crate::json::{member, JsonKind, JsonNode};
use crate::messages::{BaseMessage, MessageType};
use crate::pattern::{capture_ranges, char_spans, regex_capture_spans, regex_is_valid};
use crate::text::{
    cviews, join, join_strings, replace_all, replace_chars, str_chars, string_from_chars, views,
};
use std::collections::HashMap;
use vstd::prelude::*;

verus! {

broadcast use vstd::seq_lib::group_seq_properties;

/// A map from strings to strings.
pub type StringMap = HashMap<String, String>;

/// What a `HashMap<String, String>` holds: each key's characters mapped to
/// its value's characters.
pub uninterp spec fn string_map_view(m: HashMap<String, String>) -> Map<Seq<char>, Seq<char>>;

/// Looks `key` up in a string map (`HashMap::get`).
///
/// Claimed of std: the value is returned exactly when the map holds an
/// entry whose key has the same characters as `key`, and it is that entry's
/// value.
#[verifier::external_body]
pub(crate) fn map_get(m: &HashMap<String, String>, key: &str) -> (res: Option<String>)
    ensures
        res is Some <==> string_map_view(*m).contains_key(key@),
        res matches Some(v) ==> v@ == string_map_view(*m)[key@],
{
    m.get(key).cloned()
}

/// An empty string map (`HashMap::new`).
///
/// Claimed of std: the new map holds no entry.
#[verifier::external_body]
pub(crate) fn empty_map() -> (res: StringMap)
    ensures
        string_map_view(res).is_empty(),
{
    HashMap::<String, String>::new()
}

/// Inserts an entry into a string map (`HashMap::insert`).
///
/// Claimed of std: afterwards the map holds `value` under `key` and is
/// otherwise unchanged.
#[verifier::external_body]
pub(crate) fn map_insert(m: &mut HashMap<String, String>, key: String, value: String)
    ensures
        string_map_view(*final(m)) == string_map_view(*old(m)).insert(key@, value@),
{
    m.insert(key, value);
}

/// The pattern that matches a `{variable}` placeholder, the variable name
/// being capture group 1.
pub open spec fn placeholder_pattern() -> Seq<char> {
    "\\{(\\w+)\\}"@
}

/// The texts of the participating capture ranges, in order.
pub open spec fn range_texts(text: Seq<char>, ranges: Seq<Option<(int, int)>>) -> Seq<Seq<char>>
    decreases ranges.len(),
{
    if ranges.len() == 0 {
        Seq::empty()
    } else {
        let rest = range_texts(text, ranges.drop_last());
        match ranges.last() {
            Some(p) => rest.push(text.subrange(p.0, p.1)),
            None => rest,
        }
    }
}

/// The variable names of a template: the text of capture group 1 of every
/// placeholder match, in order (empty when the pattern does not compile).
pub open spec fn template_variables(template: Seq<char>) -> Seq<Seq<char>> {
    if regex_is_valid(placeholder_pattern()) {
        range_texts(template, char_spans(template, regex_capture_spans(placeholder_pattern(), template, 1)))
    } else {
        Seq::empty()
    }
}

/// The texts of the participating ranges of `text`.
fn texts_of_ranges(text: &[char], ranges: &Vec<Option<(usize, usize)>>) -> (res: Vec<String>)
    requires
        forall|i: int| #![trigger ranges@[i]] 0 <= i < ranges@.len() ==> (ranges@[i] matches Some(p) ==> p.0 <= p.1 <= text@.len()),
    ensures
        views(res@) == range_texts(text@, ranges@.map_values(|o: Option<(usize, usize)>| match o {
            Some(p) => Some((p.0 as int, p.1 as int)),
            None => None,
        })),
{
    let ghost rv = ranges@.map_values(|o: Option<(usize, usize)>| match o {
        Some(p) => Some((p.0 as int, p.1 as int)),
        None => None,
    });
    let mut out: Vec<String> = Vec::new();
    let mut i: usize = 0;
    while i < ranges.len()
        invariant
            i <= ranges@.len(),
            rv == ranges@.map_values(|o: Option<(usize, usize)>| match o {
                Some(p) => Some((p.0 as int, p.1 as int)),
                None => None,
            }),
            forall|k: int| #![trigger ranges@[k]] 0 <= k < ranges@.len() ==> (ranges@[k] matches Some(p) ==> p.0 <= p.1 <= text@.len()),
            views(out@) == range_texts(text@, rv.take(i as int)),
        decreases ranges@.len() - i,
    {
        proof {
            assert(rv.take(i + 1).drop_last() =~= rv.take(i as int));
            assert(rv.take(i + 1).last() == rv[i as int]);
        }
        match ranges[i] {
            Some((a, b)) => {
                let piece = string_from_chars(vstd::slice::slice_subrange(text, a, b));
                proof {
                    assert(views(out@.push(piece)) =~= views(out@).push(piece@));
                }
                out.push(piece);
            },
            None => {},
        }
        i += 1;
    }
    assert(rv.take(ranges@.len() as int) =~= rv);
    out
}

/// The variable names of `template`, in order of appearance.
pub fn template_variable_names(template: &str) -> (res: Vec<String>)
    ensures
        views(res@) == template_variables(template@),
{
    let t = str_chars(template);
    match capture_ranges("\\{(\\w+)\\}", template, 1) {
        Some(ranges) => {
            proof {
                let a = ranges@.map_values(|o: Option<(usize, usize)>| match o {
                    Some(p) => Some((p.0 as int, p.1 as int)),
                    None => None,
                });
                let b = crate::pattern::spans_view(ranges@).map_values(|o: Option<(nat, nat)>| match o {
                    Some(p) => Some((p.0 as int, p.1 as int)),
                    None => None,
                });
                assert(a.len() == b.len());
                assert forall|k: int| 0 <= k < a.len() implies a[k] == b[k] by {
                    assert(ranges@[k] == ranges@[k]);
                }
                assert(a =~= b);
            }
            texts_of_ranges(t.as_slice(), &ranges)
        },
        None => Vec::new(),
    }
}

/// The result of formatting `text` with the variables `keys` in turn: each
/// `{key}` is replaced by the key's value in `kwargs`, else in `partial`;
/// a key found in neither is an error when `validate` is set and is left in
/// place otherwise. The error carries the missing key.
pub open spec fn format_keys(
    text: Seq<char>,
    keys: Seq<Seq<char>>,
    kwargs: Map<Seq<char>, Seq<char>>,
    partial: Map<Seq<char>, Seq<char>>,
    validate: bool,
) -> Result<Seq<char>, Seq<char>>
    decreases keys.len(),
{
    if keys.len() == 0 {
        Ok(text)
    } else {
        match format_keys(text, keys.drop_last(), kwargs, partial, validate) {
            Err(k) => Err(k),
            Ok(r) => {
                let key = keys.last();
                let pat = "{"@ + key + "}"@;
                if kwargs.contains_key(key) {
                    Ok(replace_all(r, pat, kwargs[key]))
                } else if partial.contains_key(key) {
                    Ok(replace_all(r, pat, partial[key]))
                } else if validate {
                    Err(key)
                } else {
                    Ok(r)
                }
            },
        }
    }
}

/// A string prompt template with `{variable}` placeholders.
#[derive(Debug, Clone)]
pub struct PromptTemplate {
    /// The raw template string with `{variable}` placeholders.
    pub template: String,
    /// List of variable names extracted from the template.
    pub input_variables: Vec<String>,
    /// Variables that are pre-filled (not required at format time).
    pub partial_variables: HashMap<String, String>,
    /// Whether a missing variable is an error at format time.
    pub validate_template: bool,
}

impl PromptTemplate {
    /// The outcome of formatting this template with `kwargs`: the text, or
    /// the first variable found in neither `kwargs` nor the partial
    /// variables (when validation is on).
    pub open spec fn spec_format(&self, kwargs: Map<Seq<char>, Seq<char>>) -> Result<Seq<char>, Seq<char>> {
        format_keys(
            self.template@,
            template_variables(self.template@),
            kwargs,
            string_map_view(self.partial_variables),
            self.validate_template,
        )
    }

    /// Creates a new `PromptTemplate` from a template string; its input
    /// variables are the names of its `{variable}` placeholders, in order.
    pub fn from_template(template: &str) -> (res: Self)
        ensures
            res.template@ == template@,
            views(res.input_variables@) == template_variables(template@),
            string_map_view(res.partial_variables).is_empty(),
            res.validate_template,
    {
        let input_variables = template_variable_names(template);
        PromptTemplate {
            template: template.to_owned(),
            input_variables,
            partial_variables: empty_map(),
            validate_template: true,
        }
    }

    /// Sets the partial variables (builder pattern).
    pub fn with_partial(self, partial: HashMap<String, String>) -> (res: Self)
        ensures
            res.template == self.template,
            res.input_variables == self.input_variables,
            res.partial_variables == partial,
            res.validate_template == self.validate_template,
    {
        PromptTemplate {
            template: self.template,
            input_variables: self.input_variables,
            partial_variables: partial,
            validate_template: self.validate_template,
        }
    }

    /// Formats the template by substituting each variable with its value
    /// from `kwargs`, or else from the partial variables.
    ///
    /// Returns [`ChainError::PromptError`] (`"Missing variable: <key>"`) for
    /// the first variable found in neither, when validation is on.
    pub fn format(&self, kwargs: &HashMap<String, String>) -> (res: Result<String, ChainError>)
        ensures
            match self.spec_format(string_map_view(*kwargs)) {
                Ok(text) => res matches Ok(s) && s@ == text,
                Err(key) => res matches Err(ChainError::PromptError(m)) && m@ == "Missing variable: "@ + key,
            },
    {
        let keys = template_variable_names(self.template.as_str());
        let ghost kw = string_map_view(*kwargs);
        let ghost pv = string_map_view(self.partial_variables);
        let mut result = str_chars(self.template.as_str());
        let mut i: usize = 0;
        while i < keys.len()
            invariant
                i <= keys@.len(),
                views(keys@) == template_variables(self.template@),
                kw == string_map_view(*kwargs),
                pv == string_map_view(self.partial_variables),
                format_keys(self.template@, views(keys@).take(i as int), kw, pv, self.validate_template) == Ok::<Seq<char>, Seq<char>>(result@),
            decreases keys@.len() - i,
        {
            let key = keys[i].as_str();
            proof {
                assert(views(keys@).take(i + 1).drop_last() =~= views(keys@).take(i as int));
                assert(views(keys@).take(i + 1).last() == key@);
            }
            let mut pat: Vec<char> = Vec::new();
            pat.push('{');
            let kc = str_chars(key);
            crate::text::push_all(&mut pat, kc.as_slice());
            pat.push('}');
            proof {
                reveal_strlit("{");
                reveal_strlit("}");
                assert(pat@ =~= "{"@ + key@ + "}"@);
            }
            match map_get(kwargs, key) {
                Some(val) => {
                    let vc = str_chars(val.as_str());
                    result = replace_chars(result.as_slice(), pat.as_slice(), vc.as_slice());
                },
                None => match map_get(&self.partial_variables, key) {
                    Some(val) => {
                        let vc = str_chars(val.as_str());
                        result = replace_chars(result.as_slice(), pat.as_slice(), vc.as_slice());
                    },
                    None => {
                        if self.validate_template {
                            let mut m = String::from_str("Missing variable: ");
                            m.append(key);
                            proof {
                                let mut j = i + 1;
                                assert(format_keys(self.template@, views(keys@).take(i + 1), kw, pv, self.validate_template) == Err::<Seq<char>, Seq<char>>(key@));
                                lemma_format_keys_err_sticks(self.template@, views(keys@), kw, pv, self.validate_template, i + 1);
                                assert(views(keys@).take(keys@.len() as int) =~= views(keys@));
                            }
                            return Err(ChainError::PromptError(m));
                        }
                    },
                },
            }
            i += 1;
        }
        assert(views(keys@).take(keys@.len() as int) =~= views(keys@));
        Ok(string_from_chars(result.as_slice()))
    }

    /// Returns the list of input variable names.
    pub fn get_input_variables(&self) -> (res: &[String])
        ensures
            res@ == self.input_variables@,
    {
        self.input_variables.as_slice()
    }

    /// Checks that every placeholder of the template names an input variable
    /// or a partial variable; the error names the first one that does not.
    pub fn validate_template(&self) -> (res: Result<(), ChainError>)
        ensures
            res is Ok <==> forall|k: int| 0 <= k < template_variables(self.template@).len() ==> (
                views(self.input_variables@).contains(#[trigger] template_variables(self.template@)[k])
                || string_map_view(self.partial_variables).contains_key(template_variables(self.template@)[k])),
    {
        let keys = template_variable_names(self.template.as_str());
        let mut i: usize = 0;
        while i < keys.len()
            invariant
                i <= keys@.len(),
                views(keys@) == template_variables(self.template@),
                forall|k: int| 0 <= k < i ==> (views(self.input_variables@).contains(#[trigger] views(keys@)[k])
                    || string_map_view(self.partial_variables).contains_key(views(keys@)[k])),
            decreases keys@.len() - i,
        {
            let key = keys[i].as_str();
            let found = contains_text(&self.input_variables, key);
            let in_partial = map_get(&self.partial_variables, key).is_some();
            if !found && !in_partial {
                let mut m = String::from_str("Variable ");
                m.append(key);
                m.append(" not in input variables");
                assert(views(keys@)[i as int] == key@);
                return Err(ChainError::PromptError(m));
            }
            i += 1;
        }
        Ok(())
    }
}

/// A value given at format time wins over a partial variable of the same
/// name, and partial variables fill in only the names missing from the
/// arguments: formatting with arguments `kwargs` and partial variables
/// `partial` is formatting with no partial variables and the arguments
/// `partial` overridden by `kwargs`.
pub proof fn law_format_arguments_override_partials(
    text: Seq<char>,
    keys: Seq<Seq<char>>,
    kwargs: Map<Seq<char>, Seq<char>>,
    partial: Map<Seq<char>, Seq<char>>,
    validate: bool,
)
    ensures
        format_keys(text, keys, kwargs, partial, validate)
            == format_keys(text, keys, partial.union_prefer_right(kwargs), Map::empty(), validate),
    decreases keys.len(),
{
    if keys.len() > 0 {
        law_format_arguments_override_partials(text, keys.drop_last(), kwargs, partial, validate);
    }
}

/// A template's formatting uses each argument given for a variable,
/// whatever the partial variables hold, and a partial variable only where
/// no argument is given.
pub proof fn law_template_arguments_override_partials(t: PromptTemplate, kwargs: Map<Seq<char>, Seq<char>>)
    ensures
        t.spec_format(kwargs) == format_keys(
            t.template@,
            template_variables(t.template@),
            string_map_view(t.partial_variables).union_prefer_right(kwargs),
            Map::empty(),
            t.validate_template,
        ),
{
    law_format_arguments_override_partials(
        t.template@,
        template_variables(t.template@),
        kwargs,
        string_map_view(t.partial_variables),
        t.validate_template,
    );
}

/// An error in an early key stays the result of formatting.
proof fn lemma_format_keys_err_sticks(
    text: Seq<char>,
    keys: Seq<Seq<char>>,
    kw: Map<Seq<char>, Seq<char>>,
    pv: Map<Seq<char>, Seq<char>>,
    validate: bool,
    n: int,
)
    requires
        0 <= n <= keys.len(),
        format_keys(text, keys.take(n), kw, pv, validate) is Err,
    ensures
        format_keys(text, keys, kw, pv, validate) == format_keys(text, keys.take(n), kw, pv, validate),
    decreases keys.len() - n,
{
    if n < keys.len() {
        assert(keys.take(n + 1).drop_last() =~= keys.take(n));
        lemma_format_keys_err_sticks(text, keys, kw, pv, validate, n + 1);
    } else {
        assert(keys.take(n) =~= keys);
    }
}

/// Whether `list` holds a string with the characters of `key`.
pub fn contains_text(list: &Vec<String>, key: &str) -> (b: bool)
    ensures
        b == views(list@).contains(key@),
{
    let kc = str_chars(key);
    let mut i: usize = 0;
    while i < list.len()
        invariant
            i <= list@.len(),
            kc@ == key@,
            forall|k: int| 0 <= k < i ==> list@[k]@ != key@,
        decreases list@.len() - i,
    {
        let c = str_chars(list[i].as_str());
        if crate::text::chars_equal(c.as_slice(), kc.as_slice()) {
            assert(views(list@)[i as int] == key@);
            return true;
        }
        i += 1;
    }
    assert forall|k: int| 0 <= k < views(list@).len() implies views(list@)[k] != key@ by {
        assert(views(list@)[k] == list@[k]@);
    }
    false
}


/// The message type whose rendered name is `s`, if any.
pub open spec fn message_value_typed(s: Seq<char>) -> Option<MessageType> {
    if s == "Human"@ {
        Some(MessageType::Human)
    } else if s == "AI"@ {
        Some(MessageType::AI)
    } else if s == "System"@ {
        Some(MessageType::System)
    } else if s == "Tool"@ {
        Some(MessageType::Tool)
    } else if s == "Function"@ {
        Some(MessageType::Function)
    } else if s == "Generic"@ {
        Some(MessageType::Generic)
    } else if s == "Chat"@ {
        Some(MessageType::Chat)
    } else {
        None
    }
}

/// The message type named by `s`.
pub fn parse_message_type(s: &str) -> (res: Option<MessageType>)
    ensures
        res == message_value_typed(s@),
{
    let c = str_chars(s);
    let names: [(&str, MessageType); 7] = [
        ("Human", MessageType::Human),
        ("AI", MessageType::AI),
        ("System", MessageType::System),
        ("Tool", MessageType::Tool),
        ("Function", MessageType::Function),
        ("Generic", MessageType::Generic),
        ("Chat", MessageType::Chat),
    ];
    let mut i: usize = 0;
    while i < 7
        invariant
            c@ == s@,
            names@ == seq![
                ("Human", MessageType::Human),
                ("AI", MessageType::AI),
                ("System", MessageType::System),
                ("Tool", MessageType::Tool),
                ("Function", MessageType::Function),
                ("Generic", MessageType::Generic),
                ("Chat", MessageType::Chat),
            ],
            0 <= i <= 7,
            forall|k: int| 0 <= k < i ==> s@ != names@[k].0@,
        decreases 7 - i,
    {
        let (name, t) = names[i];
        let nc = str_chars(name);
        if crate::text::chars_equal(c.as_slice(), nc.as_slice()) {
            return Some(t);
        }
        i += 1;
    }
    None
}

/// Whether `text` is a JSON array of objects whose values are all strings,
/// and if so the entries of each object.
pub uninterp spec fn json_string_objects(text: Seq<char>) -> Option<Seq<Map<Seq<char>, Seq<char>>>>;

/// Parses `text` as a JSON array of string-valued objects
/// (`serde_json::from_str::<Vec<HashMap<String, String>>>`).
///
/// Claimed of the crate: the parse succeeds exactly when the named result is
/// present, and each returned map holds the entries of the corresponding
/// object. Which texts parse is left to the name.
#[verifier::external_body]
fn parse_json_string_objects(text: &str) -> (res: Result<Vec<HashMap<String, String>>, serde_json::Error>)
    ensures
        res is Ok <==> json_string_objects(text@) is Some,
        res matches Ok(v) ==> v@.map_values(|m: HashMap<String, String>| string_map_view(m))
            == json_string_objects(text@)->Some_0,
{
    serde_json::from_str::<Vec<HashMap<String, String>>>(text)
}


/// A message as its content and role.
pub open spec fn msg_view(m: BaseMessage) -> (Seq<char>, MessageType) {
    (m.content@, m.message_type)
}

/// The messages that an object list describes: each object must carry a
/// `content` entry and a `message_type` entry naming a message type.
pub open spec fn decode_objects(objs: Seq<Map<Seq<char>, Seq<char>>>) -> Option<Seq<(Seq<char>, MessageType)>>
    decreases objs.len(),
{
    if objs.len() == 0 {
        Some(Seq::empty())
    } else {
        match decode_objects(objs.drop_last()) {
            None => None,
            Some(rest) => {
                let o = objs.last();
                if o.contains_key("content"@) && o.contains_key("message_type"@)
                    && message_value_typed(o["message_type"@]) is Some {
                    Some(rest.push((o["content"@], message_value_typed(o["message_type"@])->Some_0)))
                } else {
                    None
                }
            },
        }
    }
}

/// The messages serialized in `text` (a JSON list of `{"content", "message_type"}`
/// objects), if it is one.
pub open spec fn decode_messages(text: Seq<char>) -> Option<Seq<(Seq<char>, MessageType)>> {
    match json_string_objects(text) {
        Some(objs) => decode_objects(objs),
        None => None,
    }
}

/// Decodes a JSON list of messages; the error is the parser's message, or
/// a description of the first malformed entry.
fn decode_message_list(text: &str) -> (res: Result<Vec<BaseMessage>, String>)
    ensures
        res is Ok <==> decode_messages(text@) is Some,
        res matches Ok(v) ==> v@.map_values(|m: BaseMessage| msg_view(m)) == decode_messages(text@)->Some_0,
{
    let objs = match parse_json_string_objects(text) {
        Ok(o) => o,
        Err(e) => return Err(crate::errors::json_error_text(&e)),
    };
    let ghost ov = objs@.map_values(|m: HashMap<String, String>| string_map_view(m));
    let mut out: Vec<BaseMessage> = Vec::new();
    let mut i: usize = 0;
    while i < objs.len()
        invariant
            i <= objs@.len(),
            ov == objs@.map_values(|m: HashMap<String, String>| string_map_view(m)),
            ov == json_string_objects(text@)->Some_0,
            json_string_objects(text@) is Some,
            decode_objects(ov.take(i as int)) == Some(out@.map_values(|m: BaseMessage| msg_view(m))),
        decreases objs@.len() - i,
    {
        let o = &objs[i];
        proof {
            assert(ov.take(i + 1).drop_last() =~= ov.take(i as int));
            assert(ov.take(i + 1).last() == string_map_view(*o));
            reveal_strlit("content");
            reveal_strlit("message_type");
        }
        let content = map_get(o, "content");
        let kind = map_get(o, "message_type");
        match (content, kind) {
            (Some(c), Some(k)) => match parse_message_type(k.as_str()) {
                Some(t) => {
                    let m = BaseMessage::new(c.as_str(), t);
                    proof {
                        assert(out@.push(m).map_values(|m: BaseMessage| msg_view(m)) =~= out@.map_values(
                            |m: BaseMessage| msg_view(m),
                        ).push(msg_view(m)));
                    }
                    out.push(m);
                },
                None => {
                    proof {
                        lemma_decode_none_sticks(ov, i as int + 1);
                        assert(ov.take(ov.len() as int) =~= ov);
                    }
                    return Err(String::from_str("unknown message type"));
                },
            },
            _ => {
                proof {
                    lemma_decode_none_sticks(ov, i as int + 1);
                    assert(ov.take(ov.len() as int) =~= ov);
                }
                return Err(String::from_str("message without content or message_type"));
            },
        }
        i += 1;
    }
    assert(ov.take(ov.len() as int) =~= ov);
    Ok(out)
}

/// A failed decode of a prefix stays failed.
proof fn lemma_decode_none_sticks(objs: Seq<Map<Seq<char>, Seq<char>>>, n: int)
    requires
        0 <= n <= objs.len(),
        decode_objects(objs.take(n)) is None,
    ensures
        decode_objects(objs) is None,
    decreases objs.len() - n,
{
    if n < objs.len() {
        assert(objs.take(n + 1).drop_last() =~= objs.take(n));
        lemma_decode_none_sticks(objs, n + 1);
    } else {
        assert(objs.take(n) =~= objs);
    }
}


/// The outcome of formatting the template text `t` as a fresh template
/// (no partial variables, validation on).
pub open spec fn template_format(t: Seq<char>, kw: Map<Seq<char>, Seq<char>>) -> Result<Seq<char>, Seq<char>> {
    format_keys(t, template_variables(t), kw, Map::empty(), true)
}

/// The error that a missing variable produces.
pub open spec fn missing_error(res: Result<String, ChainError>, key: Seq<char>) -> bool {
    res matches Err(ChainError::PromptError(m)) && m@ == "Missing variable: "@ + key
}

/// Formats the template text `t` with `kwargs`.
pub fn format_template_text(t: &str, kwargs: &HashMap<String, String>) -> (res: Result<String, ChainError>)
    ensures
        match template_format(t@, string_map_view(*kwargs)) {
            Ok(text) => res matches Ok(s) && s@ == text,
            Err(key) => missing_error(res, key),
        },
{
    let pt = PromptTemplate::from_template(t);
    proof {
        assert(string_map_view(pt.partial_variables) =~= Map::<Seq<char>, Seq<char>>::empty());
    }
    pt.format(kwargs)
}

/// A single message template in a chat prompt.
#[derive(Debug, Clone)]
pub enum MessageTemplate {
    /// A system message template.
    System(String),
    /// A human/user message template.
    Human(String),
    /// An AI/assistant message template.
    AI(String),
    /// A placeholder replaced by a list of messages at format time.
    Placeholder(String),
}

/// The messages that formatting the message templates `msgs` with `kw`
/// produces, or the first missing variable. A text template yields one
/// message of its role; a placeholder yields the messages its variable
/// decodes to, and nothing when the variable is absent or does not decode.
pub open spec fn chat_format(msgs: Seq<MessageTemplate>, kw: Map<Seq<char>, Seq<char>>) -> Result<Seq<(Seq<char>, MessageType)>, Seq<char>>
    decreases msgs.len(),
{
    if msgs.len() == 0 {
        Ok(Seq::empty())
    } else {
        match chat_format(msgs.drop_last(), kw) {
            Err(k) => Err(k),
            Ok(prev) => match msgs.last() {
                MessageTemplate::System(t) => match template_format(t@, kw) {
                    Ok(c) => Ok(prev.push((c, MessageType::System))),
                    Err(k) => Err(k),
                },
                MessageTemplate::Human(t) => match template_format(t@, kw) {
                    Ok(c) => Ok(prev.push((c, MessageType::Human))),
                    Err(k) => Err(k),
                },
                MessageTemplate::AI(t) => match template_format(t@, kw) {
                    Ok(c) => Ok(prev.push((c, MessageType::AI))),
                    Err(k) => Err(k),
                },
                MessageTemplate::Placeholder(v) => if kw.contains_key(v@) {
                    match decode_messages(kw[v@]) {
                        Some(list) => Ok(prev + list),
                        None => Ok(prev),
                    }
                } else {
                    Ok(prev)
                },
            },
        }
    }
}

/// The formatted messages match `spec`, or the error names its missing
/// variable.
pub open spec fn messages_result(
    res: Result<Vec<BaseMessage>, ChainError>,
    spec: Result<Seq<(Seq<char>, MessageType)>, Seq<char>>,
) -> bool {
    match spec {
        Ok(list) => res matches Ok(v) && v@.map_values(|m: BaseMessage| msg_view(m)) == list,
        Err(key) => res matches Err(ChainError::PromptError(m)) && m@ == "Missing variable: "@ + key,
    }
}

/// A chat-oriented prompt template composed of multiple [`MessageTemplate`]s.
#[derive(Debug, Clone)]
pub struct ChatPromptTemplate {
    /// The ordered list of message templates.
    pub messages: Vec<MessageTemplate>,
}

impl ChatPromptTemplate {
    /// Creates an empty chat prompt template.
    pub fn new() -> (res: Self)
        ensures
            res.messages@.len() == 0,
    {
        ChatPromptTemplate { messages: Vec::new() }
    }

    /// Appends a system message template (builder pattern).
    pub fn add_system(self, template: &str) -> (res: Self)
        ensures
            res.messages@.len() == self.messages@.len() + 1,
            res.messages@.drop_last() == self.messages@,
            res.messages@.last() matches MessageTemplate::System(t) && t@ == template@,
    {
        let mut messages = self.messages;
        messages.push(MessageTemplate::System(template.to_owned()));
        ChatPromptTemplate { messages }
    }

    /// Appends a human message template (builder pattern).
    pub fn add_human(self, template: &str) -> (res: Self)
        ensures
            res.messages@.len() == self.messages@.len() + 1,
            res.messages@.drop_last() == self.messages@,
            res.messages@.last() matches MessageTemplate::Human(t) && t@ == template@,
    {
        let mut messages = self.messages;
        messages.push(MessageTemplate::Human(template.to_owned()));
        ChatPromptTemplate { messages }
    }

    /// Appends an AI message template (builder pattern).
    pub fn add_ai(self, template: &str) -> (res: Self)
        ensures
            res.messages@.len() == self.messages@.len() + 1,
            res.messages@.drop_last() == self.messages@,
            res.messages@.last() matches MessageTemplate::AI(t) && t@ == template@,
    {
        let mut messages = self.messages;
        messages.push(MessageTemplate::AI(template.to_owned()));
        ChatPromptTemplate { messages }
    }

    /// Appends a placeholder variable (builder pattern). At format time the
    /// variable holds a JSON-serialized list of messages.
    pub fn add_placeholder(self, variable_name: &str) -> (res: Self)
        ensures
            res.messages@.len() == self.messages@.len() + 1,
            res.messages@.drop_last() == self.messages@,
            res.messages@.last() matches MessageTemplate::Placeholder(t) && t@ == variable_name@,
    {
        let mut messages = self.messages;
        messages.push(MessageTemplate::Placeholder(variable_name.to_owned()));
        ChatPromptTemplate { messages }
    }

    /// Formats every message template with `kwargs`, in order.
    pub fn format_prompt(&self, kwargs: &HashMap<String, String>) -> (res: Result<Vec<BaseMessage>, ChainError>)
        ensures
            messages_result(res, chat_format(self.messages@, string_map_view(*kwargs))),
    {
        let ghost kw = string_map_view(*kwargs);
        let mut out: Vec<BaseMessage> = Vec::new();
        let mut i: usize = 0;
        assert(self.messages@.take(0) =~= Seq::<MessageTemplate>::empty());
        assert(out@.map_values(|m: BaseMessage| msg_view(m)) =~= Seq::<(Seq<char>, MessageType)>::empty());
        while i < self.messages.len()
            invariant
                i <= self.messages@.len(),
                kw == string_map_view(*kwargs),
                chat_format(self.messages@.take(i as int), kw) == Ok::<Seq<(Seq<char>, MessageType)>, Seq<char>>(
                    out@.map_values(|m: BaseMessage| msg_view(m)),
                ),
            decreases self.messages@.len() - i,
        {
            proof {
                assert(self.messages@.take(i + 1).drop_last() =~= self.messages@.take(i as int));
                assert(self.messages@.take(i + 1).last() == self.messages@[i as int]);
            }
            let ghost prev = out@.map_values(|m: BaseMessage| msg_view(m));
            let (text, role): (&String, MessageType) = match &self.messages[i] {
                MessageTemplate::System(t) => (t, MessageType::System),
                MessageTemplate::Human(t) => (t, MessageType::Human),
                MessageTemplate::AI(t) => (t, MessageType::AI),
                MessageTemplate::Placeholder(v) => {
                    match map_get(kwargs, v.as_str()) {
                        Some(values) => match decode_message_list(values.as_str()) {
                            Ok(parsed) => {
                                let mut k: usize = 0;
                                while k < parsed.len()
                                    invariant
                                        k <= parsed@.len(),
                                        out@.map_values(|m: BaseMessage| msg_view(m)) == prev + parsed@.map_values(
                                            |m: BaseMessage| msg_view(m),
                                        ).take(k as int),
                                    decreases parsed@.len() - k,
                                {
                                    let m = BaseMessage::new(parsed[k].content.as_str(), parsed[k].message_type);
                                    proof {
                                        assert(out@.push(m).map_values(|m: BaseMessage| msg_view(m)) =~= out@.map_values(
                                            |m: BaseMessage| msg_view(m),
                                        ).push(msg_view(m)));
                                        assert(parsed@.map_values(|m: BaseMessage| msg_view(m)).take(k + 1)
                                            =~= parsed@.map_values(|m: BaseMessage| msg_view(m)).take(k as int).push(
                                            msg_view(parsed@[k as int]),
                                        ));
                                    }
                                    out.push(m);
                                    k += 1;
                                }
                                assert(parsed@.map_values(|m: BaseMessage| msg_view(m)).take(parsed@.len() as int)
                                    =~= parsed@.map_values(|m: BaseMessage| msg_view(m)));
                            },
                            Err(_) => {},
                        },
                        None => {},
                    }
                    i += 1;
                    continue;
                },
            };
            match format_template_text(text.as_str(), kwargs) {
                Ok(content) => {
                    let m = BaseMessage::new(content.as_str(), role);
                    proof {
                        assert(out@.push(m).map_values(|m: BaseMessage| msg_view(m)) =~= out@.map_values(
                            |m: BaseMessage| msg_view(m),
                        ).push(msg_view(m)));
                    }
                    out.push(m);
                },
                Err(e) => {
                    proof {
                        lemma_chat_err_sticks(self.messages@, kw, i as int + 1);
                        assert(self.messages@.take(self.messages@.len() as int) =~= self.messages@);
                    }
                    return Err(e);
                },
            }
            i += 1;
        }
        assert(self.messages@.take(self.messages@.len() as int) =~= self.messages@);
        Ok(out)
    }
}

/// An error in a prefix of the templates stays the result.
proof fn lemma_chat_err_sticks(msgs: Seq<MessageTemplate>, kw: Map<Seq<char>, Seq<char>>, n: int)
    requires
        0 <= n <= msgs.len(),
        chat_format(msgs.take(n), kw) is Err,
    ensures
        chat_format(msgs, kw) == chat_format(msgs.take(n), kw),
    decreases msgs.len() - n,
{
    if n < msgs.len() {
        assert(msgs.take(n + 1).drop_last() =~= msgs.take(n));
        lemma_chat_err_sticks(msgs, kw, n + 1);
    } else {
        assert(msgs.take(n) =~= msgs);
    }
}


/// The examples formatted with `pt`, in order, or the first missing
/// variable.
pub open spec fn examples_format(pt: PromptTemplate, exs: Seq<HashMap<String, String>>) -> Result<Seq<Seq<char>>, Seq<char>>
    decreases exs.len(),
{
    if exs.len() == 0 {
        Ok(Seq::empty())
    } else {
        match examples_format(pt, exs.drop_last()) {
            Err(k) => Err(k),
            Ok(prev) => match pt.spec_format(string_map_view(exs.last())) {
                Ok(t) => Ok(prev.push(t)),
                Err(k) => Err(k),
            },
        }
    }
}

/// An error in a prefix of the examples stays the result.
proof fn lemma_examples_err_sticks(pt: PromptTemplate, exs: Seq<HashMap<String, String>>, n: int)
    requires
        0 <= n <= exs.len(),
        examples_format(pt, exs.take(n)) is Err,
    ensures
        examples_format(pt, exs) == examples_format(pt, exs.take(n)),
    decreases exs.len() - n,
{
    if n < exs.len() {
        assert(exs.take(n + 1).drop_last() =~= exs.take(n));
        lemma_examples_err_sticks(pt, exs, n + 1);
    } else {
        assert(exs.take(n) =~= exs);
    }
}

/// Formats every example with `pt`.
fn format_examples(pt: &PromptTemplate, exs: &Vec<HashMap<String, String>>) -> (res: Result<Vec<String>, ChainError>)
    ensures
        match examples_format(*pt, exs@) {
            Ok(list) => res matches Ok(v) && views(v@) == list,
            Err(key) => missing_error_list(res, key),
        },
{
    let mut out: Vec<String> = Vec::new();
    let mut i: usize = 0;
    assert(exs@.take(0) =~= Seq::<HashMap<String, String>>::empty());
    assert(views(out@) =~= Seq::<Seq<char>>::empty());
    while i < exs.len()
        invariant
            i <= exs@.len(),
            examples_format(*pt, exs@.take(i as int)) == Ok::<Seq<Seq<char>>, Seq<char>>(views(out@)),
        decreases exs@.len() - i,
    {
        proof {
            assert(exs@.take(i + 1).drop_last() =~= exs@.take(i as int));
            assert(exs@.take(i + 1).last() == exs@[i as int]);
        }
        match pt.format(&exs[i]) {
            Ok(t) => {
                proof {
                    assert(views(out@.push(t)) =~= views(out@).push(t@));
                }
                out.push(t);
            },
            Err(e) => {
                proof {
                    lemma_examples_err_sticks(*pt, exs@, i as int + 1);
                }
                return Err(e);
            },
        }
        i += 1;
    }
    assert(exs@.take(exs@.len() as int) =~= exs@);
    Ok(out)
}

/// The error that a missing variable produces, for a list result.
pub open spec fn missing_error_list(res: Result<Vec<String>, ChainError>, key: Seq<char>) -> bool {
    res matches Err(ChainError::PromptError(m)) && m@ == "Missing variable: "@ + key
}

/// A few-shot prompt template that interleaves examples between prefix and
/// suffix.
#[derive(Debug, Clone)]
pub struct FewShotPromptTemplate {
    /// The list of example key-value maps.
    pub examples: Vec<HashMap<String, String>>,
    /// The prompt template used to format each example.
    pub example_prompt: PromptTemplate,
    /// Suffix after the examples.
    pub suffix: String,
    /// Prefix before the examples.
    pub prefix: String,
    /// Variables required for rendering the prefix/suffix.
    pub input_variables: Vec<String>,
    /// Separator between examples (default: `"\n\n"`).
    pub example_separator: String,
}

impl FewShotPromptTemplate {
    /// Creates a new few-shot prompt template with the separator `"\n\n"`.
    pub fn new(
        examples: Vec<HashMap<String, String>>,
        example_prompt: PromptTemplate,
        suffix: &str,
        prefix: &str,
        input_variables: Vec<String>,
    ) -> (res: Self)
        ensures
            res.examples == examples,
            res.example_prompt == example_prompt,
            res.suffix@ == suffix@,
            res.prefix@ == prefix@,
            res.input_variables == input_variables,
            res.example_separator@ == "\n\n"@,
    {
        FewShotPromptTemplate {
            examples,
            example_prompt,
            suffix: suffix.to_owned(),
            prefix: prefix.to_owned(),
            input_variables,
            example_separator: String::from_str("\n\n"),
        }
    }

    /// Sets the example separator (builder pattern).
    pub fn with_example_separator(self, separator: &str) -> (res: Self)
        ensures
            res.examples == self.examples,
            res.example_prompt == self.example_prompt,
            res.suffix == self.suffix,
            res.prefix == self.prefix,
            res.input_variables == self.input_variables,
            res.example_separator@ == separator@,
    {
        FewShotPromptTemplate {
            examples: self.examples,
            example_prompt: self.example_prompt,
            suffix: self.suffix,
            prefix: self.prefix,
            input_variables: self.input_variables,
            example_separator: separator.to_owned(),
        }
    }

    /// The formatted prompt: the formatted prefix (when not empty), the
    /// formatted examples joined by the separator, and the formatted suffix
    /// (when not empty), all joined by the separator; or the first missing
    /// variable, looking at the prefix, then the examples, then the suffix.
    pub open spec fn spec_format(&self, kw: Map<Seq<char>, Seq<char>>) -> Result<Seq<char>, Seq<char>> {
        let sep = self.example_separator@;
        let pre: Result<Seq<Seq<char>>, Seq<char>> = if self.prefix@.len() > 0 {
            match template_format(self.prefix@, kw) {
                Ok(p) => Ok(seq![p]),
                Err(k) => Err(k),
            }
        } else {
            Ok(Seq::empty())
        };
        match pre {
            Err(k) => Err(k),
            Ok(pp) => match examples_format(self.example_prompt, self.examples@) {
                Err(k) => Err(k),
                Ok(exs) => {
                    let parts = pp.push(join(exs, sep));
                    if self.suffix@.len() > 0 {
                        match template_format(self.suffix@, kw) {
                            Ok(sx) => Ok(join(parts.push(sx), sep)),
                            Err(k) => Err(k),
                        }
                    } else {
                        Ok(join(parts, sep))
                    }
                },
            },
        }
    }

    /// Formats the full few-shot prompt.
    pub fn format(&self, kwargs: &HashMap<String, String>) -> (res: Result<String, ChainError>)
        ensures
            match self.spec_format(string_map_view(*kwargs)) {
                Ok(text) => res matches Ok(s) && s@ == text,
                Err(key) => missing_error(res, key),
            },
    {
        let mut parts: Vec<String> = Vec::new();
        if !self.prefix.as_str().is_empty() {
            let p = format_template_text(self.prefix.as_str(), kwargs)?;
            parts.push(p);
        }
        proof {
            assert(self.prefix@.len() > 0 ==> views(parts@) =~= seq![parts@[0]@]);
            assert(self.prefix@.len() == 0 ==> views(parts@) =~= Seq::<Seq<char>>::empty());
        }
        let examples = match format_examples(&self.example_prompt, &self.examples) {
            Ok(v) => v,
            Err(e) => return Err(e),
        };
        let joined = join_strings(&examples, self.example_separator.as_str());
        proof {
            assert(views(parts@.push(joined)) =~= views(parts@).push(joined@));
        }
        parts.push(joined);
        if !self.suffix.as_str().is_empty() {
            let sx = format_template_text(self.suffix.as_str(), kwargs)?;
            proof {
                assert(views(parts@.push(sx)) =~= views(parts@).push(sx@));
            }
            parts.push(sx);
        }
        Ok(join_strings(&parts, self.example_separator.as_str()))
    }
}


/// A formatted image prompt together with image generation parameters.
#[derive(Debug, Clone)]
pub struct ImagePromptValue {
    /// The formatted prompt string.
    pub prompt: String,
    /// The image format (e.g. `"url"`, `"base64"`).
    pub image_format: String,
    /// The requested image size (e.g. `"512x512"`).
    pub size: Option<String>,
    /// The requested image quality (e.g. `"hd"`).
    pub quality: Option<String>,
}

impl ImagePromptValue {
    /// Creates a new `ImagePromptValue` with format `"url"` and no size or
    /// quality.
    pub fn new(prompt: String) -> (res: Self)
        ensures
            res.prompt == prompt,
            res.image_format@ == "url"@,
            res.size is None,
            res.quality is None,
    {
        ImagePromptValue { prompt, image_format: String::from_str("url"), size: None, quality: None }
    }
}

/// A prompt template for image generation.
#[derive(Debug, Clone)]
pub struct ImagePromptTemplate {
    /// The underlying string prompt template.
    pub template: PromptTemplate,
    /// The image format (e.g. `"url"`, `"base64"`).
    pub image_format: String,
    /// The requested image size.
    pub size: Option<String>,
    /// The requested image quality.
    pub quality: Option<String>,
}

/// A copy of an optional string.
fn clone_opt(o: &Option<String>) -> (res: Option<String>)
    ensures
        res is Some <==> o is Some,
        res matches Some(r) ==> r@ == o->Some_0@,
{
    match o {
        Some(s) => Some(s.clone()),
        None => None,
    }
}

impl ImagePromptTemplate {
    /// Creates a new `ImagePromptTemplate` with format `"url"` and no size or
    /// quality.
    pub fn new(template: PromptTemplate) -> (res: Self)
        ensures
            res.template == template,
            res.image_format@ == "url"@,
            res.size is None,
            res.quality is None,
    {
        ImagePromptTemplate { template, image_format: String::from_str("url"), size: None, quality: None }
    }

    /// Sets the image format (builder pattern).
    pub fn with_format(self, format: &str) -> (res: Self)
        ensures
            res.template == self.template,
            res.image_format@ == format@,
            res.size == self.size,
            res.quality == self.quality,
    {
        ImagePromptTemplate { template: self.template, image_format: format.to_owned(), size: self.size, quality: self.quality }
    }

    /// Sets the image size (builder pattern).
    pub fn with_size(self, size: &str) -> (res: Self)
        ensures
            res.template == self.template,
            res.image_format == self.image_format,
            res.size matches Some(s) && s@ == size@,
            res.quality == self.quality,
    {
        ImagePromptTemplate { template: self.template, image_format: self.image_format, size: Some(size.to_owned()), quality: self.quality }
    }

    /// Sets the image quality (builder pattern).
    pub fn with_quality(self, quality: &str) -> (res: Self)
        ensures
            res.template == self.template,
            res.image_format == self.image_format,
            res.size == self.size,
            res.quality matches Some(q) && q@ == quality@,
    {
        ImagePromptTemplate { template: self.template, image_format: self.image_format, size: self.size, quality: Some(quality.to_owned()) }
    }

    /// Formats the template and attaches the image parameters.
    pub fn format(&self, kwargs: &HashMap<String, String>) -> (res: Result<ImagePromptValue, ChainError>)
        ensures
            match self.template.spec_format(string_map_view(*kwargs)) {
                Ok(text) => res matches Ok(v) && v.prompt@ == text && v.image_format@ == self.image_format@
                    && (v.size is Some <==> self.size is Some) && (v.size matches Some(z) ==> z@ == self.size->Some_0@)
                    && (v.quality is Some <==> self.quality is Some) && (v.quality matches Some(q) ==> q@ == self.quality->Some_0@),
                Err(key) => res matches Err(ChainError::PromptError(m)) && m@ == "Missing variable: "@ + key,
            },
    {
        let prompt = self.template.format(kwargs)?;
        Ok(ImagePromptValue {
            prompt,
            image_format: self.image_format.clone(),
            size: clone_opt(&self.size),
            quality: clone_opt(&self.quality),
        })
    }
}

/// The messages of every example formatted with the chat template, in
/// order, or the first missing variable.
pub open spec fn chat_examples_format(pt: ChatPromptTemplate, exs: Seq<HashMap<String, String>>) -> Result<Seq<(Seq<char>, MessageType)>, Seq<char>>
    decreases exs.len(),
{
    if exs.len() == 0 {
        Ok(Seq::empty())
    } else {
        match chat_examples_format(pt, exs.drop_last()) {
            Err(k) => Err(k),
            Ok(prev) => match chat_format(pt.messages@, string_map_view(exs.last())) {
                Ok(t) => Ok(prev + t),
                Err(k) => Err(k),
            },
        }
    }
}

/// A few-shot prompt that formats its examples with a chat template and
/// renders the prefix and suffix as system messages.
#[derive(Debug, Clone)]
pub struct FewShotPromptWithTemplates {
    /// The list of example key-value maps.
    pub examples: Vec<HashMap<String, String>>,
    /// The chat prompt template used to format each example.
    pub example_prompt: ChatPromptTemplate,
    /// Suffix after the examples (rendered as a system message).
    pub suffix: String,
    /// Prefix before the examples (rendered as a system message).
    pub prefix: String,
    /// Variables required for rendering the prefix/suffix.
    pub input_variables: Vec<String>,
    /// Separator between formatted example message groups.
    pub example_separator: String,
}

impl FewShotPromptWithTemplates {
    /// Creates a new `FewShotPromptWithTemplates` with the separator `"\n\n"`.
    pub fn new(
        examples: Vec<HashMap<String, String>>,
        example_prompt: ChatPromptTemplate,
        suffix: &str,
        prefix: &str,
        input_variables: Vec<String>,
    ) -> (res: Self)
        ensures
            res.examples == examples,
            res.example_prompt == example_prompt,
            res.suffix@ == suffix@,
            res.prefix@ == prefix@,
            res.input_variables == input_variables,
            res.example_separator@ == "\n\n"@,
    {
        FewShotPromptWithTemplates {
            examples,
            example_prompt,
            suffix: suffix.to_owned(),
            prefix: prefix.to_owned(),
            input_variables,
            example_separator: String::from_str("\n\n"),
        }
    }

    /// The formatted prefix as a system message (none when the prefix is
    /// empty), or its missing variable.
    pub open spec fn spec_prefix_messages(&self, kw: Map<Seq<char>, Seq<char>>) -> Result<Seq<(Seq<char>, MessageType)>, Seq<char>> {
        if self.prefix@.len() > 0 {
            match template_format(self.prefix@, kw) {
                Ok(p) => Ok(seq![(p, MessageType::System)]),
                Err(k) => Err(k),
            }
        } else {
            Ok(Seq::empty())
        }
    }

    /// The formatted messages: the formatted prefix as a system message
    /// (when not empty), the messages of every example, and the formatted
    /// suffix as a system message (when not empty); or the first missing
    /// variable.
    pub open spec fn spec_format(&self, kw: Map<Seq<char>, Seq<char>>) -> Result<Seq<(Seq<char>, MessageType)>, Seq<char>> {
        match self.spec_prefix_messages(kw) {
            Err(k) => Err(k),
            Ok(pp) => match chat_examples_format(self.example_prompt, self.examples@) {
                Err(k) => Err(k),
                Ok(exs) => {
                    if self.suffix@.len() > 0 {
                        match template_format(self.suffix@, kw) {
                            Ok(sx) => Ok(pp + exs + seq![(sx, MessageType::System)]),
                            Err(k) => Err(k),
                        }
                    } else {
                        Ok(pp + exs)
                    }
                },
            },
        }
    }

    /// Formats the full few-shot chat prompt.
    pub fn format_prompt(&self, kwargs: &HashMap<String, String>) -> (res: Result<Vec<BaseMessage>, ChainError>)
        ensures
            messages_result(res, self.spec_format(string_map_view(*kwargs))),
    {
        let mut out: Vec<BaseMessage> = Vec::new();
        if !self.prefix.as_str().is_empty() {
            let p = format_template_text(self.prefix.as_str(), kwargs)?;
            out.push(BaseMessage::new(p.as_str(), MessageType::System));
        }
        let ghost pp = out@.map_values(|m: BaseMessage| msg_view(m));
        proof {
            if self.prefix@.len() > 0 {
                assert(pp =~= seq![msg_view(out@[0])]);
            } else {
                assert(pp =~= Seq::<(Seq<char>, MessageType)>::empty());
            }
        }
        let mut i: usize = 0;
        assert(self.examples@.take(0) =~= Seq::<HashMap<String, String>>::empty());
        assert(pp + Seq::<(Seq<char>, MessageType)>::empty() =~= pp);
        while i < self.examples.len()
            invariant
                i <= self.examples@.len(),
                self.spec_prefix_messages(string_map_view(*kwargs)) == Ok::<Seq<(Seq<char>, MessageType)>, Seq<char>>(pp),
                chat_examples_format(self.example_prompt, self.examples@.take(i as int)) matches Ok(e)
                    && out@.map_values(|m: BaseMessage| msg_view(m)) == pp + e,
            decreases self.examples@.len() - i,
        {
            proof {
                assert(self.examples@.take(i + 1).drop_last() =~= self.examples@.take(i as int));
                assert(self.examples@.take(i + 1).last() == self.examples@[i as int]);
            }
            let ghost before = out@.map_values(|m: BaseMessage| msg_view(m));
            match self.example_prompt.format_prompt(&self.examples[i]) {
                Ok(msgs) => {
                    let mut k: usize = 0;
                    while k < msgs.len()
                        invariant
                            k <= msgs@.len(),
                            out@.map_values(|m: BaseMessage| msg_view(m)) == before + msgs@.map_values(
                                |m: BaseMessage| msg_view(m),
                            ).take(k as int),
                        decreases msgs@.len() - k,
                    {
                        let m = BaseMessage::new(msgs[k].content.as_str(), msgs[k].message_type);
                        proof {
                            assert(out@.push(m).map_values(|m: BaseMessage| msg_view(m)) =~= out@.map_values(
                                |m: BaseMessage| msg_view(m),
                            ).push(msg_view(m)));
                            assert(msgs@.map_values(|m: BaseMessage| msg_view(m)).take(k + 1) =~= msgs@.map_values(
                                |m: BaseMessage| msg_view(m),
                            ).take(k as int).push(msg_view(msgs@[k as int])));
                        }
                        out.push(m);
                        k += 1;
                    }
                    assert(msgs@.map_values(|m: BaseMessage| msg_view(m)).take(msgs@.len() as int)
                        =~= msgs@.map_values(|m: BaseMessage| msg_view(m)));
                },
                Err(e) => {
                    proof {
                        let kwx = string_map_view(self.examples@[i as int]);
                        assert(chat_format(self.example_prompt.messages@, kwx) is Err);
                        assert(chat_examples_format(self.example_prompt, self.examples@.take(i + 1)) == chat_format(self.example_prompt.messages@, kwx));
                        lemma_chat_examples_err_sticks(self.example_prompt, self.examples@, i as int + 1);
                    }
                    return Err(e);
                },
            }
            i += 1;
        }
        assert(self.examples@.take(self.examples@.len() as int) =~= self.examples@);
        let ghost mid = out@.map_values(|m: BaseMessage| msg_view(m));
        if !self.suffix.as_str().is_empty() {
            let sx = format_template_text(self.suffix.as_str(), kwargs)?;
            let m = BaseMessage::new(sx.as_str(), MessageType::System);
            proof {
                assert(mid.push(msg_view(m)) =~= mid + seq![(sx@, MessageType::System)]);
                assert(out@.push(m).map_values(|m: BaseMessage| msg_view(m)) =~= out@.map_values(
                    |m: BaseMessage| msg_view(m),
                ).push(msg_view(m)));
            }
            out.push(m);
        }
        Ok(out)
    }
}

/// An error in a prefix of the examples stays the result.
proof fn lemma_chat_examples_err_sticks(pt: ChatPromptTemplate, exs: Seq<HashMap<String, String>>, n: int)
    requires
        0 <= n <= exs.len(),
        chat_examples_format(pt, exs.take(n)) is Err,
    ensures
        chat_examples_format(pt, exs) == chat_examples_format(pt, exs.take(n)),
    decreases exs.len() - n,
{
    if n < exs.len() {
        assert(exs.take(n + 1).drop_last() =~= exs.take(n));
        lemma_chat_examples_err_sticks(pt, exs, n + 1);
    } else {
        assert(exs.take(n) =~= exs);
    }
}

/// A placeholder for a list of chat messages supplied at format time.
#[derive(Debug, Clone)]
pub struct MessagesPlaceholder {
    /// The key to look up in kwargs at format time.
    pub variable_name: String,
    /// Whether the variable is optional.
    pub optional: bool,
}

impl MessagesPlaceholder {
    /// Creates a new, required `MessagesPlaceholder` for the given variable.
    pub fn new(variable_name: &str) -> (res: Self)
        ensures
            res.variable_name@ == variable_name@,
            !res.optional,
    {
        MessagesPlaceholder { variable_name: variable_name.to_owned(), optional: false }
    }

    /// Sets whether the placeholder is optional (builder pattern).
    pub fn with_optional(self, optional: bool) -> (res: Self)
        ensures
            res.variable_name == self.variable_name,
            res.optional == optional,
    {
        MessagesPlaceholder { variable_name: self.variable_name, optional }
    }

    /// Decodes the messages held by the variable. A missing variable gives
    /// no messages when optional and `"Missing required variable: <name>"`
    /// otherwise; a value that does not decode gives
    /// `"Failed to parse messages: <reason>"`.
    pub fn format(&self, kwargs: &HashMap<String, String>) -> (res: Result<Vec<BaseMessage>, ChainError>)
        ensures
            string_map_view(*kwargs).contains_key(self.variable_name@) ==> match decode_messages(
                string_map_view(*kwargs)[self.variable_name@],
            ) {
                Some(list) => res matches Ok(v) && v@.map_values(|m: BaseMessage| msg_view(m)) == list,
                None => res matches Err(ChainError::PromptError(m)) && "Failed to parse messages: "@.is_prefix_of(m@),
            },
            !string_map_view(*kwargs).contains_key(self.variable_name@) ==> if self.optional {
                res matches Ok(v) && v@.len() == 0
            } else {
                res matches Err(ChainError::PromptError(m)) && m@ == "Missing required variable: "@ + self.variable_name@
            },
    {
        match map_get(kwargs, self.variable_name.as_str()) {
            Some(values) => match decode_message_list(values.as_str()) {
                Ok(v) => Ok(v),
                Err(reason) => {
                    let mut m = String::from_str("Failed to parse messages: ");
                    m.append(reason.as_str());
                    Err(ChainError::PromptError(m))
                },
            },
            None => {
                if self.optional {
                    Ok(Vec::new())
                } else {
                    let mut m = String::from_str("Missing required variable: ");
                    m.append(self.variable_name.as_str());
                    Err(ChainError::PromptError(m))
                }
            },
        }
    }
}

/// A concrete chat prompt value: a list of messages and a type name.
#[derive(Debug, Clone)]
pub struct ChatPromptValueConcrete {
    /// The list of messages forming the prompt.
    pub messages: Vec<BaseMessage>,
    /// A type discriminator (`"chat"`).
    pub value_type: String,
}

impl ChatPromptValueConcrete {
    /// Creates a new `ChatPromptValueConcrete` with the type name `"chat"`.
    pub fn new(messages: Vec<BaseMessage>) -> (res: Self)
        ensures
            res.messages == messages,
            res.value_type@ == "chat"@,
    {
        ChatPromptValueConcrete { messages, value_type: String::from_str("chat") }
    }
}

/// The string members of a JSON array, in order (non-strings skipped).
pub open spec fn string_items(items: Seq<JsonNode>) -> Seq<Seq<char>>
    decreases items.len(),
{
    if items.len() == 0 {
        Seq::empty()
    } else {
        let rest = string_items(items.drop_last());
        match items.last().kind {
            JsonKind::Str(s) => rest.push(s@),
            _ => rest,
        }
    }
}

/// The keys a JSON schema requires: the strings of its `required` array,
/// in order; none when it has no such array.
pub open spec fn required_keys(schema: JsonNode) -> Seq<Seq<char>> {
    match member(schema, "required"@) {
        Some(r) => match r.kind {
            JsonKind::Array(items) => string_items(items@),
            _ => Seq::empty(),
        },
        None => Seq::empty(),
    }
}

/// The first of `keys` that `kwargs` lacks, if any.
pub open spec fn first_missing(keys: Seq<Seq<char>>, kwargs: Map<Seq<char>, Seq<char>>) -> Option<Seq<char>>
    decreases keys.len(),
{
    if keys.len() == 0 {
        None
    } else if !kwargs.contains_key(keys[0]) {
        Some(keys[0])
    } else {
        first_missing(keys.drop_first(), kwargs)
    }
}

/// A prompt template whose input must carry the keys a JSON schema
/// requires.
#[derive(Debug)]
pub struct StructuredPromptTemplate {
    /// The JSON schema of the input.
    pub schema: JsonNode,
    /// The template to format.
    pub template: PromptTemplate,
}

impl StructuredPromptTemplate {
    /// A template checked against `schema`.
    pub fn new(schema: JsonNode, template: PromptTemplate) -> (res: Self)
        ensures
            res.schema == schema,
            res.template == template,
    {
        StructuredPromptTemplate { schema, template }
    }

    /// The required keys of the schema, in order.
    fn required(&self) -> (res: Vec<String>)
        ensures
            views(res@) == required_keys(self.schema),
    {
        let mut out: Vec<String> = Vec::new();
        match self.schema.get("required") {
            Some(r) => match &r.kind {
                JsonKind::Array(items) => {
                    let mut i: usize = 0;
                    while i < items.len()
                        invariant
                            i <= items@.len(),
                            views(out@) == string_items(items@.take(i as int)),
                        decreases items@.len() - i,
                    {
                        proof {
                            assert(items@.take(i + 1).drop_last() =~= items@.take(i as int));
                            assert(items@.take(i + 1).last() == items@[i as int]);
                        }
                        if let JsonKind::Str(s) = &items[i].kind {
                            out.push(s.clone());
                            assert(views(out@) =~= string_items(items@.take(i + 1)));
                        }
                        i += 1;
                    }
                    assert(items@.take(items@.len() as int) =~= items@);
                },
                _ => {},
            },
            None => {},
        }
        proof {
            reveal_strlit("required");
        }
        out
    }

    /// Formats the template once every key the schema requires is present;
    /// otherwise a prompt error naming the first missing key.
    pub fn format(&self, kwargs: &HashMap<String, String>) -> (res: Result<String, ChainError>)
        ensures
            match first_missing(required_keys(self.schema), string_map_view(*kwargs)) {
                Some(k) => res matches Err(ChainError::PromptError(m)) && m@ == "Missing required key: "@ + k,
                None => match self.template.spec_format(string_map_view(*kwargs)) {
                    Ok(text) => res matches Ok(s) && s@ == text,
                    Err(key) => res matches Err(ChainError::PromptError(m)) && m@ == "Missing variable: "@ + key,
                },
            },
    {
        let keys = self.required();
        let ghost kw = string_map_view(*kwargs);
        let mut i: usize = 0;
        assert(views(keys@).skip(0) =~= views(keys@));
        while i < keys.len()
            invariant
                i <= keys@.len(),
                kw == string_map_view(*kwargs),
                views(keys@) == required_keys(self.schema),
                first_missing(views(keys@), kw) == first_missing(views(keys@).skip(i as int), kw),
            decreases keys@.len() - i,
        {
            proof {
                assert(views(keys@).skip(i as int).drop_first() =~= views(keys@).skip(i + 1));
                assert(views(keys@).skip(i as int)[0] == keys@[i as int]@);
            }
            if map_get(kwargs, keys[i].as_str()).is_none() {
                let mut m = String::from_str("Missing required key: ");
                m.append(keys[i].as_str());
                return Err(ChainError::PromptError(m));
            }
            i += 1;
        }
        assert(views(keys@).skip(keys@.len() as int) =~= Seq::<Seq<char>>::empty());
        self.template.format(kwargs)
    }

    /// The schema.
    pub fn get_schema(&self) -> (res: &JsonNode)
        ensures
            *res == self.schema,
    {
        &self.schema
    }
}

} // verus!
