//! General-purpose utilities: stop tokens, token ids, settings with
//! fallbacks, and JSON values rendered, flattened or read out of Markdown.

use crate::errors::ChainError;
use crate::chunk_merge::chars_between;
use crate::json::{json_parse, parse_json, JsonKind, JsonNode};
use crate::pattern::{capture_ranges, char_spans, regex_capture_spans, regex_is_valid};
use crate::text::{blen, find_chars_from, find_from, join, join_strings, lemma_find_from, matches_at, str_chars, string_from_chars, trim, trim_chars, views};
use vstd::prelude::*;

verus! {

/// Produces the sequential token ids `0..k`, where `k` is a rough token count
/// of `text`: its UTF-8 byte length (taken as a `u32`) divided by four,
/// rounded up.
pub fn get_token_ids(text: &str) -> (res: Vec<u32>)
    requires
        (text.len() as u32) + 3 <= u32::MAX,
    ensures
        res@.len() == ((text.len() as u32) + 3) / 4,
        forall|i: int| 0 <= i < res@.len() ==> res@[i] == i,
{
    let len = text.len();
    let token_count: u32 = (len as u32 + 3) / 4;
    let mut out: Vec<u32> = Vec::new();
    let mut i: u32 = 0;
    while i < token_count
        invariant
            i <= token_count,
            out@.len() == i,
            forall|k: int| 0 <= k < i ==> out@[k] == k,
        decreases token_count - i,
    {
        out.push(i);
        i += 1;
    }
    out
}

/// The earliest index at which any of `tokens` first occurs in `s`;
/// `None` when none occurs.
pub open spec fn earliest_stop(s: Seq<char>, tokens: Seq<Seq<char>>) -> Option<int>
    decreases tokens.len(),
{
    if tokens.len() == 0 {
        None
    } else {
        let rest = earliest_stop(s, tokens.drop_last());
        match find_from(s, tokens.last(), 0) {
            None => rest,
            Some(i) => match rest {
                None => Some(i),
                Some(j) => Some(if i < j { i } else { j }),
            },
        }
    }
}

/// `s` cut at the earliest occurrence of any stop token; `s` itself when
/// none occurs.
pub open spec fn stop_truncate(s: Seq<char>, tokens: Seq<Seq<char>>) -> Seq<char> {
    match earliest_stop(s, tokens) {
        Some(i) => s.take(i),
        None => s,
    }
}

/// The earliest stop is where some token first occurs, and no token first
/// occurs before it.
proof fn lemma_earliest_stop(s: Seq<char>, tokens: Seq<Seq<char>>)
    ensures
        match earliest_stop(s, tokens) {
            Some(m) => 0 <= m <= s.len()
                && (exists|k: int| 0 <= k < tokens.len() && #[trigger] find_from(s, tokens[k], 0) == Some(m))
                && forall|k: int| 0 <= k < tokens.len() ==> (#[trigger] find_from(s, tokens[k], 0) matches Some(i) ==> m <= i),
            None => forall|k: int| 0 <= k < tokens.len() ==> #[trigger] find_from(s, tokens[k], 0) is None,
        },
    decreases tokens.len(),
{
    if tokens.len() > 0 {
        let prev = tokens.drop_last();
        lemma_earliest_stop(s, prev);
        let t = tokens.last();
        lemma_find_from(s, t, 0);
        assert forall|k: int| 0 <= k < tokens.len() - 1 implies tokens[k] == prev[k] by {}
        match find_from(s, t, 0) {
            Some(i) => {
                assert(find_from(s, tokens[tokens.len() - 1], 0) == Some(i));
                match earliest_stop(s, prev) {
                    Some(j) => {
                        let kj = choose|k: int| 0 <= k < prev.len() && #[trigger] find_from(s, prev[k], 0) == Some(j);
                        assert(find_from(s, tokens[kj], 0) == Some(j));
                    },
                    None => {},
                }
            },
            None => {},
        }
    }
}

/// Truncates `text` at the earliest occurrence of any stop token; the text
/// is returned unchanged when none occurs.
pub fn enforce_stop_tokens(text: &str, stop_tokens: &[String]) -> (res: String)
    ensures
        res@ == stop_truncate(text@, views(stop_tokens@)),
{
    let t = str_chars(text);
    let mut best: Option<usize> = None;
    let mut i: usize = 0;
    while i < stop_tokens.len()
        invariant
            i <= stop_tokens@.len(),
            t@ == text@,
            match best {
                Some(b) => earliest_stop(text@, views(stop_tokens@.take(i as int))) == Some(b as int),
                None => earliest_stop(text@, views(stop_tokens@.take(i as int))) is None,
            },
        decreases stop_tokens@.len() - i,
    {
        let tok = str_chars(stop_tokens[i].as_str());
        let found = find_chars_from(t.as_slice(), tok.as_slice(), 0);
        proof {
            assert(views(stop_tokens@.take(i + 1)).drop_last() =~= views(stop_tokens@.take(i as int)));
            assert(views(stop_tokens@.take(i + 1)).last() == tok@);
        }
        match found {
            Some(p) => {
                best = match best {
                    None => Some(p),
                    Some(b) => if p < b { Some(p) } else { Some(b) },
                };
            },
            None => {},
        }
        i += 1;
    }
    assert(stop_tokens@.take(stop_tokens@.len() as int) =~= stop_tokens@);
    let mut cur = t;
    match best {
        Some(b) => {
            proof {
                lemma_earliest_stop(text@, views(stop_tokens@));
            }
            cur.truncate(b);
        },
        None => {},
    }
    string_from_chars(cur.as_slice())
}

/// Stop-token truncation keeps a prefix of the text; the result contains
/// no occurrence of any non-empty stop token; and when the text was cut,
/// some stop token occurs in the text right at the cut.
pub proof fn law_stop_truncate_prefix_without_tokens(s: Seq<char>, tokens: Seq<Seq<char>>)
    ensures
        stop_truncate(s, tokens).len() <= s.len(),
        s.take(stop_truncate(s, tokens).len() as int) == stop_truncate(s, tokens),
        forall|k: int, i: int|
            0 <= k < tokens.len() && tokens[k].len() > 0 ==> !matches_at(#[trigger] stop_truncate(s, tokens), tokens[k], i),
        stop_truncate(s, tokens).len() < s.len() ==> exists|k: int|
            0 <= k < tokens.len() && #[trigger] matches_at(s, tokens[k], stop_truncate(s, tokens).len() as int),
{
    lemma_earliest_stop(s, tokens);
    let out = stop_truncate(s, tokens);
    match earliest_stop(s, tokens) {
        Some(m) => {
            assert(out == s.take(m));
            let kk = choose|k: int| 0 <= k < tokens.len() && #[trigger] find_from(s, tokens[k], 0) == Some(m);
            lemma_find_from(s, tokens[kk], 0);
            assert(matches_at(s, tokens[kk], m));
            assert forall|k: int, j: int| 0 <= k < tokens.len() && tokens[k].len() > 0 implies !matches_at(#[trigger] stop_truncate(s, tokens), tokens[k], j) by {
                let tk = tokens[k];
                lemma_find_from(s, tk, 0);
                if matches_at(out, tk, j) {
                    assert(out.subrange(j, j + tk.len()) =~= s.subrange(j, j + tk.len()));
                    assert(matches_at(s, tk, j));
                    assert(find_from(s, tokens[k], 0) is Some);
                }
            }
        },
        None => {
            assert(s.take(s.len() as int) =~= s);
            assert forall|k: int, j: int| 0 <= k < tokens.len() && tokens[k].len() > 0 implies !matches_at(#[trigger] stop_truncate(s, tokens), tokens[k], j) by {
                lemma_find_from(s, tokens[k], 0);
            }
        },
    }
}

/// The text of the error for a setting that is neither in the environment
/// nor defaulted.
pub open spec fn missing_setting_message(key: Seq<char>, env_key: Seq<char>) -> Seq<char> {
    "Missing "@ + key + " and env var "@ + env_key
}

/// Resolves a setting: the environment variable's value when it is set
/// (`env_value`, read by the caller), else the default, else a validation
/// error naming the key and the variable.
pub fn get_from_dict_or_env(key: &str, env_key: &str, env_value: Option<&str>, default: Option<&str>) -> (res: Result<
    String,
    ChainError,
>)
    ensures
        env_value matches Some(v) ==> (res matches Ok(s) && s@ == v@),
        env_value is None && default is Some ==> (res matches Ok(s) && s@ == default.unwrap()@),
        env_value is None && default is None ==> (res matches Err(ChainError::ValidationError(m)) && m@
            == missing_setting_message(key@, env_key@)),
{
    if let Some(v) = env_value {
        return Ok(v.to_owned());
    }
    if let Some(d) = default {
        return Ok(d.to_owned());
    }
    let mut m = String::from_str("Missing ");
    m.append(key);
    m.append(" and env var ");
    m.append(env_key);
    Err(ChainError::ValidationError(m))
}

/// A JSON value as plain text: strings without quotes, `null`, booleans and
/// numbers as written, arrays as `[a, b]` and objects as `{k: v, ...}`,
/// recursively.
pub open spec fn stringified(n: JsonNode) -> Seq<char>
    decreases n,
{
    match n.kind {
        JsonKind::Str(s) => s@,
        JsonKind::Array(items) => "["@ + join(item_texts(items@), ", "@) + "]"@,
        JsonKind::Object(es) => "{"@ + join(entry_texts(es@), ", "@) + "}"@,
        JsonKind::Scalar => n.text@,
    }
}

/// The plain texts of array items.
pub open spec fn item_texts(items: Seq<JsonNode>) -> Seq<Seq<char>>
    decreases items,
{
    if items.len() == 0 {
        Seq::empty()
    } else {
        item_texts(items.drop_last()).push(stringified(items.last()))
    }
}

/// The `key: value` texts of object entries.
pub open spec fn entry_texts(es: Seq<(String, JsonNode)>) -> Seq<Seq<char>>
    decreases es,
{
    if es.len() == 0 {
        Seq::empty()
    } else {
        entry_texts(es.drop_last()).push(es.last().0@ + ": "@ + stringified(es.last().1))
    }
}

/// `open`, the text and `close` run together.
fn enclose(open: &str, inner: &str, close: &str) -> (res: String)
    ensures
        res@ == open@ + inner@ + close@,
{
    let mut s = String::from_str(open);
    s.append(inner);
    s.append(close);
    s
}

/// Renders a JSON value as plain text (see [`stringified`]).
pub fn stringify_value(value: &JsonNode) -> (res: String)
    ensures
        res@ == stringified(*value),
    decreases value,
{
    match &value.kind {
        JsonKind::Str(s) => s.clone(),
        JsonKind::Scalar => value.text.clone(),
        JsonKind::Array(items) => {
            let mut parts: Vec<String> = Vec::new();
            let mut i: usize = 0;
            while i < items.len()
                invariant
                    i <= items@.len(),
                    value.kind == JsonKind::Array(*items),
                    views(parts@) == item_texts(items@.take(i as int)),
                decreases items@.len() - i,
            {
                proof {
                    assert(decreases_to!(*value => value.kind));
                    assert(decreases_to!(value.kind => value.kind->Array_0));
                    assert(decreases_to!(value.kind->Array_0 => value.kind->Array_0@));
                    assert(decreases_to!(value.kind->Array_0@ => items@[i as int]));
                }
                let t = stringify_value(&items[i]);
                parts.push(t);
                proof {
                    assert(items@.take(i + 1).drop_last() =~= items@.take(i as int));
                    assert(items@.take(i + 1).last() == items@[i as int]);
                    assert(views(parts@) =~= item_texts(items@.take(i + 1)));
                }
                i += 1;
            }
            assert(items@.take(items@.len() as int) =~= items@);
            let inner = join_strings(&parts, ", ");
            enclose("[", inner.as_str(), "]")
        },
        JsonKind::Object(es) => {
            let mut parts: Vec<String> = Vec::new();
            let mut i: usize = 0;
            while i < es.len()
                invariant
                    i <= es@.len(),
                    value.kind == JsonKind::Object(*es),
                    views(parts@) == entry_texts(es@.take(i as int)),
                decreases es@.len() - i,
            {
                proof {
                    let e = es@[i as int];
                    assert(decreases_to!(*value => value.kind));
                    assert(decreases_to!(value.kind => value.kind->Object_0));
                    assert(decreases_to!(value.kind->Object_0 => value.kind->Object_0@));
                    assert(decreases_to!(value.kind->Object_0@ => e));
                    assert(decreases_to!(e => e.1));
                }
                let t = stringify_value(&es[i].1);
                let piece = enclose(es[i].0.as_str(), ": ", t.as_str());
                parts.push(piece);
                proof {
                    assert(es@.take(i + 1).drop_last() =~= es@.take(i as int));
                    assert(es@.take(i + 1).last() == es@[i as int]);
                    assert(views(parts@) =~= entry_texts(es@.take(i + 1)));
                }
                i += 1;
            }
            assert(es@.take(es@.len() as int) =~= es@);
            let inner = join_strings(&parts, ", ");
            enclose("{", inner.as_str(), "}")
        },
    }
}

/// The flat `(key, text)` pairs of one top-level entry: a string gives its
/// content; an object gives `key.sub` for each member, with the member's
/// content when it is a string and its compact JSON text otherwise; any
/// other value gives its plain text.
pub open spec fn flat_pairs(key: Seq<char>, v: JsonNode) -> Seq<(Seq<char>, Seq<char>)> {
    match v.kind {
        JsonKind::Str(s) => seq![(key, s@)],
        JsonKind::Object(es) => member_pairs(key, es@),
        _ => seq![(key, stringified(v))],
    }
}

/// The `key.sub` pairs of an object's members.
pub open spec fn member_pairs(key: Seq<char>, es: Seq<(String, JsonNode)>) -> Seq<(Seq<char>, Seq<char>)>
    decreases es.len(),
{
    if es.len() == 0 {
        Seq::empty()
    } else {
        let (sk, sv) = es.last();
        let text = match sv.kind {
            JsonKind::Str(s) => s@,
            _ => sv.text@,
        };
        member_pairs(key, es.drop_last()).push((key + "."@ + sk@, text))
    }
}

/// The flat pairs of all entries, in entry order.
pub open spec fn flattened(entries: Seq<(String, JsonNode)>) -> Seq<(Seq<char>, Seq<char>)>
    decreases entries.len(),
{
    if entries.len() == 0 {
        Seq::empty()
    } else {
        flattened(entries.drop_last()) + flat_pairs(entries.last().0@, entries.last().1)
    }
}

/// The view of a list of string pairs.
pub open spec fn pair_views(v: Seq<(String, String)>) -> Seq<(Seq<char>, Seq<char>)> {
    v.map_values(|p: (String, String)| (p.0@, p.1@))
}

/// Flattens the entries of a map of JSON values into `(key, text)` pairs,
/// in entry order (see [`flat_pairs`]); a map built from the pairs in order
/// keeps the last text for a repeated key.
pub fn flatten_dicts(entries: &Vec<(String, JsonNode)>) -> (out: Vec<(String, String)>)
    ensures
        pair_views(out@) == flattened(entries@),
{
    let mut out: Vec<(String, String)> = Vec::new();
    let mut i: usize = 0;
    while i < entries.len()
        invariant
            i <= entries@.len(),
            pair_views(out@) == flattened(entries@.take(i as int)),
        decreases entries@.len() - i,
    {
        proof {
            assert(entries@.take(i + 1).drop_last() =~= entries@.take(i as int));
            assert(entries@.take(i + 1).last() == entries@[i as int]);
        }
        let key = &entries[i].0;
        let value = &entries[i].1;
        let ghost before = pair_views(out@);
        match &value.kind {
            JsonKind::Str(s) => {
                out.push((key.clone(), s.clone()));
                assert(pair_views(out@) =~= before + flat_pairs(key@, *value));
            },
            JsonKind::Object(es) => {
                let mut j: usize = 0;
                while j < es.len()
                    invariant
                        j <= es@.len(),
                        pair_views(out@) == before + member_pairs(key@, es@.take(j as int)),
                    decreases es@.len() - j,
                {
                    proof {
                        assert(es@.take(j + 1).drop_last() =~= es@.take(j as int));
                        assert(es@.take(j + 1).last() == es@[j as int]);
                    }
                    let k2 = enclose(key.as_str(), ".", es[j].0.as_str());
                    let t = match &es[j].1.kind {
                        JsonKind::Str(s) => s.clone(),
                        _ => es[j].1.text.clone(),
                    };
                    let ghost mid = pair_views(out@);
                    proof {
                        let sv = es@[j as int].1;
                        let text = match sv.kind {
                            JsonKind::Str(s) => s@,
                            _ => sv.text@,
                        };
                        assert(t@ == text);
                        assert(member_pairs(key@, es@.take(j + 1)) == member_pairs(key@, es@.take(j as int)).push((key@ + "."@ + es@[j as int].0@, text)));
                    }
                    out.push((k2, t));
                    assert(pair_views(out@) =~= mid.push((k2@, t@)));
                    assert(pair_views(out@) =~= before + member_pairs(key@, es@.take(j + 1)));
                    j += 1;
                }
                assert(es@.take(es@.len() as int) =~= es@);
            },
            _ => {
                let t = stringify_value(value);
                out.push((key.clone(), t));
                assert(pair_views(out@) =~= before + flat_pairs(key@, *value));
            },
        }
        i += 1;
    }
    assert(entries@.take(entries@.len() as int) =~= entries@);
    out
}

/// The pattern of a Markdown code fence, optionally tagged `json`, whose
/// first group is the fenced content.
pub open spec fn fence_pattern() -> Seq<char> {
    "(?s)```(?:json)?\\s*([\\s\\S]*?)```"@
}

/// The JSON text read from `text`: the content of its first fenced block,
/// trimmed, or, without a fenced block, the whole text trimmed.
pub open spec fn markdown_json_text(text: Seq<char>) -> Seq<char> {
    let spans = char_spans(text, regex_capture_spans(fence_pattern(), text, 1));
    if spans.len() > 0 {
        match spans[0] {
            Some(p) => trim(text.subrange(p.0, p.1)),
            None => trim(text),
        }
    } else {
        trim(text)
    }
}

/// Parses JSON that may sit inside a Markdown code fence (see
/// [`markdown_json_text`]); a JSON error becomes a parser error with its
/// message.
pub fn parse_json_markdown(text: &str) -> (res: Result<JsonNode, ChainError>)
    ensures
        regex_is_valid(fence_pattern()) ==> match json_parse(markdown_json_text(text@)) {
            Ok(n) => res == Ok::<JsonNode, ChainError>(n),
            Err(m) => res matches Err(ChainError::ParserError(e)) && e@ == m@,
        },
        !regex_is_valid(fence_pattern()) ==> res matches Err(ChainError::ParserError(_)),
{
    let t = str_chars(text);
    let ranges = match capture_ranges("(?s)```(?:json)?\\s*([\\s\\S]*?)```", text, 1) {
        Some(r) => r,
        None => {
            return Err(ChainError::ParserError(String::from_str("Regex compilation error: invalid code fence pattern")));
        },
    };
    proof {
        let a = crate::pattern::spans_view(ranges@).map_values(|o: Option<(nat, nat)>| match o {
            Some(p) => Some((p.0 as int, p.1 as int)),
            None => None,
        });
        assert(a.len() == ranges@.len());
        if ranges@.len() > 0 {
            assert(a[0] == match ranges@[0] {
                Some(p) => Some((p.0 as int, p.1 as int)),
                None => None,
            });
        }
    }
    let inner: Vec<char> = if ranges.len() > 0 {
        match ranges[0] {
            Some((a, b)) => {
                let piece = chars_between(t.as_slice(), a, b);
                trim_chars(piece.as_slice())
            },
            None => trim_chars(t.as_slice()),
        }
    } else {
        trim_chars(t.as_slice())
    };
    assert(inner@ == markdown_json_text(text@));
    let body = string_from_chars(inner.as_slice());
    match parse_json(body.as_str()) {
        Ok(n) => Ok(n),
        Err(m) => Err(ChainError::ParserError(m)),
    }
}

} // verus!
