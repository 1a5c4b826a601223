//! JSON values as the library reads them, parsed with `serde_json`.
//!
//! A [`JsonNode`] keeps, for every value in the tree, the compact text that
//! `serde_json` serializes it to, and its structure: object entries (in the
//! map's iteration order, which for `serde_json`'s default map is key
//! order), array items, or the content of a string.

use crate::text::str_equal;
use vstd::prelude::*;

verus! {

/// The shape of a JSON value.
#[derive(Debug)]
pub enum JsonKind {
    /// An object: its entries in iteration order.
    Object(Vec<(String, JsonNode)>),
    /// An array: its items.
    Array(Vec<JsonNode>),
    /// A string: its content.
    Str(String),
    /// `null`, a boolean or a number.
    Scalar,
}

/// A JSON value: its compact serialization and its shape.
#[derive(Debug)]
pub struct JsonNode {
    /// The value serialized compactly, as `serde_json::to_string` writes it.
    pub text: String,
    /// The value's shape.
    pub kind: JsonKind,
}

#[verifier::external_type_specification]
#[verifier::external_body]
pub struct ExJsonValue(serde_json::Value);

/// What `serde_json::from_str::<serde_json::Value>` makes of a text: the
/// parsed tree, or the error's message.
pub uninterp spec fn json_parse(text: Seq<char>) -> Result<JsonNode, String>;

/// Converts a parsed `serde_json::Value` into a [`JsonNode`], serializing
/// each value with `serde_json::to_string`; used by [`parse_json`] only.
#[verifier::external_body]
fn json_node_of(v: &serde_json::Value) -> JsonNode {
    let text = serde_json::to_string(v).unwrap_or_default();
    let kind = match v {
        serde_json::Value::Object(m) => JsonKind::Object(m.iter().map(|(k, x)| (k.clone(), json_node_of(x))).collect()),
        serde_json::Value::Array(a) => JsonKind::Array(a.iter().map(json_node_of).collect()),
        serde_json::Value::String(s) => JsonKind::Str(s.clone()),
        _ => JsonKind::Scalar,
    };
    JsonNode { text, kind }
}

/// Parses JSON text with `serde_json::from_str::<serde_json::Value>`.
///
/// Claimed of the crate: the outcome (tree or error message) is determined
/// by the text, named `json_parse`. Which texts parse, and to what, is left
/// unstated.
#[verifier::external_body]
pub fn parse_json(text: &str) -> (r: Result<JsonNode, String>)
    ensures
        r == json_parse(text@),
{
    match serde_json::from_str::<serde_json::Value>(text) {
        Ok(v) => Ok(json_node_of(&v)),
        Err(e) => Err(e.to_string()),
    }
}

/// The value of the first entry named `key`.
pub open spec fn entry_value(entries: Seq<(String, JsonNode)>, key: Seq<char>) -> Option<JsonNode>
    decreases entries.len(),
{
    if entries.len() == 0 {
        None
    } else if entries[0].0@ == key {
        Some(entries[0].1)
    } else {
        entry_value(entries.drop_first(), key)
    }
}

/// The member `key` of an object (`None` for other values).
pub open spec fn member(n: JsonNode, key: Seq<char>) -> Option<JsonNode> {
    match n.kind {
        JsonKind::Object(es) => entry_value(es@, key),
        _ => None,
    }
}

impl JsonNode {
    /// The member `key` of this object, or `None` when it is not an object
    /// or has no such member.
    pub fn get(&self, key: &str) -> (r: Option<&JsonNode>)
        ensures
            match member(*self, key@) {
                Some(m) => r matches Some(x) && *x == m,
                None => r is None,
            },
    {
        match &self.kind {
            JsonKind::Object(es) => {
                let mut i: usize = 0;
                assert(es@.skip(0) =~= es@);
                let ghost m = member(*self, key@);
                assert(m == entry_value(es@, key@));
                while i < es.len()
                    invariant
                        i <= es@.len(),
                        m == member(*self, key@),
                        m == entry_value(es@, key@),
                        entry_value(es@, key@) == entry_value(es@.skip(i as int), key@),
                    decreases es@.len() - i,
                {
                    proof {
                        assert(es@.skip(i as int).drop_first() =~= es@.skip(i + 1));
                        assert(es@.skip(i as int)[0] == es@[i as int]);
                    }
                    if str_equal(es[i].0.as_str(), key) {
                        assert(entry_value(es@.skip(i as int), key@) == Some(es@[i as int].1));
                        return Some(&es[i].1);
                    }
                    i += 1;
                }
                None
            },
            _ => None,
        }
    }

    /// This object's member `key`, taken out of it; `None` when it is not
    /// an object or has no such member.
    pub fn into_member(self, key: &str) -> (r: Option<JsonNode>)
        ensures
            r == member(self, key@),
    {
        let ghost whole = member(self, key@);
        match self.kind {
            JsonKind::Object(es) => {
                let ghost orig = es@;
                let mut es = es;
                let mut i: usize = 0;
                assert(orig.skip(0) =~= orig);
                let ghost m = whole;
                assert(m == entry_value(orig, key@));
                while i < es.len()
                    invariant
                        i <= es@.len(),
                        m == whole,
                        whole == member(self, key@),
                        m == entry_value(orig, key@),
                        es@ == orig,
                        entry_value(orig, key@) == entry_value(orig.skip(i as int), key@),
                    decreases es@.len() - i,
                {
                    proof {
                        assert(orig.skip(i as int).drop_first() =~= orig.skip(i + 1));
                        assert(orig.skip(i as int)[0] == orig[i as int]);
                    }
                    if str_equal(es[i].0.as_str(), key) {
                        assert(entry_value(orig.skip(i as int), key@) == Some(orig[i as int].1));
                        let e = es.swap_remove(i);
                        assert(e == orig[i as int]);
                        return Some(e.1);
                    }
                    i += 1;
                }
                None
            },
            _ => None,
        }
    }

    /// The content of this value when it is a string.
    pub fn as_str(&self) -> (r: Option<&str>)
        ensures
            match self.kind {
                JsonKind::Str(s) => r matches Some(x) && x@ == s@,
                _ => r is None,
            },
    {
        match &self.kind {
            JsonKind::Str(s) => Some(s.as_str()),
            _ => None,
        }
    }
}

} // verus!
