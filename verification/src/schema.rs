//! JSON schemas: type names, the required fields and properties a schema
//! declares, and filling in declared defaults.

use crate::doc_stores::{lowercase, to_lowercase};
use crate::errors::ChainError;
use crate::json::{entry_value, JsonKind, JsonNode};
use crate::json_splitters::{decimal, decimal_chars, decimal_chars_u64};
use crate::retrievers::{as_u64, json_u64};
use crate::text::{blen, byte_len, join, join_strings, string_from_chars};
use crate::outputs::{copy_value, object_entries, object_members, object_of};
use crate::routing::{entries_map, has_key, keys_distinct, lemma_entries_push};
use crate::text::{chars_equal, str_chars, str_equal, views};
use vstd::prelude::*;

verus! {

/// A JSON-schema value type.
#[derive(Debug, Clone, Copy, PartialEq, Eq, Structural)]
pub enum SchemaType {
    /// `"string"`.
    String,
    /// `"number"`.
    Number,
    /// `"integer"`.
    Integer,
    /// `"boolean"`.
    Boolean,
    /// `"array"`.
    Array,
    /// `"object"`.
    Object,
    /// `"null"`.
    Null,
    /// Any other type name.
    Any,
}

/// The JSON-schema name of a type.
pub open spec fn schema_type_name(t: SchemaType) -> Seq<char> {
    match t {
        SchemaType::String => "string"@,
        SchemaType::Number => "number"@,
        SchemaType::Integer => "integer"@,
        SchemaType::Boolean => "boolean"@,
        SchemaType::Array => "array"@,
        SchemaType::Object => "object"@,
        SchemaType::Null => "null"@,
        SchemaType::Any => "any"@,
    }
}

/// The type a JSON-schema name denotes; unknown names (and `"any"`) denote
/// [`SchemaType::Any`].
pub open spec fn schema_type_of(s: Seq<char>) -> SchemaType {
    if s == "string"@ {
        SchemaType::String
    } else if s == "number"@ {
        SchemaType::Number
    } else if s == "integer"@ {
        SchemaType::Integer
    } else if s == "boolean"@ {
        SchemaType::Boolean
    } else if s == "array"@ {
        SchemaType::Array
    } else if s == "object"@ {
        SchemaType::Object
    } else if s == "null"@ {
        SchemaType::Null
    } else {
        SchemaType::Any
    }
}

impl SchemaType {
    /// The type named `s`.
    pub fn from_str(s: &str) -> (res: Self)
        ensures
            res == schema_type_of(s@),
    {
        let c = str_chars(s);
        let names: [(&str, SchemaType); 7] = [
            ("string", SchemaType::String),
            ("number", SchemaType::Number),
            ("integer", SchemaType::Integer),
            ("boolean", SchemaType::Boolean),
            ("array", SchemaType::Array),
            ("object", SchemaType::Object),
            ("null", SchemaType::Null),
        ];
        let mut i: usize = 0;
        while i < 7
            invariant
                c@ == s@,
                names@ == seq![
                    ("string", SchemaType::String),
                    ("number", SchemaType::Number),
                    ("integer", SchemaType::Integer),
                    ("boolean", SchemaType::Boolean),
                    ("array", SchemaType::Array),
                    ("object", SchemaType::Object),
                    ("null", SchemaType::Null),
                ],
                0 <= i <= 7,
                forall|k: int| 0 <= k < i ==> s@ != names@[k].0@,
            decreases 7 - i,
        {
            let (name, t) = names[i];
            let nc = str_chars(name);
            if chars_equal(c.as_slice(), nc.as_slice()) {
                return t;
            }
            i += 1;
        }
        SchemaType::Any
    }

    /// The JSON-schema name of this type.
    pub fn as_str(&self) -> (res: &'static str)
        ensures
            res@ == schema_type_name(*self),
    {
        match self {
            SchemaType::String => "string",
            SchemaType::Number => "number",
            SchemaType::Integer => "integer",
            SchemaType::Boolean => "boolean",
            SchemaType::Array => "array",
            SchemaType::Object => "object",
            SchemaType::Null => "null",
            SchemaType::Any => "any",
        }
    }
}

/// The items of a JSON array; `None` for a value that is not an array.
pub uninterp spec fn array_items(v: serde_json::Value) -> Option<Seq<serde_json::Value>>;

/// The content of a JSON string; `None` for a value that is not a string.
pub uninterp spec fn string_content(v: serde_json::Value) -> Option<Seq<char>>;

/// The items of `v` when it is an array (`serde_json::Value::as_array`),
/// copied.
///
/// Claimed of the crate: there are items exactly when `v` is an array, and
/// they are its items in order.
#[verifier::external_body]
fn array_of(v: &serde_json::Value) -> (r: Option<Vec<serde_json::Value>>)
    ensures
        match r {
            Some(items) => array_items(*v) == Some(items@),
            None => array_items(*v) is None,
        },
{
    v.as_array().map(|a| a.clone())
}

/// The content of `v` when it is a string (`serde_json::Value::as_str`),
/// copied.
///
/// Claimed of the crate: there is content exactly when `v` is a string.
#[verifier::external_body]
fn string_of(v: &serde_json::Value) -> (r: Option<String>)
    ensures
        match r {
            Some(s) => string_content(*v) == Some(s@),
            None => string_content(*v) is None,
        },
{
    v.as_str().map(|s| s.to_string())
}

/// The member `key` of `v` when `v` is an object that has it.
pub open spec fn member_of(v: serde_json::Value, key: Seq<char>) -> Option<serde_json::Value> {
    match object_members(v) {
        Some(m) => if m.contains_key(key) {
            Some(m[key])
        } else {
            None
        },
        None => None,
    }
}

/// The entry of `es` named `key`, if any.
fn find_named(es: &Vec<(String, serde_json::Value)>, key: &str) -> (r: Option<usize>)
    ensures
        match r {
            Some(j) => j < es@.len() && es@[j as int].0@ == key@,
            None => forall|j: int| 0 <= j < es@.len() ==> es@[j].0@ != key@,
        },
{
    let mut i: usize = 0;
    while i < es.len()
        invariant
            i <= es@.len(),
            forall|j: int| 0 <= j < i ==> es@[j].0@ != key@,
        decreases es@.len() - i,
    {
        if str_equal(es[i].0.as_str(), key) {
            return Some(i);
        }
        i += 1;
    }
    None
}

/// With distinct names, an entry's value is what the map holds under its
/// name, and a name no entry has is not in the map.
proof fn lemma_entries_lookup(es: Seq<(String, serde_json::Value)>, key: Seq<char>)
    requires
        keys_distinct(es),
    ensures
        forall|j: int| 0 <= j < es.len() && es[j].0@ == key ==> entries_map(es).contains_key(key) && entries_map(es)[key] == es[j].1,
        (forall|j: int| 0 <= j < es.len() ==> es[j].0@ != key) ==> !entries_map(es).contains_key(key),
{
    assert forall|j: int| 0 <= j < es.len() && es[j].0@ == key implies entries_map(es).contains_key(key) && entries_map(es)[key] == es[j].1 by {
        let c = choose|i: int| 0 <= i < es.len() && es[i].0@ == key;
        if c != j {
            if c < j {
                assert(es[c].0@ != es[j].0@);
            } else {
                assert(es[j].0@ != es[c].0@);
            }
        }
    }
}

/// The member `key` of `v`, copied, when `v` is an object that has it.
pub fn get_member(v: &serde_json::Value, key: &str) -> (r: Option<serde_json::Value>)
    ensures
        r == member_of(*v, key@),
{
    match object_entries(v) {
        Some(es) => {
            proof {
                lemma_entries_lookup(es@, key@);
            }
            match find_named(&es, key) {
                Some(j) => Some(copy_value(&es[j].1)),
                None => None,
            }
        },
        None => None,
    }
}

/// The contents of the string items among `items`, in order.
pub open spec fn string_items(items: Seq<serde_json::Value>) -> Seq<Seq<char>>
    decreases items.len(),
{
    if items.len() == 0 {
        Seq::empty()
    } else {
        let rest = string_items(items.drop_last());
        match string_content(items.last()) {
            Some(s) => rest.push(s),
            None => rest,
        }
    }
}

/// The required fields a schema lists: the strings of its `required`
/// array, in order; none when it has no such array.
pub open spec fn required_fields_of(schema: serde_json::Value) -> Seq<Seq<char>> {
    match member_of(schema, "required"@) {
        Some(r) => match array_items(r) {
            Some(items) => string_items(items),
            None => Seq::empty(),
        },
        None => Seq::empty(),
    }
}

/// The strings among `items`, in order.
fn strings_among(items: &Vec<serde_json::Value>) -> (r: Vec<String>)
    ensures
        views(r@) == string_items(items@),
{
    let mut out: Vec<String> = Vec::new();
    let mut i: usize = 0;
    assert(items@.take(0) =~= Seq::<serde_json::Value>::empty());
    while i < items.len()
        invariant
            i <= items@.len(),
            views(out@) == string_items(items@.take(i as int)),
        decreases items@.len() - i,
    {
        assert(items@.take(i + 1).drop_last() =~= items@.take(i as int));
        assert(items@.take(i + 1).last() == items@[i as int]);
        match string_of(&items[i]) {
            Some(s) => {
                out.push(s);
                assert(views(out@) =~= string_items(items@.take(i + 1)));
            },
            None => {},
        }
        i += 1;
    }
    assert(items@.take(items@.len() as int) =~= items@);
    out
}

/// The field names a schema requires (see [`required_fields_of`]).
pub fn extract_required_fields(schema: &serde_json::Value) -> (r: Vec<String>)
    ensures
        views(r@) == required_fields_of(*schema),
{
    match get_member(schema, "required") {
        Some(req) => match array_of(&req) {
            Some(items) => strings_among(&items),
            None => Vec::new(),
        },
        None => Vec::new(),
    }
}

/// An object's members with the declared defaults of the properties it
/// lacks added.
pub open spec fn with_defaults(obj: Map<Seq<char>, serde_json::Value>, props: Map<Seq<char>, serde_json::Value>) -> Map<Seq<char>, serde_json::Value> {
    Map::new(
        |k: Seq<char>| obj.contains_key(k) || (props.contains_key(k) && member_of(props[k], "default"@) is Some),
        |k: Seq<char>| if obj.contains_key(k) {
            obj[k]
        } else {
            member_of(props[k], "default"@)->Some_0
        },
    )
}

/// What filling defaults makes of `old`: when `old` is an object and the
/// schema declares its `properties` as an object, every declared property
/// that `old` lacks and that has a `default` is added with it; otherwise
/// `old` is unchanged.
pub open spec fn defaults_filled(old: serde_json::Value, schema: serde_json::Value, new: serde_json::Value) -> bool {
    match member_of(schema, "properties"@) {
        Some(p) => match object_members(p) {
            Some(props) => match object_members(old) {
                Some(obj) => object_members(new) == Some(with_defaults(obj, props)),
                None => new == old,
            },
            None => new == old,
        },
        None => new == old,
    }
}

/// Adds to the object `value` the declared default of every property of
/// `schema` that it lacks (see [`defaults_filled`]). Never fails.
pub fn fill_defaults(value: &mut serde_json::Value, schema: &serde_json::Value) -> (res: Result<(), ChainError>)
    ensures
        res is Ok,
        defaults_filled(*old(value), *schema, *final(value)),
{
    let pv = match get_member(schema, "properties") {
        Some(p) => p,
        None => return Ok(()),
    };
    let pe = match object_entries(&pv) {
        Some(e) => e,
        None => return Ok(()),
    };
    let oe = match object_entries(value) {
        Some(e) => e,
        None => return Ok(()),
    };
    let ghost obj = entries_map(oe@);
    let mut cur = oe;
    let mut i: usize = 0;
    proof {
        assert(entries_map(pe@.take(0)) =~= Map::<Seq<char>, serde_json::Value>::empty());
        assert(with_defaults(obj, Map::<Seq<char>, serde_json::Value>::empty()) =~= obj);
    }
    while i < pe.len()
        invariant
            i <= pe@.len(),
            keys_distinct(pe@),
            keys_distinct(cur@),
            forall|k: Seq<char>| #[trigger] obj.contains_key(k) ==> entries_map(cur@).contains_key(k),
            entries_map(cur@) == with_defaults(obj, entries_map(pe@.take(i as int))),
        decreases pe@.len() - i,
    {
        let ghost before = cur@;
        let ghost pk = pe@[i as int].0@;
        proof {
            assert(pe@.take(i + 1) =~= pe@.take(i as int).push(pe@[i as int]));
            assert(keys_distinct(pe@.take(i as int)));
            assert(!has_key(pe@.take(i as int), pk)) by {
                if has_key(pe@.take(i as int), pk) {
                    let a = choose|a: int| 0 <= a < i && pe@.take(i as int)[a].0@ == pk;
                    assert(pe@[a].0@ != pe@[i as int].0@);
                }
            }
            lemma_entries_push(pe@.take(i as int), pe@[i as int]);
        }
        let ghost pi = entries_map(pe@.take(i as int));
        let ghost pn = entries_map(pe@.take(i + 1));
        match find_named(&cur, pe[i].0.as_str()) {
            Some(_) => {
                proof {
                    assert(entries_map(before).contains_key(pk)) by {
                        lemma_entries_lookup(before, pk);
                    }
                    assert(obj.contains_key(pk));
                    assert(with_defaults(obj, pn) =~= with_defaults(obj, pi));
                }
            },
            None => {
                proof {
                    lemma_entries_lookup(before, pk);
                    assert(!obj.contains_key(pk));
                }
                match get_member(&pe[i].1, "default") {
                    Some(d) => {
                        let e = (pe[i].0.clone(), d);
                        proof {
                            assert(!has_key(before, e.0@));
                            lemma_entries_push(before, e);
                        }
                        cur.push(e);
                        proof {
                            assert(with_defaults(obj, pn) =~= with_defaults(obj, pi).insert(pk, e.1));
                        }
                    },
                    None => {
                        proof {
                            assert(with_defaults(obj, pn) =~= with_defaults(obj, pi));
                        }
                    },
                }
            },
        }
        i += 1;
    }
    assert(pe@.take(pe@.len() as int) =~= pe@);
    *value = object_of(cur);
    Ok(())
}

/// A property a schema declares.
#[derive(Debug, Clone)]
pub struct SchemaProperty {
    /// The property's name.
    pub name: String,
    /// Its declared type (`Any` when none is declared).
    pub prop_type: SchemaType,
    /// Whether the schema lists it as required.
    pub required: bool,
    /// Its description, when declared as a string.
    pub description: Option<String>,
    /// Its declared default.
    pub default: Option<serde_json::Value>,
    /// Its allowed values, when declared as an array.
    pub enum_values: Option<Vec<serde_json::Value>>,
}

/// The properties a schema declares, by name: the members of its
/// `properties` object (none when there is no such object).
pub open spec fn declared_properties(schema: serde_json::Value) -> Map<Seq<char>, serde_json::Value> {
    match member_of(schema, "properties"@) {
        Some(p) => match object_members(p) {
            Some(m) => m,
            None => Map::empty(),
        },
        None => Map::empty(),
    }
}

/// The type a property schema declares: the type named by its `type`
/// string, `Any` without one.
pub open spec fn declared_type(ps: serde_json::Value) -> SchemaType {
    match member_of(ps, "type"@) {
        Some(t) => match string_content(t) {
            Some(n) => schema_type_of(n),
            None => SchemaType::Any,
        },
        None => SchemaType::Any,
    }
}

/// `p` describes the property `name` declared by `ps`, required when it is
/// among `required`.
pub open spec fn describes(p: SchemaProperty, name: Seq<char>, ps: serde_json::Value, required: Seq<Seq<char>>) -> bool {
    &&& p.name@ == name
    &&& p.prop_type == declared_type(ps)
    &&& p.required == required.contains(name)
    &&& match member_of(ps, "description"@) {
        Some(d) => match string_content(d) {
            Some(t) => p.description matches Some(x) && x@ == t,
            None => p.description is None,
        },
        None => p.description is None,
    }
    &&& p.default == member_of(ps, "default"@)
    &&& match member_of(ps, "enum"@) {
        Some(e) => match array_items(e) {
            Some(items) => p.enum_values matches Some(v) && v@ == items,
            None => p.enum_values is None,
        },
        None => p.enum_values is None,
    }
}

/// Whether `name` is among `names`.
fn contains_name(names: &Vec<String>, name: &str) -> (b: bool)
    ensures
        b == views(names@).contains(name@),
{
    let mut i: usize = 0;
    while i < names.len()
        invariant
            i <= names@.len(),
            forall|j: int| 0 <= j < i ==> names@[j]@ != name@,
        decreases names@.len() - i,
    {
        if str_equal(names[i].as_str(), name) {
            assert(views(names@)[i as int] == name@);
            return true;
        }
        i += 1;
    }
    assert forall|j: int| 0 <= j < views(names@).len() implies views(names@)[j] != name@ by {
        assert(views(names@)[j] == names@[j]@);
    }
    false
}

/// The property `name` as declared by the property schema `ps`.
fn property_of(name: &String, ps: &serde_json::Value, required: &Vec<String>) -> (p: SchemaProperty)
    ensures
        describes(p, name@, *ps, views(required@)),
{
    let prop_type = match get_member(ps, "type") {
        Some(t) => match string_of(&t) {
            Some(n) => SchemaType::from_str(n.as_str()),
            None => SchemaType::Any,
        },
        None => SchemaType::Any,
    };
    let description = match get_member(ps, "description") {
        Some(d) => string_of(&d),
        None => None,
    };
    let default = get_member(ps, "default");
    let enum_values = match get_member(ps, "enum") {
        Some(e) => array_of(&e),
        None => None,
    };
    let req = contains_name(required, name.as_str());
    SchemaProperty { name: name.clone(), prop_type, required: req, description, default, enum_values }
}

/// The properties a schema declares (see [`declared_properties`]), each
/// once, with its type, whether it is required, its description, default
/// and allowed values.
pub fn extract_properties(schema: &serde_json::Value) -> (r: Vec<SchemaProperty>)
    ensures
        forall|i: int, j: int| 0 <= i < j < r@.len() ==> r@[i].name@ != r@[j].name@,
        forall|i: int| 0 <= i < r@.len() ==> declared_properties(*schema).contains_key(#[trigger] r@[i].name@)
            && describes(r@[i], r@[i].name@, declared_properties(*schema)[r@[i].name@], required_fields_of(*schema)),
        forall|k: Seq<char>| #[trigger] declared_properties(*schema).contains_key(k) ==> exists|i: int| 0 <= i < r@.len() && r@[i].name@ == k,
{
    let required = extract_required_fields(schema);
    let mut out: Vec<SchemaProperty> = Vec::new();
    let pe = match get_member(schema, "properties") {
        Some(p) => match object_entries(&p) {
            Some(e) => e,
            None => {
                assert(declared_properties(*schema) =~= Map::<Seq<char>, serde_json::Value>::empty());
                return out;
            },
        },
        None => {
            assert(declared_properties(*schema) =~= Map::<Seq<char>, serde_json::Value>::empty());
            return out;
        },
    };
    let ghost props = declared_properties(*schema);
    assert(props == entries_map(pe@));
    let mut i: usize = 0;
    while i < pe.len()
        invariant
            i <= pe@.len(),
            keys_distinct(pe@),
            props == entries_map(pe@),
            views(required@) == required_fields_of(*schema),
            out@.len() == i,
            forall|j: int| 0 <= j < i ==> (#[trigger] out@[j]).name@ == pe@[j].0@
                && describes(out@[j], pe@[j].0@, pe@[j].1, views(required@)),
        decreases pe@.len() - i,
    {
        let p = property_of(&pe[i].0, &pe[i].1, &required);
        out.push(p);
        i += 1;
    }
    proof {
        lemma_all_entries(pe@);
        assert forall|k: Seq<char>| #[trigger] props.contains_key(k) implies exists|i: int| 0 <= i < out@.len() && out@[i].name@ == k by {
            let c = choose|i: int| 0 <= i < pe@.len() && pe@[i].0@ == k;
            assert(out@[c].name@ == k);
        }
        assert forall|a: int, b: int| 0 <= a < b < out@.len() implies out@[a].name@ != out@[b].name@ by {
            assert(out@[a].name@ == pe@[a].0@ && out@[b].name@ == pe@[b].0@);
        }
    }
    out
}

/// With distinct names, every entry is in the map under its name, with its
/// value.
proof fn lemma_all_entries(es: Seq<(String, serde_json::Value)>)
    requires
        keys_distinct(es),
    ensures
        forall|j: int| 0 <= j < es.len() ==> entries_map(es).contains_key(#[trigger] es[j].0@) && entries_map(es)[es[j].0@] == es[j].1,
{
    assert forall|j: int| 0 <= j < es.len() implies entries_map(es).contains_key(#[trigger] es[j].0@) && entries_map(es)[es[j].0@] == es[j].1 by {
        lemma_entries_lookup(es, es[j].0@);
    }
}

// ---------------------------------------------------------------------------
// Validation
// ---------------------------------------------------------------------------

/// How `serde_json` shows the value written as `text` with `{:?}`.
pub uninterp spec fn json_debug(text: Seq<char>) -> Seq<char>;

/// Whether the number written as `a` is below the one written as `b`, both
/// read as `f64` (`Value::as_f64`); `None` when either is not a number.
pub uninterp spec fn number_below(a: Seq<char>, b: Seq<char>) -> Option<bool>;

/// How the number written as `text` shows as an `f64` with `{}`.
pub uninterp spec fn number_display(text: Seq<char>) -> Seq<char>;

/// Whether the values written as `a` and `b` are equal (`Value`'s `==`).
pub uninterp spec fn json_same(a: Seq<char>, b: Seq<char>) -> bool;

/// Shows the value written as `text` with `{:?}` (read with
/// `serde_json::from_str`).
///
/// Claimed of the crate: the text is determined by `text`, named
/// `json_debug`.
#[verifier::external_body]
fn debug_text(text: &str) -> (r: String)
    ensures
        r@ == json_debug(text@),
{
    format!("{:?}", serde_json::from_str::<serde_json::Value>(text).unwrap_or(serde_json::Value::Null))
}

/// Compares the numbers written as `a` and `b` as `f64` (`Value::as_f64`,
/// then `<`).
///
/// Claimed of the crate: the answer is determined by the two texts, named
/// `number_below`.
#[verifier::external_body]
fn compare_numbers(a: &str, b: &str) -> (r: Option<bool>)
    ensures
        r == number_below(a@, b@),
{
    let x = serde_json::from_str::<serde_json::Value>(a).ok().and_then(|v| v.as_f64());
    let y = serde_json::from_str::<serde_json::Value>(b).ok().and_then(|v| v.as_f64());
    match (x, y) {
        (Some(x), Some(y)) => Some(x < y),
        _ => None,
    }
}

/// Shows the number written as `text` as an `f64` with `{}`.
///
/// Claimed of the crate: the text is determined by `text`, named
/// `number_display`.
#[verifier::external_body]
fn display_number(text: &str) -> (r: String)
    ensures
        r@ == number_display(text@),
{
    match serde_json::from_str::<serde_json::Value>(text).ok().and_then(|v| v.as_f64()) {
        Some(x) => format!("{}", x),
        None => String::new(),
    }
}

/// Compares the values written as `a` and `b` with `Value`'s `==`.
///
/// Claimed of the crate: the answer is determined by the two texts, named
/// `json_same`.
#[verifier::external_body]
fn same_value(a: &str, b: &str) -> (r: bool)
    ensures
        r == json_same(a@, b@),
{
    serde_json::from_str::<serde_json::Value>(a).ok() == serde_json::from_str::<serde_json::Value>(b).ok()
}

/// `c` occurs in `s`.
pub open spec fn has_char(s: Seq<char>, c: char) -> bool {
    exists|i: int| 0 <= i < s.len() && s[i] == c
}

/// Whether `value` is of the JSON-schema type named `tn` (any value is of
/// an unknown type).
pub open spec fn type_matches(value: JsonNode, tn: Seq<char>) -> bool {
    let t = value.text@;
    let scalar_number = value.kind is Scalar && t != "null"@ && t != "true"@ && t != "false"@;
    if tn == "string"@ {
        value.kind is Str
    } else if tn == "number"@ {
        scalar_number
    } else if tn == "integer"@ {
        scalar_number && !has_char(t, '.') && !has_char(t, 'e') && !has_char(t, 'E')
    } else if tn == "boolean"@ {
        value.kind is Scalar && (t == "true"@ || t == "false"@)
    } else if tn == "array"@ {
        value.kind is Array
    } else if tn == "object"@ {
        value.kind is Object
    } else if tn == "null"@ {
        value.kind is Scalar && t == "null"@
    } else {
        true
    }
}

/// The type check: the declared `type`, when it is a string, must match.
pub open spec fn type_violation(value: JsonNode, es: Seq<(String, JsonNode)>) -> Option<Seq<char>> {
    match entry_value(es, "type"@) {
        Some(t) => match t.kind {
            JsonKind::Str(tn) => if type_matches(value, tn@) {
                None
            } else {
                Some("Expected type '"@ + tn@ + "' but got value: "@ + json_debug(value.text@))
            },
            _ => None,
        },
        None => None,
    }
}

/// The first required name (a string item of `req`) that the object
/// members `vs` lack.
pub open spec fn first_missing(req: Seq<JsonNode>, vs: Seq<(String, JsonNode)>) -> Option<Seq<char>>
    decreases req.len(),
{
    if req.len() == 0 {
        None
    } else {
        match req[0].kind {
            JsonKind::Str(k) => if entry_value(vs, k@) is None {
                Some(k@)
            } else {
                first_missing(req.drop_first(), vs)
            },
            _ => first_missing(req.drop_first(), vs),
        }
    }
}

/// The required-fields check, for an object value.
pub open spec fn required_violation(value: JsonNode, es: Seq<(String, JsonNode)>) -> Option<Seq<char>> {
    match entry_value(es, "required"@) {
        Some(r) => match r.kind {
            JsonKind::Array(items) => match value.kind {
                JsonKind::Object(vs) => match first_missing(items@, vs@) {
                    Some(k) => Some("Missing required field: "@ + k),
                    None => None,
                },
                _ => None,
            },
            _ => None,
        },
        None => None,
    }
}

/// The `{:?}` texts of values.
pub open spec fn debug_texts(vals: Seq<JsonNode>) -> Seq<Seq<char>> {
    Seq::new(vals.len(), |i: int| json_debug(vals[i].text@))
}

/// The allowed-values check.
pub open spec fn enum_violation(value: JsonNode, es: Seq<(String, JsonNode)>) -> Option<Seq<char>> {
    match entry_value(es, "enum"@) {
        Some(e) => match e.kind {
            JsonKind::Array(vals) => if exists|i: int| 0 <= i < vals@.len() && json_same(vals@[i].text@, value.text@) {
                None
            } else {
                Some("Value "@ + json_debug(value.text@) + " not in enum "@ + "["@ + join(debug_texts(vals@), ", "@) + "]"@)
            },
            _ => None,
        },
        None => None,
    }
}

/// The lower-bound check on numbers.
pub open spec fn minimum_violation(value: JsonNode, es: Seq<(String, JsonNode)>) -> Option<Seq<char>> {
    match entry_value(es, "minimum"@) {
        Some(m) => if number_below(value.text@, m.text@) == Some(true) {
            Some("Value "@ + number_display(value.text@) + " is less than minimum "@ + number_display(m.text@))
        } else {
            None
        },
        None => None,
    }
}

/// The upper-bound check on numbers.
pub open spec fn maximum_violation(value: JsonNode, es: Seq<(String, JsonNode)>) -> Option<Seq<char>> {
    match entry_value(es, "maximum"@) {
        Some(m) => if number_below(m.text@, value.text@) == Some(true) {
            Some("Value "@ + number_display(value.text@) + " is greater than maximum "@ + number_display(m.text@))
        } else {
            None
        },
        None => None,
    }
}

/// The length checks on strings (in bytes): `minLength`, then
/// `maxLength`.
pub open spec fn length_violation(value: JsonNode, es: Seq<(String, JsonNode)>) -> Option<Seq<char>> {
    let short = match entry_value(es, "minLength"@) {
        Some(m) => match json_u64(m) {
            Some(n) => match value.kind {
                JsonKind::Str(s) => if blen(s@) < n {
                    Some("String length "@ + decimal(blen(s@)) + " is less than minLength "@ + decimal(n as nat))
                } else {
                    None
                },
                _ => None,
            },
            None => None,
        },
        None => None,
    };
    if short is Some {
        short
    } else {
        match entry_value(es, "maxLength"@) {
            Some(m) => match json_u64(m) {
                Some(n) => match value.kind {
                    JsonKind::Str(s) => if blen(s@) > n {
                        Some("String length "@ + decimal(blen(s@)) + " is greater than maxLength "@ + decimal(n as nat))
                    } else {
                        None
                    },
                    _ => None,
                },
                None => None,
            },
            None => None,
        }
    }
}

/// The first violation of `schema` by `value`: the type, the required
/// fields, each declared property present in the value (in the order the
/// schema lists them), each item of an array value, the allowed values,
/// the bounds and the lengths, checked in that order. A schema that is not
/// an object constrains nothing.
pub open spec fn violation(value: JsonNode, schema: JsonNode) -> Option<Seq<char>>
    decreases schema, 0nat,
{
    match schema.kind {
        JsonKind::Object(es) => {
            let t = type_violation(value, es@);
            if t is Some {
                t
            } else {
                let r = required_violation(value, es@);
                if r is Some {
                    r
                } else {
                    let p = properties_violation(value, es@);
                    if p is Some {
                        p
                    } else {
                        let it = items_violation(value, es@);
                        if it is Some {
                            it
                        } else {
                            let e = enum_violation(value, es@);
                            if e is Some {
                                e
                            } else {
                                let lo = minimum_violation(value, es@);
                                if lo is Some {
                                    lo
                                } else {
                                    let hi = maximum_violation(value, es@);
                                    if hi is Some {
                                        hi
                                    } else {
                                        length_violation(value, es@)
                                    }
                                }
                            }
                        }
                    }
                }
            }
        },
        _ => None,
    }
}

/// The checks of the declared properties: the first entry of the schema
/// named `properties`, when it is an object, against an object value.
pub open spec fn properties_violation(value: JsonNode, es: Seq<(String, JsonNode)>) -> Option<Seq<char>>
    decreases es, 0nat,
{
    if es.len() == 0 {
        None
    } else if es[0].0@ == "properties"@ {
        match es[0].1.kind {
            JsonKind::Object(pes) => match value.kind {
                JsonKind::Object(vs) => each_property_violation(vs@, pes@),
                _ => None,
            },
            _ => None,
        }
    } else {
        properties_violation(value, es.drop_first())
    }
}

/// The first violation among the declared properties `pes` present in the
/// object members `vs`.
pub open spec fn each_property_violation(vs: Seq<(String, JsonNode)>, pes: Seq<(String, JsonNode)>) -> Option<Seq<char>>
    decreases pes, 0nat,
{
    if pes.len() == 0 {
        None
    } else {
        let here = match entry_value(vs, pes[0].0@) {
            Some(v) => violation(v, pes[0].1),
            None => None,
        };
        if here is Some {
            here
        } else {
            each_property_violation(vs, pes.drop_first())
        }
    }
}

/// The checks of the items: the first entry of the schema named `items`,
/// against each item of an array value.
pub open spec fn items_violation(value: JsonNode, es: Seq<(String, JsonNode)>) -> Option<Seq<char>>
    decreases es, 0nat,
{
    if es.len() == 0 {
        None
    } else if es[0].0@ == "items"@ {
        match value.kind {
            JsonKind::Array(arr) => each_item_violation(arr@, es[0].1, arr@.len()),
            _ => None,
        }
    } else {
        items_violation(value, es.drop_first())
    }
}

/// The first violation of `item_schema` among the first `n` items.
pub open spec fn each_item_violation(arr: Seq<JsonNode>, item_schema: JsonNode, n: nat) -> Option<Seq<char>>
    decreases item_schema, n,
{
    if n == 0 || n > arr.len() {
        None
    } else {
        let before = each_item_violation(arr, item_schema, (n - 1) as nat);
        if before is Some {
            before
        } else {
            violation(arr[n - 1], item_schema)
        }
    }
}

/// `Err(ValidationError(m))` exactly when the check found the violation `m`.
pub open spec fn reports(r: Result<(), ChainError>, v: Option<Seq<char>>) -> bool {
    match v {
        Some(m) => r matches Err(ChainError::ValidationError(x)) && x@ == m,
        None => r is Ok,
    }
}

/// A validation error with the message `m`.
fn invalid(m: String) -> (r: Result<(), ChainError>)
    ensures
        reports(r, Some(m@)),
{
    Err(ChainError::ValidationError(m))
}

/// The type check (see [`type_violation`]).
fn check_type(value: &JsonNode, schema: &JsonNode, es: &Vec<(String, JsonNode)>) -> (r: Result<(), ChainError>)
    requires
        schema.kind == JsonKind::Object(*es),
    ensures
        reports(r, type_violation(*value, es@)),
{
    match schema.get("type") {
        Some(t) => match &t.kind {
            JsonKind::Str(tn) => {
                let ok = if str_equal(tn.as_str(), "string") {
                    matches!(value.kind, JsonKind::Str(_))
                } else if str_equal(tn.as_str(), "number") {
                    matches!(value.kind, JsonKind::Scalar) && !str_equal(value.text.as_str(), "null") && !str_equal(value.text.as_str(), "true")
                        && !str_equal(value.text.as_str(), "false")
                } else if str_equal(tn.as_str(), "integer") {
                    matches!(value.kind, JsonKind::Scalar) && !str_equal(value.text.as_str(), "null") && !str_equal(value.text.as_str(), "true")
                        && !str_equal(value.text.as_str(), "false") && !text_has(value.text.as_str(), '.')
                        && !text_has(value.text.as_str(), 'e') && !text_has(value.text.as_str(), 'E')
                } else if str_equal(tn.as_str(), "boolean") {
                    matches!(value.kind, JsonKind::Scalar) && (str_equal(value.text.as_str(), "true") || str_equal(value.text.as_str(), "false"))
                } else if str_equal(tn.as_str(), "array") {
                    matches!(value.kind, JsonKind::Array(_))
                } else if str_equal(tn.as_str(), "object") {
                    matches!(value.kind, JsonKind::Object(_))
                } else if str_equal(tn.as_str(), "null") {
                    matches!(value.kind, JsonKind::Scalar) && str_equal(value.text.as_str(), "null")
                } else {
                    true
                };
                if ok {
                    Ok(())
                } else {
                    let mut m = String::from_str("Expected type '");
                    m.append(tn.as_str());
                    m.append("' but got value: ");
                    let d = debug_text(value.text.as_str());
                    m.append(d.as_str());
                    invalid(m)
                }
            },
            _ => Ok(()),
        },
        None => Ok(()),
    }
}

/// Whether `c` occurs in `s`.
fn text_has(s: &str, c: char) -> (b: bool)
    ensures
        b == has_char(s@, c),
{
    let v = str_chars(s);
    let mut i: usize = 0;
    while i < v.len()
        invariant
            i <= v@.len(),
            v@ == s@,
            forall|j: int| 0 <= j < i ==> v@[j] != c,
        decreases v@.len() - i,
    {
        if v[i] == c {
            return true;
        }
        i += 1;
    }
    false
}

/// The required-fields check (see [`required_violation`]).
fn check_required(value: &JsonNode, schema: &JsonNode, es: &Vec<(String, JsonNode)>) -> (r: Result<(), ChainError>)
    requires
        schema.kind == JsonKind::Object(*es),
    ensures
        reports(r, required_violation(*value, es@)),
{
    let req = match schema.get("required") {
        Some(x) => x,
        None => return Ok(()),
    };
    let items = match &req.kind {
        JsonKind::Array(items) => items,
        _ => return Ok(()),
    };
    let vs = match &value.kind {
        JsonKind::Object(vs) => vs,
        _ => return Ok(()),
    };
    let ghost target = required_violation(*value, es@);
    assert(target == match first_missing(items@, vs@) {
        Some(k) => Some("Missing required field: "@ + k),
        None => None::<Seq<char>>,
    });
    let mut i: usize = 0;
    assert(items@.skip(0) =~= items@);
    while i < items.len()
        invariant
            i <= items@.len(),
            value.kind == JsonKind::Object(*vs),
            target == required_violation(*value, es@),
            target == match first_missing(items@, vs@) {
                Some(k) => Some("Missing required field: "@ + k),
                None => None::<Seq<char>>,
            },
            first_missing(items@, vs@) == first_missing(items@.skip(i as int), vs@),
        decreases items@.len() - i,
    {
        assert(items@.skip(i as int).drop_first() =~= items@.skip(i + 1));
        assert(items@.skip(i as int)[0] == items@[i as int]);
        match &items[i].kind {
            JsonKind::Str(k) => {
                if value.get(k.as_str()).is_none() {
                    let mut m = String::from_str("Missing required field: ");
                    m.append(k.as_str());
                    assert(first_missing(items@.skip(i as int), vs@) == Some(k@));
                    return invalid(m);
                }
            },
            _ => {},
        }
        i += 1;
    }
    Ok(())
}

/// The allowed-values check (see [`enum_violation`]).
fn check_enum(value: &JsonNode, schema: &JsonNode, es: &Vec<(String, JsonNode)>) -> (r: Result<(), ChainError>)
    requires
        schema.kind == JsonKind::Object(*es),
    ensures
        reports(r, enum_violation(*value, es@)),
{
    let e = match schema.get("enum") {
        Some(x) => x,
        None => return Ok(()),
    };
    let vals = match &e.kind {
        JsonKind::Array(vals) => vals,
        _ => return Ok(()),
    };
    let mut i: usize = 0;
    let mut shown: Vec<String> = Vec::new();
    assert(entry_value(es@, "enum"@) == Some(*e));
    while i < vals.len()
        invariant
            i <= vals@.len(),
            entry_value(es@, "enum"@) == Some(*e),
            e.kind == JsonKind::Array(*vals),
            forall|j: int| 0 <= j < i ==> !json_same(vals@[j].text@, value.text@),
            shown@.len() == i,
            forall|j: int| 0 <= j < i ==> (#[trigger] shown@[j])@ == json_debug(vals@[j].text@),
        decreases vals@.len() - i,
    {
        if same_value(vals[i].text.as_str(), value.text.as_str()) {
            assert(json_same(vals@[i as int].text@, value.text@));
            return Ok(());
        }
        shown.push(debug_text(vals[i].text.as_str()));
        i += 1;
    }
    assert(views(shown@) =~= debug_texts(vals@));
    let mut m = String::from_str("Value ");
    let d = debug_text(value.text.as_str());
    m.append(d.as_str());
    m.append(" not in enum [");
    let joined = join_strings(&shown, ", ");
    m.append(joined.as_str());
    m.append("]");
    proof {
        reveal_strlit(" not in enum [");
        reveal_strlit(" not in enum ");
        reveal_strlit("[");
        assert(" not in enum ["@ =~= " not in enum "@ + "["@);
        let want = "Value "@ + json_debug(value.text@) + " not in enum "@ + "["@ + join(debug_texts(vals@), ", "@) + "]"@;
        assert(m@ =~= want);
        assert(!(exists|j: int| 0 <= j < vals@.len() && json_same(vals@[j].text@, value.text@)));
    }
    invalid(m)
}

/// The bound checks (see [`minimum_violation`], [`maximum_violation`]).
fn check_bounds(value: &JsonNode, schema: &JsonNode, es: &Vec<(String, JsonNode)>) -> (r: Result<(), ChainError>)
    requires
        schema.kind == JsonKind::Object(*es),
    ensures
        reports(r, if minimum_violation(*value, es@) is Some {
            minimum_violation(*value, es@)
        } else {
            maximum_violation(*value, es@)
        }),
{
    match schema.get("minimum") {
        Some(lo) => {
            if compare_numbers(value.text.as_str(), lo.text.as_str()) == Some(true) {
                let mut m = String::from_str("Value ");
                let a = display_number(value.text.as_str());
                m.append(a.as_str());
                m.append(" is less than minimum ");
                let b = display_number(lo.text.as_str());
                m.append(b.as_str());
                return invalid(m);
            }
        },
        None => {},
    }
    match schema.get("maximum") {
        Some(hi) => {
            if compare_numbers(hi.text.as_str(), value.text.as_str()) == Some(true) {
                let mut m = String::from_str("Value ");
                let a = display_number(value.text.as_str());
                m.append(a.as_str());
                m.append(" is greater than maximum ");
                let b = display_number(hi.text.as_str());
                m.append(b.as_str());
                return invalid(m);
            }
        },
        None => {},
    }
    Ok(())
}

/// The length checks (see [`length_violation`]).
fn check_lengths(value: &JsonNode, schema: &JsonNode, es: &Vec<(String, JsonNode)>) -> (r: Result<(), ChainError>)
    requires
        schema.kind == JsonKind::Object(*es),
    ensures
        reports(r, length_violation(*value, es@)),
{
    match schema.get("minLength") {
        Some(lo) => match as_u64(lo) {
            Some(n) => match &value.kind {
                JsonKind::Str(s) => {
                    let len = byte_len(s.as_str());
                    if (len as u64) < n {
                        let mut m = String::from_str("String length ");
                        let a = string_from_chars(decimal_chars(len).as_slice());
                        m.append(a.as_str());
                        m.append(" is less than minLength ");
                        let b = string_from_chars(decimal_chars_u64(n).as_slice());
                        m.append(b.as_str());
                        return invalid(m);
                    }
                },
                _ => {},
            },
            None => {},
        },
        None => {},
    }
    match schema.get("maxLength") {
        Some(hi) => match as_u64(hi) {
            Some(n) => match &value.kind {
                JsonKind::Str(s) => {
                    let len = byte_len(s.as_str());
                    if (len as u64) > n {
                        let mut m = String::from_str("String length ");
                        let a = string_from_chars(decimal_chars(len).as_slice());
                        m.append(a.as_str());
                        m.append(" is greater than maxLength ");
                        let b = string_from_chars(decimal_chars_u64(n).as_slice());
                        m.append(b.as_str());
                        return invalid(m);
                    }
                },
                _ => {},
            },
            None => {},
        },
        None => {},
    }
    Ok(())
}

/// Checks `value` against a JSON schema; the first violation found (see
/// [`violation`]) is a validation error carrying its message.
pub fn validate_json_against_schema(value: &JsonNode, schema: &JsonNode) -> (r: Result<(), ChainError>)
    ensures
        reports(r, violation(*value, *schema)),
    decreases *schema, 0nat,
{
    match &schema.kind {
        JsonKind::Object(es) => {
            let t = check_type(value, schema, es);
            if t.is_err() {
                return t;
            }
            let q = check_required(value, schema, es);
            if q.is_err() {
                return q;
            }
            let p = check_properties(value, es);
            if p.is_err() {
                return p;
            }
            let it = check_items(value, es);
            if it.is_err() {
                return it;
            }
            let e = check_enum(value, schema, es);
            if e.is_err() {
                return e;
            }
            let b = check_bounds(value, schema, es);
            if b.is_err() {
                return b;
            }
            check_lengths(value, schema, es)
        },
        _ => Ok(()),
    }
}

/// The checks of the declared properties (see [`properties_violation`]).
fn check_properties(value: &JsonNode, es: &Vec<(String, JsonNode)>) -> (r: Result<(), ChainError>)
    ensures
        reports(r, properties_violation(*value, es@)),
    decreases es@, 0nat,
{
    let mut k: usize = 0;
    assert(es@.skip(0) =~= es@);
    while k < es.len()
        invariant
            k <= es@.len(),
            properties_violation(*value, es@) == properties_violation(*value, es@.skip(k as int)),
        decreases es@.len() - k,
    {
        assert(es@.skip(k as int).drop_first() =~= es@.skip(k + 1));
        assert(es@.skip(k as int)[0] == es@[k as int]);
        if str_equal(es[k].0.as_str(), "properties") {
            match &es[k].1.kind {
                JsonKind::Object(pes) => match &value.kind {
                    JsonKind::Object(vs) => {
                        let mut j: usize = 0;
                        assert(pes@.skip(0) =~= pes@);
                        while j < pes.len()
                            invariant
                                j <= pes@.len(),
                                value.kind == JsonKind::Object(*vs),
                                es@[k as int].1.kind == JsonKind::Object(*pes),
                                k < es@.len(),
                                properties_violation(*value, es@) == each_property_violation(vs@, pes@.skip(j as int)),
                            decreases pes@.len() - j,
                        {
                            assert(pes@.skip(j as int).drop_first() =~= pes@.skip(j + 1));
                            assert(pes@.skip(j as int)[0] == pes@[j as int]);
                            match value.get(pes[j].0.as_str()) {
                                Some(v) => {
                                    proof {
                                        let ek = es@[k as int];
                                        assert(decreases_to!(es@ => ek));
                                        assert(decreases_to!(ek => ek.1));
                                        assert(decreases_to!(ek.1 => ek.1.kind));
                                        assert(ek.1.kind->Object_0 == *pes);
                                        assert(decreases_to!(ek.1.kind => ek.1.kind->Object_0));
                                        assert(decreases_to!(*pes => pes@));
                                        assert(decreases_to!(pes@ => pes@[j as int]));
                                        assert(decreases_to!(pes@[j as int] => pes@[j as int].1));
                                        assert(decreases_to!(es@ => pes@[j as int].1));
                                    }
                                    let one = validate_json_against_schema(v, &pes[j].1);
                                    if one.is_err() {
                                        return one;
                                    }
                                },
                                None => {},
                            }
                            j += 1;
                        }
                        return Ok(());
                    },
                    _ => return Ok(()),
                },
                _ => return Ok(()),
            }
        }
        k += 1;
    }
    Ok(())
}

/// The checks of the items (see [`items_violation`]).
fn check_items(value: &JsonNode, es: &Vec<(String, JsonNode)>) -> (r: Result<(), ChainError>)
    ensures
        reports(r, items_violation(*value, es@)),
    decreases es@, 0nat,
{
    let mut k: usize = 0;
    assert(es@.skip(0) =~= es@);
    while k < es.len()
        invariant
            k <= es@.len(),
            items_violation(*value, es@) == items_violation(*value, es@.skip(k as int)),
        decreases es@.len() - k,
    {
        assert(es@.skip(k as int).drop_first() =~= es@.skip(k + 1));
        assert(es@.skip(k as int)[0] == es@[k as int]);
        if str_equal(es[k].0.as_str(), "items") {
            match &value.kind {
                JsonKind::Array(arr) => {
                    let mut j: usize = 0;
                    while j < arr.len()
                        invariant
                            j <= arr@.len(),
                            k < es@.len(),
                            value.kind == JsonKind::Array(*arr),
                            items_violation(*value, es@) == each_item_violation(arr@, es@[k as int].1, arr@.len()),
                            each_item_violation(arr@, es@[k as int].1, j as nat) is None,
                        decreases arr@.len() - j,
                    {
                        proof {
                            assert(decreases_to!(es@ => es@[k as int].1));
                        }
                        let one = validate_json_against_schema(&arr[j], &es[k].1);
                        proof {
                            lemma_items_prefix(arr@, es@[k as int].1, (j + 1) as nat, arr@.len());
                        }
                        if one.is_err() {
                            return one;
                        }
                        j += 1;
                    }
                    return Ok(());
                },
                _ => return Ok(()),
            }
        }
        k += 1;
    }
    Ok(())
}

/// Once the first `n` items hold a violation, so do the first `m >= n`,
/// the same one.
proof fn lemma_items_prefix(arr: Seq<JsonNode>, s: JsonNode, n: nat, m: nat)
    requires
        n <= m <= arr.len(),
    ensures
        each_item_violation(arr, s, n) is Some ==> each_item_violation(arr, s, m) == each_item_violation(arr, s, n),
        each_item_violation(arr, s, m) is None ==> each_item_violation(arr, s, n) is None,
    decreases m - n,
{
    if n < m {
        lemma_items_prefix(arr, s, n, (m - 1) as nat);
    }
}


// ---------------------------------------------------------------------------
// Coercion
// ---------------------------------------------------------------------------

/// The compact JSON text of a string with content `s`
/// (`serde_json::to_string` of a `str`).
pub uninterp spec fn quoted_json(s: Seq<char>) -> Seq<char>;

/// The compact JSON text of what `s` reads as with `str::parse` into a
/// double-precision float, turned into a value with `serde_json::to_value`;
/// `None` when `s` does not read as one.
pub uninterp spec fn float_json(s: Seq<char>) -> Option<Seq<char>>;

/// The compact JSON text of what `s` reads as with `str::parse::<i64>`,
/// turned into a value with `serde_json::to_value`; `None` when `s` does
/// not read as an `i64`.
pub uninterp spec fn integer_json(s: Seq<char>) -> Option<Seq<char>>;

/// The compact JSON text of an array whose one item is the value written
/// as `text`.
pub uninterp spec fn singleton_array_json(text: Seq<char>) -> Seq<char>;

/// Serializes a string as JSON with `serde_json::to_string`.
///
/// Claimed of the crate: the text is determined by `s`, named
/// `quoted_json`.
#[verifier::external_body]
fn quote_json(s: &str) -> (r: String)
    ensures
        r@ == quoted_json(s@),
{
    serde_json::to_string(s).unwrap_or_default()
}

/// Reads `s` as a double-precision float with `str::parse` and serializes
/// it as a JSON value the way `serde_json::to_value` makes one
/// (`Number::from_f64`, `null` when not finite), then `to_string`.
///
/// Claimed of std and the crate: the outcome is determined by `s`, named
/// `float_json`.
#[verifier::external_body]
fn parse_float_json(s: &str) -> (r: Option<String>)
    ensures
        match r {
            Some(t) => float_json(s@) == Some(t@),
            None => float_json(s@) is None,
        },
{
    s.parse().ok().map(|f| serde_json::Number::from_f64(f).map_or(serde_json::Value::Null, serde_json::Value::Number).to_string())
}

/// Reads `s` with `str::parse::<i64>` and serializes the number as a JSON
/// value (`serde_json::to_value`, then `to_string`).
///
/// Claimed of std and the crate: the outcome is determined by `s`, named
/// `integer_json`.
#[verifier::external_body]
fn parse_integer_json(s: &str) -> (r: Option<String>)
    ensures
        match r {
            Some(t) => integer_json(s@) == Some(t@),
            None => integer_json(s@) is None,
        },
{
    s.parse::<i64>().ok().map(|i| serde_json::to_value(i).unwrap_or_default().to_string())
}

/// Serializes an array holding the one value written as `text`
/// (`serde_json::from_str`, then `Value::Array`, then `to_string`).
///
/// Claimed of the crate: the text is determined by `text`, named
/// `singleton_array_json`.
#[verifier::external_body]
fn singleton_array_text(text: &str) -> (r: String)
    ensures
        r@ == singleton_array_json(text@),
{
    let v = serde_json::from_str::<serde_json::Value>(text).unwrap_or_default();
    serde_json::Value::Array(vec![v]).to_string()
}

/// `v` is a JSON number.
pub open spec fn is_number_node(v: JsonNode) -> bool {
    v.kind is Scalar && v.text@ != "null"@ && v.text@ != "true"@ && v.text@ != "false"@
}

/// `v` is a JSON boolean.
pub open spec fn is_bool_node(v: JsonNode) -> bool {
    v.kind is Scalar && (v.text@ == "true"@ || v.text@ == "false"@)
}

/// `n` is the number, boolean or `null` written as `text`.
pub open spec fn scalar_with(n: JsonNode, text: Seq<char>) -> bool {
    n.kind is Scalar && n.text@ == text
}

/// `n` is the JSON string with content `s`.
pub open spec fn string_with(n: JsonNode, s: Seq<char>) -> bool {
    &&& n.text@ == quoted_json(s)
    &&& n.kind matches JsonKind::Str(c) && c@ == s
}

/// `n` is the array whose one item is `v`.
pub open spec fn array_of_one(n: JsonNode, v: JsonNode) -> bool {
    &&& n.text@ == singleton_array_json(v.text@)
    &&& n.kind matches JsonKind::Array(items) && items@ == seq![v]
}

/// `r` is a validation error with the message `m`.
pub open spec fn refused_with(r: Result<JsonNode, ChainError>, m: Seq<char>) -> bool {
    r matches Err(ChainError::ValidationError(x)) && x@ == m
}

/// The outcome of coercing `v` to a number (`parse` reading a string),
/// the messages ending in `quoted_tail` (after a string's content) or
/// `tail` (after a value's `{:?}` form).
pub open spec fn numeric_outcome(
    v: JsonNode,
    r: Result<JsonNode, ChainError>,
    parse: spec_fn(Seq<char>) -> Option<Seq<char>>,
    quoted_tail: Seq<char>,
    tail: Seq<char>,
) -> bool {
    if is_number_node(v) {
        r == Ok::<JsonNode, ChainError>(v)
    } else {
        match v.kind {
            JsonKind::Str(s) => match parse(s@) {
                Some(t) => r matches Ok(n) && scalar_with(n, t),
                None => refused_with(r, "Cannot coerce '"@ + s@ + quoted_tail),
            },
            _ => refused_with(r, "Cannot coerce "@ + json_debug(v.text@) + tail),
        }
    }
}

/// The outcome of coercing `v` to a boolean: a string reads, case aside,
/// as `true`/`1`/`yes` or `false`/`0`/`no`.
pub open spec fn boolean_outcome(v: JsonNode, r: Result<JsonNode, ChainError>) -> bool {
    if is_bool_node(v) {
        r == Ok::<JsonNode, ChainError>(v)
    } else {
        match v.kind {
            JsonKind::Str(s) => {
                let l = lowercase(s@);
                if l == "true"@ || l == "1"@ || l == "yes"@ {
                    r matches Ok(n) && scalar_with(n, "true"@)
                } else if l == "false"@ || l == "0"@ || l == "no"@ {
                    r matches Ok(n) && scalar_with(n, "false"@)
                } else {
                    refused_with(r, "Cannot coerce '"@ + s@ + "' to boolean"@)
                }
            },
            _ => refused_with(r, "Cannot coerce "@ + json_debug(v.text@) + " to boolean"@),
        }
    }
}

/// The outcome of coercing `v` to the type `t`.
pub open spec fn coerce_outcome(v: JsonNode, t: SchemaType, r: Result<JsonNode, ChainError>) -> bool {
    match t {
        SchemaType::String => r matches Ok(n) && string_with(
            n,
            match v.kind {
                JsonKind::Str(s) => s@,
                _ => v.text@,
            },
        ),
        SchemaType::Number => numeric_outcome(v, r, |s: Seq<char>| float_json(s), "' to number"@, " to number"@),
        SchemaType::Integer => numeric_outcome(v, r, |s: Seq<char>| integer_json(s), "' to integer"@, " to integer"@),
        SchemaType::Boolean => boolean_outcome(v, r),
        SchemaType::Array => if v.kind is Array {
            r == Ok::<JsonNode, ChainError>(v)
        } else {
            r matches Ok(n) && array_of_one(n, v)
        },
        SchemaType::Object => if v.kind is Object {
            r == Ok::<JsonNode, ChainError>(v)
        } else {
            refused_with(r, "Cannot coerce "@ + json_debug(v.text@) + " to object"@)
        },
        SchemaType::Null => r matches Ok(n) && scalar_with(n, "null"@),
        SchemaType::Any => r == Ok::<JsonNode, ChainError>(v),
    }
}

/// A validation error: `head`, then `middle`, then `tail`.
fn refusal(head: &str, middle: &str, tail: &str) -> (r: Result<JsonNode, ChainError>)
    ensures
        refused_with(r, head@ + middle@ + tail@),
{
    let mut m = String::from_str(head);
    m.append(middle);
    m.append(tail);
    Err(ChainError::ValidationError(m))
}

/// Whether `v` is a JSON number.
fn is_number(v: &JsonNode) -> (b: bool)
    ensures
        b == is_number_node(*v),
{
    matches!(v.kind, JsonKind::Scalar) && !str_equal(v.text.as_str(), "null") && !str_equal(v.text.as_str(), "true")
        && !str_equal(v.text.as_str(), "false")
}

/// A number, boolean or `null` written as `text`.
fn scalar(text: String) -> (n: JsonNode)
    ensures
        scalar_with(n, text@),
{
    JsonNode { text, kind: JsonKind::Scalar }
}

/// Coerces `value` to a number (`to_float`) or an integer.
fn coerce_numeric(value: JsonNode, to_float: bool) -> (r: Result<JsonNode, ChainError>)
    ensures
        to_float ==> numeric_outcome(value, r, |s: Seq<char>| float_json(s), "' to number"@, " to number"@),
        !to_float ==> numeric_outcome(value, r, |s: Seq<char>| integer_json(s), "' to integer"@, " to integer"@),
{
    if is_number(&value) {
        return Ok(value);
    }
    match &value.kind {
        JsonKind::Str(s) => {
            let parsed = if to_float {
                parse_float_json(s.as_str())
            } else {
                parse_integer_json(s.as_str())
            };
            match parsed {
                Some(t) => Ok(scalar(t)),
                None => if to_float {
                    refusal("Cannot coerce '", s.as_str(), "' to number")
                } else {
                    refusal("Cannot coerce '", s.as_str(), "' to integer")
                },
            }
        },
        _ => {
            let d = debug_text(value.text.as_str());
            if to_float {
                refusal("Cannot coerce ", d.as_str(), " to number")
            } else {
                refusal("Cannot coerce ", d.as_str(), " to integer")
            }
        },
    }
}

/// Coerces `value` to a boolean.
fn coerce_boolean(value: JsonNode) -> (r: Result<JsonNode, ChainError>)
    ensures
        boolean_outcome(value, r),
{
    if matches!(value.kind, JsonKind::Scalar) && (str_equal(value.text.as_str(), "true") || str_equal(value.text.as_str(), "false")) {
        return Ok(value);
    }
    match &value.kind {
        JsonKind::Str(s) => {
            let l = to_lowercase(s.as_str());
            let ls = l.as_str();
            if str_equal(ls, "true") || str_equal(ls, "1") || str_equal(ls, "yes") {
                Ok(scalar(String::from_str("true")))
            } else if str_equal(ls, "false") || str_equal(ls, "0") || str_equal(ls, "no") {
                Ok(scalar(String::from_str("false")))
            } else {
                refusal("Cannot coerce '", s.as_str(), "' to boolean")
            }
        },
        _ => {
            let d = debug_text(value.text.as_str());
            refusal("Cannot coerce ", d.as_str(), " to boolean")
        },
    }
}

/// Coerces `value` to the JSON-schema type `target_type`: strings read as
/// numbers, integers or booleans, any value shows as a string, a
/// non-array value is wrapped in an array, and `null` replaces anything.
pub fn coerce_type(value: JsonNode, target_type: &SchemaType) -> (r: Result<JsonNode, ChainError>)
    ensures
        coerce_outcome(value, *target_type, r),
{
    match target_type {
        SchemaType::String => {
            let JsonNode { text, kind } = value;
            let s = match kind {
                JsonKind::Str(s) => s,
                _ => text,
            };
            let q = quote_json(s.as_str());
            Ok(JsonNode { text: q, kind: JsonKind::Str(s) })
        },
        SchemaType::Number => coerce_numeric(value, true),
        SchemaType::Integer => coerce_numeric(value, false),
        SchemaType::Boolean => coerce_boolean(value),
        SchemaType::Array => {
            if matches!(value.kind, JsonKind::Array(_)) {
                Ok(value)
            } else {
                let t = singleton_array_text(value.text.as_str());
                let mut items: Vec<JsonNode> = Vec::new();
                items.push(value);
                Ok(JsonNode { text: t, kind: JsonKind::Array(items) })
            }
        },
        SchemaType::Object => {
            if matches!(value.kind, JsonKind::Object(_)) {
                Ok(value)
            } else {
                let d = debug_text(value.text.as_str());
                refusal("Cannot coerce ", d.as_str(), " to object")
            }
        },
        SchemaType::Null => Ok(scalar(String::from_str("null"))),
        SchemaType::Any => Ok(value),
    }
}

} // verus!
