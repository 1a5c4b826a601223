//! Configurable runnables: field descriptions, field sets keyed by name,
//! and the rule that picks which alternative runnable a configuration
//! selects.
//!
//! The runnables themselves are asynchronous and live with the
//! application, keyed by alternative name.

use crate::errors::ChainError;
use crate::text::{str_equal, IntoText};
use std::collections::HashMap;
use vstd::prelude::*;

verus! {

/// A configurable field: its id, display name and description, whether it
/// is shared, and an optional default value.
#[derive(Debug, Clone)]
pub struct ConfigurableField {
    /// The key under which the field is configured.
    pub id: String,
    /// Display name.
    pub name: String,
    /// Description.
    pub description: String,
    /// Whether the field is shared between runnables.
    pub is_shared: bool,
    /// Default value.
    pub default: Option<serde_json::Value>,
}

impl ConfigurableField {
    /// A field with the given id, whose name and description are the id,
    /// not shared and without default.
    pub fn new<S: IntoText>(id: S) -> (res: Self)
        ensures
            res.id@ == id.text_view(),
            res.name@ == id.text_view(),
            res.description@ == id.text_view(),
            !res.is_shared,
            res.default is None,
    {
        let id = id.into_text();
        ConfigurableField { name: id.clone(), description: id.clone(), id, is_shared: false, default: None }
    }

    /// The field with its display name replaced.
    pub fn with_name<S: IntoText>(self, name: S) -> (res: Self)
        ensures
            res.name@ == name.text_view(),
            res.id == self.id,
            res.description == self.description,
            res.is_shared == self.is_shared,
            res.default == self.default,
    {
        ConfigurableField { name: name.into_text(), ..self }
    }

    /// The field with its description replaced.
    pub fn with_description<S: IntoText>(self, description: S) -> (res: Self)
        ensures
            res.description@ == description.text_view(),
            res.id == self.id,
            res.name == self.name,
            res.is_shared == self.is_shared,
            res.default == self.default,
    {
        ConfigurableField { description: description.into_text(), ..self }
    }

    /// The field with its sharing flag replaced.
    pub fn with_shared(self, is_shared: bool) -> (res: Self)
        ensures
            res.is_shared == is_shared,
            res.id == self.id,
            res.name == self.name,
            res.description == self.description,
            res.default == self.default,
    {
        ConfigurableField { is_shared, ..self }
    }

    /// The field with a default value.
    pub fn with_default(self, default: serde_json::Value) -> (res: Self)
        ensures
            res.default == Some(default),
            res.id == self.id,
            res.name == self.name,
            res.description == self.description,
            res.is_shared == self.is_shared,
    {
        ConfigurableField { default: Some(default), ..self }
    }
}

/// A field configured by picking one of named options.
#[derive(Debug, Clone)]
pub struct ConfigurableFieldSingleOption {
    /// The key under which the field is configured.
    pub id: String,
    /// Display name.
    pub name: String,
    /// Description.
    pub description: String,
    /// Whether the field is shared between runnables.
    pub is_shared: bool,
    /// The options, by name.
    pub options: HashMap<String, serde_json::Value>,
    /// The name of the default option.
    pub default: String,
}

impl ConfigurableFieldSingleOption {
    /// A single-option field whose name and description are the id, not
    /// shared.
    pub fn new<S: IntoText, D: IntoText>(id: S, options: HashMap<String, serde_json::Value>, default: D) -> (res: Self)
        ensures
            res.id@ == id.text_view(),
            res.name@ == id.text_view(),
            res.description@ == id.text_view(),
            !res.is_shared,
            res.options == options,
            res.default@ == default.text_view(),
    {
        let id = id.into_text();
        ConfigurableFieldSingleOption {
            name: id.clone(),
            description: id.clone(),
            id,
            is_shared: false,
            options,
            default: default.into_text(),
        }
    }

    /// The field with its display name replaced.
    pub fn with_name<S: IntoText>(self, name: S) -> (res: Self)
        ensures
            res.name@ == name.text_view(),
            res.id == self.id,
            res.description == self.description,
            res.is_shared == self.is_shared,
            res.options == self.options,
            res.default == self.default,
    {
        ConfigurableFieldSingleOption { name: name.into_text(), ..self }
    }

    /// The field with its description replaced.
    pub fn with_description<S: IntoText>(self, description: S) -> (res: Self)
        ensures
            res.description@ == description.text_view(),
            res.id == self.id,
            res.name == self.name,
            res.is_shared == self.is_shared,
            res.options == self.options,
            res.default == self.default,
    {
        ConfigurableFieldSingleOption { description: description.into_text(), ..self }
    }

    /// The field with its sharing flag replaced.
    pub fn with_shared(self, is_shared: bool) -> (res: Self)
        ensures
            res.is_shared == is_shared,
            res.id == self.id,
            res.name == self.name,
            res.description == self.description,
            res.options == self.options,
            res.default == self.default,
    {
        ConfigurableFieldSingleOption { is_shared, ..self }
    }
}

/// A field configured by picking several of named options.
#[derive(Debug, Clone)]
pub struct ConfigurableFieldMultiOption {
    /// The key under which the field is configured.
    pub id: String,
    /// Display name.
    pub name: String,
    /// Description.
    pub description: String,
    /// Whether the field is shared between runnables.
    pub is_shared: bool,
    /// The options, by name.
    pub options: HashMap<String, serde_json::Value>,
    /// The names of the default options.
    pub default: Vec<String>,
}

impl ConfigurableFieldMultiOption {
    /// A multi-option field whose name and description are the id, not
    /// shared.
    pub fn new<S: IntoText>(id: S, options: HashMap<String, serde_json::Value>, default: Vec<String>) -> (res: Self)
        ensures
            res.id@ == id.text_view(),
            res.name@ == id.text_view(),
            res.description@ == id.text_view(),
            !res.is_shared,
            res.options == options,
            res.default == default,
    {
        let id = id.into_text();
        ConfigurableFieldMultiOption { name: id.clone(), description: id.clone(), id, is_shared: false, options, default }
    }

    /// The field with its display name replaced.
    pub fn with_name<S: IntoText>(self, name: S) -> (res: Self)
        ensures
            res.name@ == name.text_view(),
            res.id == self.id,
            res.description == self.description,
            res.is_shared == self.is_shared,
            res.options == self.options,
            res.default == self.default,
    {
        ConfigurableFieldMultiOption { name: name.into_text(), ..self }
    }

    /// The field with its description replaced.
    pub fn with_description<S: IntoText>(self, description: S) -> (res: Self)
        ensures
            res.description@ == description.text_view(),
            res.id == self.id,
            res.name == self.name,
            res.is_shared == self.is_shared,
            res.options == self.options,
            res.default == self.default,
    {
        ConfigurableFieldMultiOption { description: description.into_text(), ..self }
    }

    /// The field with its sharing flag replaced.
    pub fn with_shared(self, is_shared: bool) -> (res: Self)
        ensures
            res.is_shared == is_shared,
            res.id == self.id,
            res.name == self.name,
            res.description == self.description,
            res.options == self.options,
            res.default == self.default,
    {
        ConfigurableFieldMultiOption { is_shared, ..self }
    }
}

/// One configurable field of any kind.
#[derive(Debug, Clone)]
pub enum ConfigurableFieldKind {
    /// A field with a free value.
    Simple(ConfigurableField),
    /// A field picking one option.
    SingleOption(ConfigurableFieldSingleOption),
    /// A field picking several options.
    MultiOption(ConfigurableFieldMultiOption),
}

/// The key of every entry, in order.
pub open spec fn field_keys(fields: Seq<(String, ConfigurableFieldKind)>) -> Seq<Seq<char>> {
    fields.map_values(|e: (String, ConfigurableFieldKind)| e.0@)
}

/// `fields` with the entry for `key` set to `kind`: the first entry with
/// that key replaced in place when the key is present, a new entry appended
/// otherwise.
pub open spec fn upserted(
    fields: Seq<(String, ConfigurableFieldKind)>,
    key: Seq<char>,
    kind: ConfigurableFieldKind,
    res: Seq<(String, ConfigurableFieldKind)>,
) -> bool {
    if field_keys(fields).contains(key) {
        exists|k: int|
            0 <= k < fields.len() && #[trigger] fields[k].0@ == key && (forall|j: int| 0 <= j < k ==> (#[trigger] fields[j]).0@ != key)
                && res.len() == fields.len() && res[k].0@ == key && res[k].1 == kind && (forall|j: int|
                0 <= j < fields.len() && j != k ==> (#[trigger] res[j]) == fields[j])
    } else {
        &&& res.len() == fields.len() + 1
        &&& res.drop_last() == fields
        &&& res.last().0@ == key
        &&& res.last().1 == kind
    }
}

/// A set of configurable fields, each under a distinct key, in the order
/// in which the keys were first added.
#[derive(Debug, Clone)]
pub struct ConfigurableFields {
    /// The fields by key.
    pub fields: Vec<(String, ConfigurableFieldKind)>,
}

impl ConfigurableFields {
    /// An empty set of fields.
    pub fn new() -> (res: Self)
        ensures
            res.fields@ == Seq::<(String, ConfigurableFieldKind)>::empty(),
    {
        ConfigurableFields { fields: Vec::new() }
    }

    /// Sets the field under `key`, replacing any field already there.
    fn upsert(self, key: String, kind: ConfigurableFieldKind) -> (res: Self)
        ensures
            upserted(self.fields@, key@, kind, res.fields@),
            field_keys(self.fields@).no_duplicates() ==> field_keys(res.fields@).no_duplicates(),
    {
        let mut fields = self.fields;
        let ghost before = fields@;
        let mut i: usize = 0;
        while i < fields.len()
            invariant
                fields@ == before,
                before == self.fields@,
                i <= fields@.len(),
                forall|j: int| 0 <= j < i ==> (#[trigger] fields@[j]).0@ != key@,
            decreases fields@.len() - i,
        {
            if str_equal(fields[i].0.as_str(), key.as_str()) {
                let ghost k = i as int;
                assert(field_keys(before)[k] == key@);
                fields.set(i, (key, kind));
                proof {
                    if field_keys(before).no_duplicates() {
                        assert forall|a: int, b: int| 0 <= a < b < fields@.len() implies field_keys(fields@)[a] != field_keys(fields@)[b] by {
                            assert(field_keys(before)[a] != field_keys(before)[b]);
                        }
                    }
                    assert(fields@[k].0@ == key@ && fields@[k].1 == kind);
                    assert(before[k].0@ == key@);
                }
                return ConfigurableFields { fields };
            }
            i += 1;
        }
        proof {
            if field_keys(before).contains(key@) {
                let j = choose|j: int| 0 <= j < field_keys(before).len() && field_keys(before)[j] == key@;
                assert(before[j].0@ == key@);
            }
        }
        fields.push((key, kind));
        proof {
            assert(fields@.drop_last() =~= before);
            assert(field_keys(fields@) =~= field_keys(before).push(key@));
        }
        ConfigurableFields { fields }
    }

    /// Sets a simple field under `key`.
    pub fn with_field<S: IntoText>(self, key: S, field: ConfigurableField) -> (res: Self)
        ensures
            upserted(self.fields@, key.text_view(), ConfigurableFieldKind::Simple(field), res.fields@),
            field_keys(self.fields@).no_duplicates() ==> field_keys(res.fields@).no_duplicates(),
    {
        self.upsert(key.into_text(), ConfigurableFieldKind::Simple(field))
    }

    /// Sets a single-option field under `key`.
    pub fn with_single_option<S: IntoText>(self, key: S, field: ConfigurableFieldSingleOption) -> (res: Self)
        ensures
            upserted(self.fields@, key.text_view(), ConfigurableFieldKind::SingleOption(field), res.fields@),
            field_keys(self.fields@).no_duplicates() ==> field_keys(res.fields@).no_duplicates(),
    {
        self.upsert(key.into_text(), ConfigurableFieldKind::SingleOption(field))
    }

    /// Sets a multi-option field under `key`.
    pub fn with_multi_option<S: IntoText>(self, key: S, field: ConfigurableFieldMultiOption) -> (res: Self)
        ensures
            upserted(self.fields@, key.text_view(), ConfigurableFieldKind::MultiOption(field), res.fields@),
            field_keys(self.fields@).no_duplicates() ==> field_keys(res.fields@).no_duplicates(),
    {
        self.upsert(key.into_text(), ConfigurableFieldKind::MultiOption(field))
    }
}

/// The text of the error for a selected alternative that does not exist.
pub open spec fn unknown_alternative_message(selected: Seq<char>, field: Seq<char>) -> Seq<char> {
    "Unknown alternative '"@ + selected + "' for field '"@ + field + "'"@
}

/// Which runnable a configuration selects among alternatives.
///
/// `selected` is the configuration's string value under the selector
/// field's id, if any. Without a selection, or when it names the default
/// key, the default runnable is used (`Ok(None)`); when it names an
/// alternative, that alternative (`Ok(Some(position))`, the first position
/// with that key); otherwise a configuration error.
pub fn resolve_alternative(
    which_id: &str,
    selected: Option<&str>,
    default_key: &str,
    alternative_keys: &Vec<String>,
) -> (res: Result<Option<usize>, ChainError>)
    ensures
        selected is None ==> res == Ok::<Option<usize>, ChainError>(None),
        selected is Some && selected.unwrap()@ == default_key@ ==> res == Ok::<Option<usize>, ChainError>(None),
        selected is Some && selected.unwrap()@ != default_key@ ==> match res {
            Ok(Some(i)) => i < alternative_keys@.len() && alternative_keys@[i as int]@ == selected.unwrap()@ && forall|j: int|
                0 <= j < i ==> (#[trigger] alternative_keys@[j])@ != selected.unwrap()@,
            Ok(None) => false,
            Err(e) => (forall|j: int| 0 <= j < alternative_keys@.len() ==> (#[trigger] alternative_keys@[j])@ != selected.unwrap()@)
                && (e matches ChainError::ConfigError(m) && m@ == unknown_alternative_message(selected.unwrap()@, which_id@)),
        },
{
    let s = match selected {
        None => return Ok(None),
        Some(s) => s,
    };
    if str_equal(s, default_key) {
        return Ok(None);
    }
    let mut i: usize = 0;
    while i < alternative_keys.len()
        invariant
            selected == Some(s),
            s@ != default_key@,
            i <= alternative_keys@.len(),
            forall|j: int| 0 <= j < i ==> (#[trigger] alternative_keys@[j])@ != s@,
        decreases alternative_keys@.len() - i,
    {
        if str_equal(alternative_keys[i].as_str(), s) {
            return Ok(Some(i));
        }
        i += 1;
    }
    let mut m = String::from_str("Unknown alternative '");
    m.append(s);
    m.append("' for field '");
    m.append(which_id);
    m.append("'");
    Err(ChainError::ConfigError(m))
}

} // verus!
