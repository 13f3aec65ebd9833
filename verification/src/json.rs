//! The part of a JSON document that the crawler reads: an array of items,
//! each an object whose fields are read as text or as integers.
//!
//! Parsing itself is `serde_json`'s; this module holds the plain model of
//! its result.

use vstd::prelude::*;

use serde_json::Value as Json;

verus! {

/// A field value of a JSON object, as the crawler reads it.
#[derive(Debug, Clone)]
pub enum JsonField {
    Null,
    Bool(bool),
    /// A number, with its value when it is an integer that fits `i64`
    /// (`serde_json::Value::as_i64`).
    Number(Option<i64>),
    Str(String),
    /// An array (its elements are not read).
    Array,
    /// An object (its fields are not read).
    Object,
}

/// One element of the items array.
#[derive(Debug, Clone)]
pub enum JsonItem {
    /// An object, with its fields.
    Object(Vec<(String, JsonField)>),
    /// Any other value.
    Scalar(JsonField),
}

/// The view of a field value.
pub enum JsonFieldV {
    Null,
    Bool(bool),
    Number(Option<i64>),
    Str(Seq<char>),
    Array,
    Object,
}

/// The view of an element of the items array.
pub enum JsonItemV {
    Object(Seq<(Seq<char>, JsonFieldV)>),
    Scalar(JsonFieldV),
}

impl View for JsonField {
    type V = JsonFieldV;

    open spec fn view(&self) -> JsonFieldV {
        match self {
            JsonField::Null => JsonFieldV::Null,
            JsonField::Bool(b) => JsonFieldV::Bool(*b),
            JsonField::Number(n) => JsonFieldV::Number(*n),
            JsonField::Str(s) => JsonFieldV::Str(s@),
            JsonField::Array => JsonFieldV::Array,
            JsonField::Object => JsonFieldV::Object,
        }
    }
}

/// The view of the fields of an object.
pub open spec fn entries_view(e: Seq<(String, JsonField)>) -> Seq<(Seq<char>, JsonFieldV)> {
    e.map_values(|p: (String, JsonField)| (p.0@, p.1@))
}

impl View for JsonItem {
    type V = JsonItemV;

    open spec fn view(&self) -> JsonItemV {
        match self {
            JsonItem::Object(e) => JsonItemV::Object(entries_view(e@)),
            JsonItem::Scalar(f) => JsonItemV::Scalar(f@),
        }
    }
}

/// The view of a sequence of items.
pub open spec fn items_view(v: Seq<JsonItem>) -> Seq<JsonItemV> {
    v.map_values(|i: JsonItem| i@)
}

/// What `serde_json` makes of a text read as an array of values: `None`
/// when the text is not a JSON array, else its elements.
pub uninterp spec fn json_items_of(text: Seq<char>) -> Option<Seq<JsonItemV>>;

/// Parses a JSON array with `serde_json::from_str::<Vec<serde_json::Value>>`.
/// Claimed: the result, taken by its view, is `json_items_of(text@)`.
#[verifier::external_body]
pub(crate) fn parse_json_items(text: &str) -> (r: Option<Vec<JsonItem>>)
    ensures
        match r {
            Some(v) => json_items_of(text@) == Some(items_view(v@)),
            None => json_items_of(text@) is None,
        },
{
    let field = |v: Json| match v {
        Json::Null => JsonField::Null,
        Json::Bool(b) => JsonField::Bool(b),
        Json::Number(n) => JsonField::Number(n.as_i64()),
        Json::String(s) => JsonField::Str(s),
        Json::Array(_) => JsonField::Array,
        Json::Object(_) => JsonField::Object,
    };
    let values: Vec<Json> = serde_json::from_str(text).ok()?;
    Some(values.into_iter().map(|v| match v {
        Json::Object(m) => JsonItem::Object(m.into_iter().map(|(k, f)| (k, field(f))).collect()),
        other => JsonItem::Scalar(field(other)),
    }).collect())
}

/// Parses a text holding a JSON array into its items; `None` when it is
/// not a JSON array.
pub fn parse_items(text: &str) -> (r: Option<Vec<JsonItem>>)
    ensures
        match r {
            Some(v) => json_items_of(text@) == Some(items_view(v@)),
            None => json_items_of(text@) is None,
        },
{
    parse_json_items(text)
}

/// The value of the first field named `key`, if any.
pub open spec fn field_of(entries: Seq<(Seq<char>, JsonFieldV)>, key: Seq<char>) -> Option<
    JsonFieldV,
>
    decreases entries.len(),
{
    if entries.len() == 0 {
        None
    } else if entries[0].0 == key {
        Some(entries[0].1)
    } else {
        field_of(entries.drop_first(), key)
    }
}

/// The value of field `key` of an item (`serde_json::Value::get`).
pub open spec fn get_field(item: JsonItemV, key: Seq<char>) -> Option<JsonFieldV> {
    match item {
        JsonItemV::Object(e) => field_of(e, key),
        JsonItemV::Scalar(_) => None,
    }
}

/// The text of field `key` when it is a string.
pub open spec fn text_field(item: JsonItemV, key: Seq<char>) -> Option<Seq<char>> {
    match get_field(item, key) {
        Some(JsonFieldV::Str(s)) => Some(s),
        _ => None,
    }
}

/// The integer of field `key` when it is an integer that fits `i64`.
pub open spec fn int_of_field(item: JsonItemV, key: Seq<char>) -> Option<i64> {
    match get_field(item, key) {
        Some(JsonFieldV::Number(Some(n))) => Some(n),
        _ => None,
    }
}

impl JsonItem {
    /// The value of field `key`, if this is an object that has it.
    pub fn get(&self, key: &str) -> (r: Option<&JsonField>)
        ensures
            match r {
                Some(f) => get_field(self@, key@) == Some(f@),
                None => get_field(self@, key@) is None,
            },
    {
        match self {
            JsonItem::Object(e) => {
                let mut i: usize = 0;
                assert(entries_view(e@).skip(0) =~= entries_view(e@));
                while i < e.len()
                    invariant
                        i <= e.len(),
                        self@ == JsonItemV::Object(entries_view(e@)),
                        field_of(entries_view(e@), key@) == field_of(
                            entries_view(e@).skip(i as int),
                            key@,
                        ),
                    decreases e.len() - i,
                {
                    let ghost rest = entries_view(e@).skip(i as int);
                    assert(rest[0] == (e@[i as int].0@, e@[i as int].1@));
                    if crate::text::same_text(e[i].0.as_str(), key) {
                        return Some(&e[i].1);
                    }
                    assert(rest.drop_first() =~= entries_view(e@).skip(i + 1));
                    i = i + 1;
                }
                assert(entries_view(e@).skip(i as int) =~= Seq::<(Seq<char>, JsonFieldV)>::empty());
                None
            },
            JsonItem::Scalar(_) => None,
        }
    }
}

} // verus!
