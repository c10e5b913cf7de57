//! The part of the bridge to a scripting host that needs no host: telling
//! the kinds of JSON values apart before they are converted.

use crate::wire::{json_model, JsonModel};
use vstd::prelude::*;

verus! {

/// The kinds of values that cross the bridge.
#[derive(Clone, Copy, Debug, PartialEq, Eq, Structural)]
pub enum JsonTypes {
    Array,
    Boolean,
    Null,
    Number,
    Object,
    String,
    /// None of the others. No JSON value is of this kind.
    Unknown,
}

/// The kind of a JSON value.
pub open spec fn json_type_of(model: JsonModel) -> JsonTypes {
    match model {
        JsonModel::Array(_) => JsonTypes::Array,
        JsonModel::Boolean(_) => JsonTypes::Boolean,
        JsonModel::Null => JsonTypes::Null,
        JsonModel::Number(_) => JsonTypes::Number,
        JsonModel::Object(_) => JsonTypes::Object,
        JsonModel::Text(_) => JsonTypes::String,
    }
}

/// The kind of `value`.
pub fn determine_json_type(value: &json::JsonValue) -> (kind: JsonTypes)
    ensures
        kind == json_type_of(json_model(*value)),
        kind != JsonTypes::Unknown,
{
    if value.is_array() {
        JsonTypes::Array
    } else if value.is_boolean() {
        JsonTypes::Boolean
    } else if value.is_null() {
        JsonTypes::Null
    } else if value.is_number() {
        JsonTypes::Number
    } else if value.is_object() {
        JsonTypes::Object
    } else if value.is_string() {
        JsonTypes::String
    } else {
        JsonTypes::Unknown
    }
}

} // verus!
