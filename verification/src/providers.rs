//! The capability providers of a node agent: what each offers, and what each
//! needs from the host to answer a call.

use crate::engine::provider::{Tool, ToolType, ToolView};
use crate::json::{entry, entry_views, Json, JsonValue};
use vstd::prelude::*;

pub mod log;
pub mod process;
pub mod service;
pub mod system;

verus! {

/// The schema of one parameter: its type and what it is for.
pub open spec fn property(kind: Seq<char>, description: Seq<char>) -> JsonValue {
    JsonValue::Object(
        seq![("type"@, JsonValue::Str(kind)), ("description"@, JsonValue::Str(description))],
    )
}

/// The schema of an object with the given parameters, none of them required.
pub open spec fn object_schema(properties: Seq<(Seq<char>, JsonValue)>) -> JsonValue {
    JsonValue::Object(
        seq![("type"@, JsonValue::Str("object"@)), ("properties"@, JsonValue::Object(properties))],
    )
}

/// The schema of an object with the given parameters, of which `required` is
/// required.
pub open spec fn object_schema_requiring(
    properties: Seq<(Seq<char>, JsonValue)>,
    required: Seq<char>,
) -> JsonValue {
    JsonValue::Object(
        seq![
            ("type"@, JsonValue::Str("object"@)),
            ("properties"@, JsonValue::Object(properties)),
            ("required"@, JsonValue::Array(seq![JsonValue::Str(required)])),
        ],
    )
}

/// A tool that only observes.
pub open spec fn observable(
    name: Seq<char>,
    description: Seq<char>,
    schema: JsonValue,
) -> ToolView {
    ToolView { name, description, input_schema: schema, tool_type: ToolType::Observable }
}

/// The schema of one parameter.
pub fn make_property(kind: &str, description: &str) -> (r: Json)
    ensures
        r@ == property(kind@, description@),
{
    let r = Json::object(
        vec![entry("type", Json::text(kind)), entry("description", Json::text(description))],
    );
    assert(r@->Object_0 =~= property(kind@, description@)->Object_0);
    r
}

/// The schema of an object with the given parameters, none of them required.
pub fn make_object_schema(properties: Vec<(String, Json)>) -> (r: Json)
    ensures
        r@ == object_schema(entry_views(properties@)),
{
    let r = Json::object(
        vec![entry("type", Json::text("object")), entry("properties", Json::object(properties))],
    );
    assert(r@->Object_0 =~= object_schema(entry_views(properties@))->Object_0);
    r
}

/// The schema of an object with the given parameters, of which `required` is
/// required.
pub fn make_object_schema_requiring(properties: Vec<(String, Json)>, required: &str) -> (r: Json)
    ensures
        r@ == object_schema_requiring(entry_views(properties@), required@),
{
    let names = Json::array(vec![Json::text(required)]);
    assert(names@->Array_0 =~= seq![JsonValue::Str(required@)]);
    let r = Json::object(
        vec![
            entry("type", Json::text("object")),
            entry("properties", Json::object(properties)),
            entry("required", names),
        ],
    );
    assert(r@->Object_0 =~= object_schema_requiring(entry_views(properties@), required@)->Object_0);
    r
}

/// A tool that only observes.
pub fn make_observable(name: &str, description: &str, schema: Json) -> (r: Tool)
    ensures
        r@ == observable(name@, description@, schema@),
{
    Tool {
        name: name.to_owned(),
        description: description.to_owned(),
        input_schema: schema,
        tool_type: ToolType::Observable,
    }
}

/// The number under `key` in the parameters, or `default` where there is no
/// unsigned integer under it.
pub open spec fn number_or(params: JsonValue, key: Seq<char>, default: u64) -> u64 {
    match params.field(key) {
        Some(value) => match value.as_u64() {
            Some(n) => n,
            None => default,
        },
        None => default,
    }
}

/// The string under `key` in the parameters, if there is one.
pub open spec fn string_at(params: JsonValue, key: Seq<char>) -> Option<Seq<char>> {
    match params.field(key) {
        Some(value) => value.as_str(),
        None => None,
    }
}

/// The number under `key` in the parameters, or `default`.
pub fn get_number_or(params: &Json, key: &str, default: u64) -> (r: u64)
    ensures
        r == number_or(params@, key@, default),
{
    match params.get(key) {
        Some(value) => match value.as_u64() {
            Some(n) => n,
            None => default,
        },
        None => default,
    }
}

/// The string under `key` in the parameters, if there is one.
pub fn get_string(params: &Json, key: &str) -> (r: Option<String>)
    ensures
        crate::text::optional_text(r) == string_at(params@, key@),
{
    match params.get(key) {
        Some(value) => match value.as_str() {
            Some(s) => Some(s.to_owned()),
            None => None,
        },
        None => None,
    }
}

} // verus!
