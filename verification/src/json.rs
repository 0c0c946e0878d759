use vstd::prelude::*;

verus! {

/// The library's model of a JSON document. Numbers are held as their
/// decimal text rendering — what query-string building and transport
/// framing need; the client never does arithmetic on them.
#[derive(Debug, PartialEq, Eq)]
pub enum JsonValue {
    Null,
    Bool(bool),
    Num(String),
    Str(String),
    Arr(Vec<JsonValue>),
    Obj(Vec<(String, JsonValue)>),
}

/// What parsing a given text as JSON yields: `Some` with the document
/// exactly when the text is valid, `None` when parsing fails. The result
/// depends on the text alone.
pub uninterp spec fn json_doc(s: Seq<char>) -> Option<JsonValue>;

/// What rendering a given document as JSON text yields; depends on the
/// document alone.
pub uninterp spec fn json_text(v: JsonValue) -> Seq<char>;

#[verifier::external_type_specification]
#[verifier::external_body]
pub struct ExValue(serde_json::Value);

/// Carries a parsed serde_json::Value into the library's model, one arm
/// per variant, moving fields only; a number becomes the text that
/// serde_json::Number renders it as.
#[verifier::external_body]
fn value_to_json(v: &serde_json::Value) -> JsonValue {
    match v {
        serde_json::Value::Null => JsonValue::Null,
        serde_json::Value::Bool(b) => JsonValue::Bool(*b),
        serde_json::Value::Number(n) => JsonValue::Num(n.to_string()),
        serde_json::Value::String(s) => JsonValue::Str(s.clone()),
        serde_json::Value::Array(a) => JsonValue::Arr(a.iter().map(value_to_json).collect()),
        serde_json::Value::Object(m) => JsonValue::Obj(m.iter().map(|(k, x)| (k.clone(), value_to_json(x))).collect()),
    }
}

/// Carries a library document back into serde_json's model, one arm per
/// variant, moving fields only; a `Num` is read back through
/// serde_json::from_str as a serde_json::Number, and fails when it holds
/// no valid JSON number rendering.
#[verifier::external_body]
fn json_to_value(v: &JsonValue) -> Result<serde_json::Value, String> {
    Ok(match v {
        JsonValue::Null => serde_json::Value::Null,
        JsonValue::Bool(b) => serde_json::Value::Bool(*b),
        JsonValue::Num(n) => serde_json::from_str(n).map(serde_json::Value::Number).map_err(|e| e.to_string())?,
        JsonValue::Str(s) => serde_json::Value::String(s.clone()),
        JsonValue::Arr(a) => serde_json::Value::Array(a.iter().map(json_to_value).collect::<Result<_, String>>()?),
        JsonValue::Obj(f) => serde_json::Value::Object(f.iter().map(|(k, x)| Ok((k.clone(), json_to_value(x)?))).collect::<Result<_, String>>()?),
    })
}

/// Relies on serde_json::from_str: parses the text as one JSON document and
/// returns the parse diagnostic on failure. Parsing a given text always
/// yields the same outcome, which `json_doc` names.
#[verifier::external_body]
pub(crate) fn parse_json_text(s: &str) -> (r: Result<JsonValue, String>)
    ensures
        r is Ok <==> json_doc(s@) is Some,
        r matches Ok(v) ==> json_doc(s@) == Some(v),
{
    match serde_json::from_str::<serde_json::Value>(s) {
        Ok(v) => Ok(value_to_json(&v)),
        Err(e) => Err(e.to_string()),
    }
}

/// Relies on serde_json::to_string: renders the document as JSON text; the
/// rendering of a given document is always the same text, which `json_text`
/// names. Fails only when a `Num` holds no valid number rendering.
#[verifier::external_body]
pub(crate) fn render_json_text(v: &JsonValue) -> (r: Result<String, String>)
    ensures
        r matches Ok(s) ==> s@ == json_text(*v),
{
    match json_to_value(v) {
        Ok(val) => match serde_json::to_string(&val) {
            Ok(s) => Ok(s),
            Err(e) => Err(e.to_string()),
        },
        Err(e) => Err(e),
    }
}

/// First binding of `name` among an object's fields, if any.
pub open spec fn obj_lookup(fields: Seq<(String, JsonValue)>, name: Seq<char>) -> Option<
    JsonValue,
>
    decreases fields.len(),
{
    if fields.len() == 0 {
        None
    } else if fields.first().0@ == name {
        Some(fields.first().1)
    } else {
        obj_lookup(fields.drop_first(), name)
    }
}

} // verus!
