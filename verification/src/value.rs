//! The JSON values that can stand in a record's cell, and their CSV cell text.

use vstd::prelude::*;

verus! {

/// One JSON value, as it matters for CSV output.
///
/// Strings carry their content; numbers, arrays and objects carry the
/// canonical JSON text that the parser rendered for them (numbers as
/// canonical decimal text, arrays and objects as compact JSON); booleans
/// and null carry nothing and are rendered here.
pub enum JsonValue {
    /// A JSON string; the cell shows its content verbatim.
    Text(String),
    /// A JSON number, held as its canonical decimal text.
    Num(String),
    /// A JSON boolean.
    Bool(bool),
    /// JSON null.
    Null,
    /// A JSON array, held as its compact JSON text.
    Arr(String),
    /// A JSON object nested inside a record, held as its compact JSON text.
    Obj(String),
}

/// The cell text of a JSON value: strings verbatim, numbers/arrays/objects
/// as their canonical text, booleans as `true`/`false`, null as `null`.
pub open spec fn spec_stringify(v: JsonValue) -> Seq<char> {
    match v {
        JsonValue::Text(s) => s@,
        JsonValue::Num(t) => t@,
        JsonValue::Bool(b) => if b {
            "true"@
        } else {
            "false"@
        },
        JsonValue::Null => "null"@,
        JsonValue::Arr(t) => t@,
        JsonValue::Obj(t) => t@,
    }
}

/// Render one JSON value as CSV cell text (before any quoting).
pub fn render_value(v: &JsonValue) -> (r: String)
    ensures
        r@ == spec_stringify(*v),
{
    match v {
        JsonValue::Text(s) => s.clone(),
        JsonValue::Num(t) => t.clone(),
        JsonValue::Bool(b) => if *b {
            String::from_str("true")
        } else {
            String::from_str("false")
        },
        JsonValue::Null => String::from_str("null"),
        JsonValue::Arr(t) => t.clone(),
        JsonValue::Obj(t) => t.clone(),
    }
}

/// Stringification is pure: equal values always yield the same cell text.
pub proof fn lemma_stringify_pure(a: JsonValue, b: JsonValue)
    requires
        a == b,
    ensures
        spec_stringify(a) == spec_stringify(b),
{
}

} // verus!
