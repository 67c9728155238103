//! One JSON-Lines record: parsing a line into ordered entries and turning
//! those entries into one CSV row.

use vstd::prelude::*;

use crate::csv::{render_row, spec_row};
use crate::value::{render_value, spec_stringify, JsonValue};

verus! {

/// Why one line was rejected.
#[derive(Debug, PartialEq, Eq)]
pub enum LineError {
    /// The line is not valid JSON text; carries the parser's diagnostic.
    Parse(String),
    /// The line is valid JSON, but its top-level value is not an object.
    Schema,
}

/// What parsing one line yields: its object's entries, keyed values in the
/// order the keys appear in the source text, or the error that rejects it.
/// Parsing is a function of the line text alone; this names its result.
pub uninterp spec fn parse_line_spec(line: Seq<char>) -> Result<
    Seq<(String, JsonValue)>,
    LineError,
>;

/// Relies on `serde_json::from_str` (parsing is a deterministic function of
/// the line text), on serde_json's `preserve_order` map keeping keys in the
/// order they appear in the source text, and on serde_json's `Display` for
/// values (canonical decimal text for numbers, compact JSON text for arrays
/// and objects).
#[verifier::external_body]
fn parse_record_raw(line: &str) -> (r: Result<Vec<(String, JsonValue)>, LineError>)
    ensures
        (r is Ok) == (parse_line_spec(line@) is Ok),
        r is Ok ==> parse_line_spec(line@)->Ok_0 == (r->Ok_0)@,
        r is Err ==> parse_line_spec(line@)->Err_0 == r->Err_0,
{
    match serde_json::from_str::<serde_json::Value>(line) {
        Err(e) => Err(LineError::Parse(e.to_string())),
        Ok(serde_json::Value::Object(m)) => Ok(m.into_iter().map(|(k, w)| (k, match w {
            serde_json::Value::String(s) => JsonValue::Text(s),
            serde_json::Value::Bool(b) => JsonValue::Bool(b),
            serde_json::Value::Null => JsonValue::Null,
            serde_json::Value::Number(n) => JsonValue::Num(n.to_string()),
            w @ serde_json::Value::Array(_) => JsonValue::Arr(w.to_string()),
            w => JsonValue::Obj(w.to_string()),
        })).collect()),
        Ok(_) => Err(LineError::Schema),
    }
}

/// The cell texts of a record's entries, one per entry, in entry order.
pub open spec fn cells_of(entries: Seq<(String, JsonValue)>) -> Seq<Seq<char>> {
    entries.map_values(|e: (String, JsonValue)| spec_stringify(e.1))
}

/// A record's row has exactly one cell per entry, in the entries' order.
pub proof fn lemma_cells_follow_entry_order(entries: Seq<(String, JsonValue)>)
    ensures
        cells_of(entries).len() == entries.len(),
        forall|i: int|
            0 <= i < entries.len() ==> cells_of(entries)[i] == spec_stringify(entries[i].1),
{
}

/// What converting one line yields: the CSV row of the parsed record's
/// values, in entry order, or the error that rejects the line.
pub open spec fn spec_convert_line(line: Seq<char>) -> Result<Seq<char>, LineError> {
    match parse_line_spec(line) {
        Ok(entries) => Ok(spec_row(cells_of(entries))),
        Err(e) => Err(e),
    }
}

/// Serialize one record's entries as a CSV row: each value's cell text,
/// in entry order, quoted as needed, joined by commas, terminated by CRLF.
pub fn row_of_entries(entries: &Vec<(String, JsonValue)>) -> (r: String)
    ensures
        r@ == spec_row(cells_of(entries@)),
{
    let mut cells: Vec<String> = Vec::new();
    let mut i: usize = 0;
    while i < entries.len()
        invariant
            i <= entries.len(),
            cells@.len() == i,
            forall|k: int| 0 <= k < i ==> (#[trigger] cells@[k])@ == spec_stringify(entries@[k].1),
        decreases entries.len() - i,
    {
        let cell = render_value(&entries[i].1);
        cells.push(cell);
        i += 1;
    }
    proof {
        assert(cells@.map_values(|c: String| c@) =~= cells_of(entries@));
    }
    render_row(&cells)
}

/// Convert one input line into one CSV row: parse it as a JSON object and
/// serialize the object's values, in the order the keys appear in the line.
pub fn convert_line(line: &str) -> (r: Result<String, LineError>)
    ensures
        (r is Ok) == (spec_convert_line(line@) is Ok),
        r is Ok ==> (r->Ok_0)@ == spec_convert_line(line@)->Ok_0,
        r is Err ==> r->Err_0 == spec_convert_line(line@)->Err_0,
{
    match parse_record_raw(line) {
        Err(e) => Err(e),
        Ok(entries) => Ok(row_of_entries(&entries)),
    }
}

} // verus!
