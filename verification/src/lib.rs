//! Streaming conversion of JSON-Lines text into CSV rows.
//!
//! Each input line is parsed as a JSON object; the object's values, in the
//! order the keys appear in the source text, become the cells of one CSV
//! row, quoted by the minimal-quoting rule (a cell is quoted exactly when it
//! contains a comma, a quote, or a line terminator).

pub mod csv;
pub mod driver;
pub mod record;
pub mod value;
