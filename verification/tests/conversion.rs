use j2c::csv::{cell_needs_quoting, escaped_text, render_cell, render_row};
use j2c::driver::{convert_lines, run};
use j2c::record::{convert_line, row_of_entries, LineError};
use j2c::value::{render_value, JsonValue};

fn strings(items: &[&str]) -> Vec<String> {
    items.iter().map(|s| s.to_string()).collect()
}

#[test]
fn stringify_bool_true() {
    assert_eq!(render_value(&JsonValue::Bool(true)), "true");
}

#[test]
fn stringify_bool_false() {
    assert_eq!(render_value(&JsonValue::Bool(false)), "false");
}

#[test]
fn stringify_null() {
    assert_eq!(render_value(&JsonValue::Null), "null");
}

#[test]
fn stringify_string_verbatim() {
    assert_eq!(render_value(&JsonValue::Text("say \"hi\"".to_string())), "say \"hi\"");
}

#[test]
fn stringify_is_deterministic() {
    let v = JsonValue::Num("42".to_string());
    let w = JsonValue::Num("42".to_string());
    assert_eq!(render_value(&v), render_value(&w));
    assert_eq!(render_value(&v), render_value(&v));
}

#[test]
fn integer_without_trailing_fraction() {
    assert_eq!(convert_line("{\"a\":42}").unwrap(), "42\r\n");
}

#[test]
fn float_in_canonical_form() {
    assert_eq!(convert_line("{\"a\":3.0}").unwrap(), "3.0\r\n");
}

#[test]
fn cell_with_comma_is_quoted() {
    assert_eq!(render_cell("a,b"), "\"a,b\"");
}

#[test]
fn cell_with_quote_is_quoted_and_doubled() {
    assert_eq!(render_cell("say \"hi\""), "\"say \"\"hi\"\"\"");
}

#[test]
fn cell_with_newline_is_quoted() {
    assert_eq!(render_cell("a\nb"), "\"a\nb\"");
    assert_eq!(render_cell("a\rb"), "\"a\rb\"");
}

#[test]
fn plain_cell_is_unquoted() {
    assert_eq!(render_cell("plain"), "plain");
    assert!(!cell_needs_quoting("plain"));
    assert!(cell_needs_quoting("a,b"));
}

#[test]
fn escaping_doubles_every_quote() {
    assert_eq!(escaped_text("a\"b\"c"), "a\"\"b\"\"c");
    assert_eq!(escaped_text("none"), "none");
}

#[test]
fn row_joins_cells_with_commas_and_crlf() {
    assert_eq!(render_row(&strings(&["a", "b", "c"])), "a,b,c\r\n");
    assert_eq!(render_row(&strings(&["a,b", "c"])), "\"a,b\",c\r\n");
}

#[test]
fn row_cells_follow_key_order() {
    assert_eq!(convert_line("{\"a\":1,\"b\":2}").unwrap(), "1,2\r\n");
    assert_eq!(convert_line("{\"b\":2,\"a\":1}").unwrap(), "2,1\r\n");
}

#[test]
fn row_of_entries_in_entry_order() {
    let entries = vec![
        ("x".to_string(), JsonValue::Text("hi".to_string())),
        ("y".to_string(), JsonValue::Bool(false)),
        ("z".to_string(), JsonValue::Null),
    ];
    assert_eq!(row_of_entries(&entries), "hi,false,null\r\n");
}

#[test]
fn string_value_verbatim_then_quoted_as_cell() {
    assert_eq!(convert_line("{\"a\":\"hello\"}").unwrap(), "hello\r\n");
    assert_eq!(convert_line("{\"a\":\"x,y\"}").unwrap(), "\"x,y\"\r\n");
}

#[test]
fn nested_array_is_one_compact_cell() {
    assert_eq!(convert_line("{\"a\":[1,2,3]}").unwrap(), "\"[1,2,3]\"\r\n");
}

#[test]
fn nested_object_is_one_compact_cell() {
    assert_eq!(convert_line("{\"a\":{\"b\":1}}").unwrap(), "\"{\"\"b\"\":1}\"\r\n");
}

#[test]
fn multibyte_text_kept_whole() {
    assert_eq!(convert_line("{\"a\":\"héllo\"}").unwrap(), "héllo\r\n");
}

#[test]
fn invalid_json_is_a_parse_error() {
    let e = convert_line("not json").unwrap_err();
    assert!(matches!(e, LineError::Parse(_)));
}

#[test]
fn empty_line_is_a_parse_error() {
    let e = convert_line("").unwrap_err();
    assert!(matches!(e, LineError::Parse(_)));
}

#[test]
fn array_at_top_level_is_a_schema_error() {
    let e = convert_line("[1,2]").unwrap_err();
    assert!(matches!(e, LineError::Schema));
}

#[test]
fn scalar_at_top_level_is_a_schema_error() {
    let e = convert_line("42").unwrap_err();
    assert!(matches!(e, LineError::Schema));
}

#[test]
fn fail_fast_reports_first_bad_line() {
    let lines = strings(&["{\"a\":1}", "not json"]);
    let e = convert_lines(&lines).unwrap_err();
    assert_eq!(e.line_index, 1);
    assert!(matches!(e.error, LineError::Parse(_)));
}

#[test]
fn later_lines_do_not_mask_the_first_error() {
    let lines = strings(&["{\"a\":1}", "[]", "not json"]);
    let e = convert_lines(&lines).unwrap_err();
    assert_eq!(e.line_index, 1);
    assert!(matches!(e.error, LineError::Schema));
}

#[test]
fn concatenated_inputs_equal_one_input() {
    let first = strings(&["{\"a\":1}"]);
    let second = strings(&["{\"b\":2,\"c\":3}"]);
    let both = strings(&["{\"a\":1}", "{\"b\":2,\"c\":3}"]);
    let glued = format!("{}{}", convert_lines(&first).unwrap(), convert_lines(&second).unwrap());
    assert_eq!(convert_lines(&both).unwrap(), glued);
    assert_eq!(convert_lines(&both).unwrap(), "1\r\n2,3\r\n");
}

#[test]
fn empty_input_gives_empty_output() {
    assert_eq!(convert_lines(&Vec::new()).unwrap(), "");
    assert_eq!(run(&None, &Vec::new()).unwrap(), "");
}

#[test]
fn empty_object_gives_bare_row_terminator() {
    assert_eq!(convert_line("{}").unwrap(), "\r\n");
}

#[test]
fn header_is_independent_of_record_width() {
    let header = Some(strings(&["a", "b"]));
    let lines = strings(&["{\"x\":1,\"y\":2,\"z\":3}"]);
    assert_eq!(run(&header, &lines).unwrap(), "a,b\r\n1,2,3\r\n");
}

#[test]
fn header_cells_are_quoted_like_any_row() {
    let header = Some(strings(&["a,b", "plain"]));
    assert_eq!(run(&header, &Vec::new()).unwrap(), "\"a,b\",plain\r\n");
}

#[test]
fn run_without_header_is_just_the_rows() {
    let lines = strings(&["{\"a\":true}", "{\"a\":null}"]);
    assert_eq!(run(&None, &lines).unwrap(), "true\r\nnull\r\n");
}

#[test]
fn run_propagates_the_error_position() {
    let header = Some(strings(&["h"]));
    let lines = strings(&["{\"a\":1}", "{\"a\":2}", "oops"]);
    let e = run(&header, &lines).unwrap_err();
    assert_eq!(e.line_index, 2);
    assert!(matches!(e.error, LineError::Parse(_)));
}
