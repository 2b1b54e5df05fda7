use unibilium::escape_bytes;
use unibilium::escape_string;

#[test]
fn absent_input_stays_absent() {
    assert_eq!(escape_string(None), None);
}

#[test]
fn empty_text_stays_empty() {
    assert_eq!(escape_string(Some("")), Some(String::new()));
}

#[test]
fn printable_text_passes_through() {
    assert_eq!(escape_string(Some("smcup")).unwrap(), "smcup");
}

#[test]
fn esc_byte_becomes_caret_notation() {
    assert_eq!(escape_string(Some("\x1b")).unwrap(), "^[");
}

#[test]
fn escape_sequence_shows_caret_notation() {
    assert_eq!(escape_string(Some("\x1b[0m")).unwrap(), "^[[0m");
}

#[test]
fn control_bytes_get_backslash_escapes() {
    assert_eq!(escape_string(Some("a\tb\nc\rd")).unwrap(), r"a\tb\nc\rd");
}

#[test]
fn backslash_is_doubled() {
    assert_eq!(escape_string(Some(r"a\b")).unwrap(), r"a\\b");
}

#[test]
fn quotes_are_escaped() {
    assert_eq!(escape_string(Some("'\"")).unwrap(), r#"\'\""#);
}

#[test]
fn other_control_bytes_get_hex_escapes() {
    assert_eq!(escape_string(Some("\x01")).unwrap(), r"\x01");
    assert_eq!(escape_string(Some("\x7f")).unwrap(), r"\x7f");
}

#[test]
fn non_ascii_text_escapes_each_byte() {
    assert_eq!(escape_string(Some("é")).unwrap(), r"\xc3\xa9");
}

#[test]
fn literal_backslash_x_1_b_text_is_caught_by_the_override() {
    assert_eq!(escape_string(Some(r"\x1b")).unwrap(), r"\^[");
}

#[test]
fn escaped_form_never_contains_the_hex_escape_of_esc() {
    let escaped = escape_string(Some("pre\x1bpost")).unwrap();
    assert!(escaped.contains("^["));
    assert!(!escaped.contains(r"\x1b"));
}

#[test]
fn escape_bytes_on_raw_bytes() {
    assert_eq!(escape_bytes(&[0x1b]), vec![0x5e, 0x5b]);
    assert_eq!(escape_bytes(&[]), Vec::<u8>::new());
    assert_eq!(escape_bytes(&[0x41, 0x00]), vec![0x41, 0x5c, 0x78, 0x30, 0x30]);
}
