use unibilium::TermError;
use unibilium::TermVar;
use unibilium::term_name_bytes;

#[test]
fn unknown_name_reports_not_found_with_that_name() {
    let err = TermError::from_name("blahblah2234");
    assert_eq!(err, TermError::NotFound(String::from("blahblah2234")));
}

#[test]
fn present_variable_fails_as_its_own_name() {
    let err = TermError::from_term_var(TermVar::Present(String::from("vt100")));
    assert_eq!(err, TermError::NotFound(String::from("vt100")));
}

#[test]
fn missing_variable_fails_as_the_empty_name() {
    let err = TermError::from_term_var(TermVar::Missing);
    assert_eq!(err, TermError::NotFound(String::new()));
}

#[test]
fn non_textual_variable_fails_without_a_name() {
    let err = TermError::from_term_var(TermVar::NotText);
    assert_eq!(err, TermError::NotUnicode);
}

#[test]
fn error_kinds_differ() {
    assert_ne!(TermError::NotFound(String::new()), TermError::NotUnicode);
    assert_ne!(
        TermError::NotFound(String::from("a")),
        TermError::NotFound(String::from("b"))
    );
}

#[test]
fn not_found_message_names_the_terminal() {
    let err = TermError::NotFound(String::from("vt100"));
    assert_eq!(err.message(), "terminfo not found by name 'vt100'");
}

#[test]
fn not_unicode_message_is_fixed() {
    assert_eq!(TermError::NotUnicode.message(), "non unicode string encountered");
}

#[test]
fn a_plain_name_becomes_null_terminated_bytes() {
    assert_eq!(term_name_bytes("vt100"), Ok(b"vt100\0".to_vec()));
}

#[test]
fn the_empty_name_becomes_a_lone_terminator() {
    assert_eq!(term_name_bytes(""), Ok(vec![0]));
}

#[test]
fn an_embedded_null_fails_with_not_found_not_a_panic() {
    let name = "ab\0cd";
    assert_eq!(term_name_bytes(name), Err(TermError::NotFound(String::from(name))));
}
