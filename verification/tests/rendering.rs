use unibilium::bool_caption;
use unibilium::caption;
use unibilium::numeric_caption;

#[test]
fn string_capability_renders_name_and_value() {
    assert_eq!(caption("clear", Some("^[[H^[[J")), "clear: ^[[H^[[J");
}

#[test]
fn absent_string_capability_renders_null() {
    assert_eq!(caption("sitm", None), "sitm: NULL");
}

#[test]
fn boolean_capability_renders_its_flag() {
    assert_eq!(bool_caption("am", true), "am: true");
    assert_eq!(bool_caption("bce", false), "bce: false");
}

#[test]
fn numeric_capability_renders_in_decimal() {
    assert_eq!(numeric_caption("colors", 8), "colors: 8");
    assert_eq!(numeric_caption("cols", 80), "cols: 80");
    assert_eq!(numeric_caption("u8", 0), "u8: 0");
}

#[test]
fn the_absent_value_sentinel_renders_as_is() {
    assert_eq!(numeric_caption("ncv", -1), "ncv: -1");
}

#[test]
fn extreme_numeric_values_render_exactly() {
    assert_eq!(numeric_caption("n", i32::MIN), "n: -2147483648");
    assert_eq!(numeric_caption("n", i32::MAX), "n: 2147483647");
}
