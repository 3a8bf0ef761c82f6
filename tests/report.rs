use ghutil::report::{decimal_string, repo_line, stats_line};

#[test]
fn decimal_rendering() {
    assert_eq!(decimal_string(0), "0");
    assert_eq!(decimal_string(7), "7");
    assert_eq!(decimal_string(10), "10");
    assert_eq!(decimal_string(305), "305");
    assert_eq!(decimal_string(u32::MAX), "4294967295");
}

#[test]
fn repo_line_format() {
    assert_eq!(repo_line("widget", "https://github.com/acme/widget"), "widget: https://github.com/acme/widget");
}

#[test]
fn stats_line_format() {
    assert_eq!(
        stats_line("acme/widget", 0, 100),
        "acme/widget has 0 stars and 100% health percentage"
    );
    assert_eq!(stats_line("o/r", 1234, 7), "o/r has 1234 stars and 7% health percentage");
}
