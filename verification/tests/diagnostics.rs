use ceya::error;

#[test]
fn error_names_line_and_message() {
    assert_eq!(error(12, "Unterminated string."), "[line 12] Error: Unterminated string.");
    assert_eq!(error(0, "x"), "[line 0] Error: x");
}
