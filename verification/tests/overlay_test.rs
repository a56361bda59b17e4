use interminai::apply_cursor_inverse;

#[test]
fn test_apply_cursor_inverse_basic() {
    let screen = "Hello World\nSecond Line";
    let result = apply_cursor_inverse(screen, 0, 6);

    // Should have inverse codes around character at position 6 (the 'W')
    assert!(result.contains("\x1b[7mW\x1b[27m"), "Should wrap 'W' with inverse codes");
    assert!(result.contains("Hello"));
    assert!(result.contains("orld")); // After the wrapped W
    assert!(result.contains("Second Line"));
}

#[test]
fn test_apply_cursor_inverse_first_char() {
    let screen = "Test";
    let result = apply_cursor_inverse(screen, 0, 0);

    // Should start with inverse code
    assert!(result.starts_with("\x1b[7m"));
    assert!(result.contains("\x1b[27m"));
}

#[test]
fn test_apply_cursor_inverse_multiline() {
    let screen = "Line 1\nLine 2\nLine 3";
    let result = apply_cursor_inverse(screen, 1, 5);

    // Should have all lines
    assert!(result.contains("Line 1"));
    assert!(result.contains("Line ")); // Before wrapped character
    assert!(result.contains("Line 3"));

    // Should have inverse codes wrapping character at position 5 of line 1 (the '2')
    assert!(result.contains("\x1b[7m2\x1b[27m"));
}

#[test]
fn test_apply_cursor_inverse_invalid_row() {
    let screen = "Only one line";
    let result = apply_cursor_inverse(screen, 5, 0);

    // Should return original screen unchanged
    assert_eq!(result, screen);
}

#[test]
fn test_apply_cursor_inverse_invalid_col() {
    let screen = "Short";
    let result = apply_cursor_inverse(screen, 0, 100);

    // Should return original line (no inverse codes)
    assert!(!result.contains("\x1b[7m"));
    assert!(result.contains("Short"));
}

#[test]
fn test_apply_cursor_inverse_empty_screen() {
    let screen = "";
    let result = apply_cursor_inverse(screen, 0, 0);

    // Should handle gracefully
    assert_eq!(result, screen);
}

#[test]
fn test_apply_cursor_inverse_preserves_all_chars() {
    let screen = "ABCDEFGHIJKLMNOP";
    let result = apply_cursor_inverse(screen, 0, 7);

    // Strip ANSI codes
    let stripped = result.replace("\x1b[7m", "").replace("\x1b[27m", "");

    // All characters should be preserved
    assert_eq!(stripped, screen);
}

#[test]
fn test_apply_cursor_inverse_last_char() {
    let screen = "Test";
    let result = apply_cursor_inverse(screen, 0, 3);

    // Should end with inverse codes and then the 't'
    assert!(result.contains("\x1b[7mt\x1b[27m"));
}

#[test]
fn test_apply_cursor_inverse_special_chars() {
    let screen = "Hello\tWorld\nNext";
    let result = apply_cursor_inverse(screen, 0, 5);

    // Should handle tab character
    assert!(result.contains("\x1b[7m\t\x1b[27m"));
    assert!(result.contains("Hello"));
    assert!(result.contains("World"));
}
