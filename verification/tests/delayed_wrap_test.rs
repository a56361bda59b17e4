//! The delayed-wrap discipline at the right margin, exercised on the
//! emulator directly.  The cursor is reported one-indexed, as clients see
//! it.

use interminai::Screen;

fn feed(cols: usize, rows: usize, bytes: &[u8]) -> Screen {
    let mut s = Screen::new(rows, cols);
    s.process_bytes(bytes);
    s
}

/// The cursor as (row, col), one-indexed.
fn get_cursor(s: &Screen) -> (usize, usize) {
    let (r, c) = s.cursor_position();
    (r + 1, c + 1)
}

/// Test that printing exactly terminal-width characters keeps cursor at last column
/// (delayed wrap - cursor doesn't wrap until next character)
#[test]
fn test_delayed_wrap_cursor_stays_at_last_column() {
    let s = feed(10, 5, b"ABCDEFGHIJ");

    let (row, col) = get_cursor(&s);
    assert_eq!(row, 1, "Cursor should stay on row 1");
    assert_eq!(col, 10, "Cursor should be at last column (10)");

    let output = s.to_ascii();
    let first_line = output.lines().next().unwrap_or("");
    assert_eq!(first_line, "ABCDEFGHIJ", "All 10 chars should be on first line");
}

/// Test that the next character after filling the line causes wrap
#[test]
fn test_delayed_wrap_next_char_wraps() {
    let s = feed(10, 5, b"ABCDEFGHIJK");

    let (row, col) = get_cursor(&s);
    assert_eq!(row, 2, "Cursor should be on row 2 after wrap");
    assert_eq!(col, 2, "Cursor should be at col 2 after printing K");

    let output = s.to_ascii();
    let lines: Vec<&str> = output.lines().collect();
    assert!(lines.len() >= 2, "Should have at least 2 lines");
    assert_eq!(lines[0], "ABCDEFGHIJ", "First line should have 10 chars");
    assert!(lines[1].starts_with("K"), "Second line should start with K");
}

/// Test that control character (CR) cancels pending wrap
#[test]
fn test_delayed_wrap_cancelled_by_cr() {
    let s = feed(10, 5, b"ABCDEFGHIJ\rX");

    let output = s.to_ascii();
    let first_line = output.lines().next().unwrap_or("");
    assert!(first_line.starts_with("X"), "X should be at start of line 1");
    assert!(first_line.contains("BCDEFGHIJ"), "Rest of line should remain");
}

/// Test that CSI cursor movement cancels pending wrap
#[test]
fn test_delayed_wrap_cancelled_by_csi() {
    let s = feed(10, 5, b"\n\nABCDEFGHIJ\x1b[1A\x1b[1GX");

    let output = s.to_ascii();
    let lines: Vec<&str> = output.lines().collect();
    assert!(lines.len() >= 2, "Should have at least 2 lines");
    assert!(lines[1].starts_with("X"), "X should be at start of line 2 after cursor up");
}

/// Test that newline after full line works correctly
#[test]
fn test_delayed_wrap_with_newline() {
    let s = feed(10, 5, b"ABCDEFGHIJ\nY");

    let output = s.to_ascii();
    let lines: Vec<&str> = output.lines().collect();
    assert!(lines.len() >= 2, "Should have at least 2 lines");
    assert_eq!(lines[0], "ABCDEFGHIJ", "First line should have 10 chars");
    assert!(lines[1].starts_with("Y"), "Y should be at start of line 2");
}

/// Test spinner-like pattern: print full line, cursor up, erase, reprint
#[test]
fn test_spinner_pattern() {
    let s = feed(20, 5, b"12345678901234567890\x1b[1A\x1b[2K\x1b[1GNew content here");

    let output = s.to_ascii();
    let first_line = output.lines().next().unwrap_or("");
    assert!(
        first_line.contains("New content here"),
        "Should show new content. Line: '{}'",
        first_line
    );
    assert!(
        !first_line.contains("1234567890"),
        "Old content should be erased. Line: '{}'",
        first_line
    );
}

/// Test multiple full lines followed by cursor-up operations
#[test]
fn test_multi_line_update_in_place() {
    let s = feed(
        10,
        5,
        b"AAAAAAAAAA\nBBBBBBBBBB\n\x1b[2A\x1b[2K\x1b[1GLINE1\x1b[1B\x1b[2K\x1b[1GLINE2",
    );

    let output = s.to_ascii();
    let lines: Vec<&str> = output.lines().collect();
    assert!(lines.len() >= 2, "Should have at least 2 lines. Output:\n{}", output);
    assert!(lines[0].starts_with("LINE1"), "First line should be LINE1. Got: '{}'", lines[0]);
    assert!(lines[1].starts_with("LINE2"), "Second line should be LINE2. Got: '{}'", lines[1]);
}

/// Test backspace behavior after filling line exactly (pending wrap state):
/// backspace cancels the pending wrap AND moves back one column, the
/// DEC way, so the next printable overwrites the second-to-last cell.
#[test]
fn test_backspace_after_exact_fill() {
    let s = feed(10, 5, b"ABCDEFGHIJ\x08X");

    let output = s.to_ascii();
    let first_line = output.lines().next().unwrap_or("");
    assert_eq!(
        first_line, "ABCDEFGHXJ",
        "Backspace should cancel pending wrap and X should overwrite 'I'. Got: '{}'",
        first_line
    );

    let (row, col) = get_cursor(&s);
    assert_eq!(row, 1, "Cursor should stay on row 1");
    assert_eq!(col, 10, "Cursor should be at col 10 after writing X");
}

/// Test that exactly 80 characters on 80-column terminal works correctly
#[test]
fn test_80_char_line_on_80_col_terminal() {
    let line_80 = "X".repeat(80);
    let mut bytes = line_80.into_bytes();
    bytes.extend_from_slice(b"\x1b[1A\x1b[2K\x1b[1GUpdated");
    let s = feed(80, 5, &bytes);

    let output = s.to_ascii();
    let first_line = output.lines().next().unwrap_or("");
    assert!(
        first_line.starts_with("Updated"),
        "Should show 'Updated' after cursor-up and erase. Line: '{}'",
        first_line
    );
    assert!(!first_line.contains("XXXX"), "Old content should be gone. Line: '{}'", first_line);
}
