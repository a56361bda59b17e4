//! The required control-sequence semantics, exercised on the emulator
//! directly: a screen of the given size consumes the byte stream that the
//! child would have written, and the plain rendering is inspected.

use interminai::Screen;

/// A screen of `WxH` columns by rows, as the size argument writes it.
fn screen_sized(cols: usize, rows: usize) -> Screen {
    Screen::new(rows, cols)
}

fn fed(cols: usize, rows: usize, bytes: &[u8]) -> String {
    let mut s = screen_sized(cols, rows);
    s.process_bytes(bytes);
    s.to_ascii()
}

/// Test CSI G - horizontal position absolute (hpa)
#[test]
fn test_csi_hpa_horizontal_position() {
    let output = fed(40, 10, b"\x1b[10GX");
    assert!(
        output.lines().any(|l| l.starts_with("         X")),
        "X should be at column 10 (9 spaces before). Output:\n{}",
        output
    );
}

/// Test CSI d - vertical position absolute (vpa)
#[test]
fn test_csi_vpa_vertical_position() {
    let output = fed(40, 10, b"\x1b[3dY");
    let lines: Vec<&str> = output.lines().collect();
    assert!(
        lines.len() > 2 && lines[2].starts_with("Y"),
        "Y should be at row 3 (index 2). Lines:\n{:?}",
        lines
    );
}

/// Test CSI K mode 1 - erase from beginning of line to cursor (el1)
#[test]
fn test_csi_el1_erase_to_beginning() {
    let output = fed(40, 10, b"ABCDEFGH\x1b[5G\x1b[1K");
    let first_line = output.lines().next().unwrap_or("");
    assert!(
        first_line.contains("FGH") && !first_line.contains("ABCDE"),
        "ABCDE should be erased, FGH remains. Line: '{}'",
        first_line
    );
}

/// Test CSI X - erase character (ech)
#[test]
fn test_csi_ech_erase_character() {
    let output = fed(40, 10, b"ABCDEFGH\x1b[3G\x1b[3X");
    let first_line = output.lines().next().unwrap_or("");
    assert!(
        first_line.starts_with("AB") && first_line.contains("FGH"),
        "Should have AB___FGH. Line: '{}'",
        first_line
    );
}

/// Test CSI P - delete character (dch)
#[test]
fn test_csi_dch_delete_character() {
    let output = fed(40, 10, b"ABCDEFGH\x1b[3G\x1b[2P");
    let first_line = output.lines().next().unwrap_or("");
    assert!(first_line.starts_with("ABEFGH"), "Should have ABEFGH. Line: '{}'", first_line);
}

/// Test CSI @ - insert character (ich)
#[test]
fn test_csi_ich_insert_character() {
    let output = fed(40, 10, b"ABCDEF\x1b[3G\x1b[2@");
    let first_line = output.lines().next().unwrap_or("");
    assert!(first_line.starts_with("AB  CD"), "Should have AB__CD. Line: '{}'", first_line);
}

/// Test CSI S - scroll up
#[test]
fn test_csi_scroll_up() {
    let output = fed(40, 10, b"LINE1\nLINE2\nLINE3\x1b[2S");
    assert!(output.contains("LINE3"), "LINE3 should remain");
    assert!(!output.contains("LINE1"), "LINE1 should be scrolled off. Output:\n{}", output);
}

/// Test CSI T - scroll down
#[test]
fn test_csi_scroll_down() {
    let output = fed(40, 10, b"TOPLINE\x1b[2T");
    let lines: Vec<&str> = output.lines().collect();
    assert!(
        lines.len() > 2 && lines[2].contains("TOPLINE"),
        "TOPLINE should be at row 3. Lines:\n{:?}",
        lines
    );
}

/// Test CSI I - cursor horizontal tab forward (cht)
#[test]
fn test_csi_horizontal_tab() {
    let output = fed(40, 10, b"\x1b[3G\x1b[IX");
    let first_line = output.lines().next().unwrap_or("");
    let x_pos = first_line.find('X');
    assert_eq!(x_pos, Some(8), "X should be at index 8. Line: '{}'", first_line);
}

/// Test CSI I with count - multiple forward tabs
#[test]
fn test_csi_horizontal_tab_count() {
    let output = fed(40, 10, b"\x1b[1G\x1b[2IX");
    let first_line = output.lines().next().unwrap_or("");
    let x_pos = first_line.find('X');
    assert_eq!(x_pos, Some(16), "X should be at index 16 after 2 tabs. Line: '{}'", first_line);
}

/// Test CSI Z - back tab (cbt)
#[test]
fn test_csi_back_tab() {
    let output = fed(40, 10, b"\x1b[20G\x1b[ZX");
    let first_line = output.lines().next().unwrap_or("");
    let x_pos = first_line.find('X');
    assert_eq!(x_pos, Some(16), "X should be at index 16. Line: '{}'", first_line);
}

/// Test CSI b - repeat character
#[test]
fn test_csi_repeat_character() {
    let output = fed(40, 10, b"A\x1b[5b");
    assert!(output.contains("AAAAAA"), "Should have 6 A's. Output:\n{}", output);
}

/// Test repeat after SGR (escape shouldn't reset last_char)
#[test]
fn test_csi_repeat_after_sgr() {
    let output = fed(40, 10, b"X\x1b[1m\x1b[3b");
    assert!(output.contains("XXXX"), "Should have 4 X's. Output:\n{}", output);
}

/// Test Unicode support
#[test]
fn test_unicode_support() {
    let output = fed(40, 10, "\u{65e5}\u{672c}\u{8a9e} \u{251c}\u{2500}\u{2500} test".as_bytes());
    assert!(output.contains("\u{65e5}\u{672c}\u{8a9e}"), "Should display Japanese");
    assert!(output.contains("\u{251c}\u{2500}\u{2500}"), "Should display box-drawing");
}
