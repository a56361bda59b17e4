//! Rendering and diagnostics: the attributed form's escape sequences, the
//! color code helpers, line trimming, and the unrecognized-sequence ring.

use interminai::{
    build_sgr_sequence, color_to_ansi, named_color_to_ansi, trim_end_preserve_ansi, Attrs, Color,
    DebugBuffer, Screen, Session,
};

fn no_attrs() -> Attrs {
    Attrs {
        bold: false,
        dim: false,
        italic: false,
        underline: false,
        inverse: false,
        hidden: false,
        strikeout: false,
    }
}

#[test]
fn ansi_render_emits_colors_and_reset() {
    let mut s = Screen::new(5, 40);
    s.process_bytes(b"\x1b[31mRed\x1b[0m plain");
    let out = s.get_screen_content_ansi();
    assert!(out.contains("\x1b[0;31mRed"), "red prefix expected in {:?}", out);
    assert!(out.contains("\x1b[0m plain"), "reset before plain text expected in {:?}", out);
    // plain rendering strips the attributes entirely
    assert!(s.to_ascii().starts_with("Red plain\n"));
}

#[test]
fn ansi_render_bold_and_background() {
    let mut s = Screen::new(5, 40);
    s.process_bytes(b"\x1b[1mBold\x1b[0m \x1b[42mGreenBG\x1b[0m");
    let out = s.get_screen_content_ansi();
    assert!(out.contains("\x1b[0;1mBold"), "bold prefix expected in {:?}", out);
    assert!(out.contains("\x1b[0;42mGreenBG"), "green background expected in {:?}", out);
}

#[test]
fn ansi_render_line_without_attributes_is_plain() {
    let mut s = Screen::new(3, 20);
    s.process_bytes(b"just text");
    let out = s.get_screen_content_ansi();
    assert_eq!(out, "just text\n\n\n");
}

#[test]
fn ansi_render_256_and_rgb() {
    let mut s = Screen::new(3, 40);
    s.process_bytes(b"\x1b[38;5;196mP\x1b[0m\x1b[48;2;1;2;3mQ\x1b[0m");
    let out = s.get_screen_content_ansi();
    assert!(out.contains("\x1b[0;38;5;196mP"), "palette color expected in {:?}", out);
    assert!(out.contains("\x1b[0;48;2;1;2;3mQ"), "direct color expected in {:?}", out);
}

#[test]
fn build_sgr_sequence_values() {
    let plain = build_sgr_sequence(&Color::Default, &Color::Default, &no_attrs());
    assert_eq!(plain, "\x1b[0m");

    let mut a = no_attrs();
    a.bold = true;
    let bold_red = build_sgr_sequence(&Color::Ansi(1), &Color::Default, &a);
    assert_eq!(bold_red, "\x1b[0;1;31m");

    let bright_bg = build_sgr_sequence(&Color::Default, &Color::Ansi(10), &no_attrs());
    assert_eq!(bright_bg, "\x1b[0;102m");
}

#[test]
fn color_code_helpers() {
    assert_eq!(named_color_to_ansi(1, true), 31);
    assert_eq!(named_color_to_ansi(1, false), 41);
    assert_eq!(named_color_to_ansi(9, true), 91);
    assert_eq!(named_color_to_ansi(9, false), 101);
    assert_eq!(color_to_ansi(&Color::Default, true), None);
    assert_eq!(color_to_ansi(&Color::Ansi(4), true), Some("34".to_string()));
    assert_eq!(color_to_ansi(&Color::Indexed(200), false), Some("48;5;200".to_string()));
    assert_eq!(color_to_ansi(&Color::Rgb(1, 2, 3), true), Some("38;2;1;2;3".to_string()));
}

#[test]
fn trim_drops_trailing_spaces_only() {
    assert_eq!(trim_end_preserve_ansi("abc   "), "abc");
    assert_eq!(trim_end_preserve_ansi("   "), "");
    assert_eq!(trim_end_preserve_ansi("a b"), "a b");
    // a trailing attribute sequence ends in `m` and is preserved whole
    assert_eq!(trim_end_preserve_ansi("x\x1b[0m"), "x\x1b[0m");
}

#[test]
fn debug_buffer_records_unhandled() {
    let mut s = Screen::new(5, 40);
    s.process_bytes(b"\x1b[?25l");
    let entries = s.get_debug_entries();
    assert_eq!(entries.len(), 1);
    assert_eq!(entries[0].sequence, "\\e[?25l");
    assert_eq!(entries[0].raw_hex, "1b5b3f32356c");
    assert_eq!(s.get_debug_dropped(), 0);
}

#[test]
fn debug_buffer_drops_for_capacity() {
    let mut b = DebugBuffer::new(2);
    b.push("\\eq".to_string(), b"\x1bq");
    b.push("\\er".to_string(), b"\x1br");
    b.push("\\es".to_string(), b"\x1bs");
    let entries = b.get_entries();
    assert_eq!(entries.len(), 2);
    assert_eq!(entries[0].sequence, "\\er");
    assert_eq!(entries[1].sequence, "\\es");
    assert_eq!(b.get_dropped(), 1);
    b.clear();
    assert_eq!(b.get_entries().len(), 0);
    assert_eq!(b.get_dropped(), 0);
}

#[test]
fn screen_debug_capacity_is_configurable() {
    let mut s = Screen::with_debug_buffer(5, 40, 2);
    s.process_bytes(b"\x1b[?1h\x1b[?2h\x1b[?3h");
    let entries = s.get_debug_entries();
    assert_eq!(entries.len(), 2);
    assert_eq!(entries[0].sequence, "\\e[?2h");
    assert_eq!(entries[1].sequence, "\\e[?3h");
    assert_eq!(s.get_debug_dropped(), 1);
    s.clear_debug_buffer();
    assert_eq!(s.get_debug_entries().len(), 0);
}

#[test]
fn sgr_codes_switch_off_again() {
    let mut s = Screen::new(3, 40);
    s.process_bytes(b"\x1b[1;4mAB\x1b[22;24mCD");
    let out = s.get_screen_content_ansi();
    assert!(out.contains("\x1b[0;1;4mAB"), "bold and underline expected in {:?}", out);
    assert!(out.contains("\x1b[0mCD"), "plain continuation expected in {:?}", out);
}

#[test]
fn session_debug_reply_and_clear() {
    let mut sess = Session::new(24, 80, false);
    let _ = sess.ingest(b"\x1b[?1049h");
    let r = sess.handle_debug(false);
    assert_eq!(r.entries.len(), 1);
    assert_eq!(r.dropped, 0);
    let r = sess.handle_debug(true);
    assert_eq!(r.entries.len(), 1);
    let r = sess.handle_debug(false);
    assert_eq!(r.entries.len(), 0);
}

#[test]
fn unknown_escape_sequence_recorded() {
    let mut s = Screen::new(5, 40);
    s.process_bytes(b"\x1b(B");
    let entries = s.get_debug_entries();
    assert_eq!(entries.len(), 1);
    assert_eq!(entries[0].sequence, "\\e(B");
    assert_eq!(entries[0].raw_hex, "1b2842");
}

#[test]
fn erase_display_modes() {
    // mode 2 clears everything and homes the cursor
    let mut s = Screen::new(5, 10);
    s.process_bytes(b"one\ntwo\nthree\x1b[2J");
    assert_eq!(s.to_ascii(), "\n\n\n\n\n");
    assert_eq!(s.cursor_position(), (0, 0));

    // mode 1 erases from the start through the cursor
    let mut s = Screen::new(2, 10);
    s.process_bytes(b"ABCDEFGH\x1b[5G\x1b[1J");
    let text = s.to_ascii();
    let first = text.lines().next().unwrap_or("");
    assert_eq!(first, "     FGH");

    // mode 0 erases from the cursor to the end
    let mut s = Screen::new(2, 10);
    s.process_bytes(b"ABCDEFGH\x1b[5G\x1b[0J");
    let text = s.to_ascii();
    let first = text.lines().next().unwrap_or("");
    assert_eq!(first, "ABCD");
}

#[test]
fn insert_and_delete_lines() {
    let mut s = Screen::new(4, 10);
    s.process_bytes(b"one\ntwo\nthree\x1b[1;1H\x1b[1M");
    let text = s.to_ascii();
    let lines: Vec<&str> = text.lines().collect();
    assert_eq!(lines[0], "two");
    assert_eq!(lines[1], "three");

    let mut s = Screen::new(4, 10);
    s.process_bytes(b"one\ntwo\x1b[1;1H\x1b[1L");
    let text = s.to_ascii();
    let lines: Vec<&str> = text.lines().collect();
    assert_eq!(lines[0], "");
    assert_eq!(lines[1], "one");
    assert_eq!(lines[2], "two");
}

#[test]
fn screen_scrolls_at_bottom() {
    let mut s = Screen::new(3, 10);
    s.process_bytes(b"a\nb\nc\nd");
    let text = s.to_ascii();
    let lines: Vec<&str> = text.lines().collect();
    assert_eq!(lines, vec!["b", "c", "d"]);
}

#[test]
fn scroll_up_keeps_later_lines() {
    let mut s = Screen::new(5, 10);
    s.process_bytes(b"one\ntwo\nthree");
    s.scroll_up();
    let text = s.to_ascii();
    let lines: Vec<&str> = text.lines().collect();
    assert_eq!(lines[0], "two");
    assert_eq!(lines[1], "three");
}

#[test]
fn resize_preserves_top_left_content() {
    let mut s = Screen::new(10, 40);
    s.process_bytes(b"keep me\nand me");
    s.resize(5, 20);
    let text = s.to_ascii();
    assert!(text.starts_with("keep me\nand me\n"));

    let mut t = Screen::new(2, 10);
    t.process_bytes(b"0123456789\nX");
    t.resize(2, 4);
    assert_eq!(t.to_ascii(), "0123\nX\n");
}

#[test]
fn tab_stops_every_eight_columns() {
    let mut s = Screen::new(2, 20);
    s.process_bytes(b"a\tb");
    let text = s.to_ascii();
    let first = text.lines().next().unwrap_or("");
    assert_eq!(first.find('b'), Some(8));
}

#[test]
fn osc_sequences_are_swallowed() {
    let mut s = Screen::new(2, 20);
    s.process_bytes(b"\x1b]0;window title\x07after");
    assert!(s.to_ascii().starts_with("after\n"));
    assert_eq!(s.get_debug_entries().len(), 0);
}
