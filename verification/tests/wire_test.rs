//! The edge parsers: the WxH size argument, signal names and numbers, and
//! the C-style input escapes.

use interminai::{parse_signal, parse_terminal_size, unescape, SizeError};

#[test]
fn size_well_formed() {
    assert_eq!(parse_terminal_size("80x24"), Ok((80, 24)));
    assert_eq!(parse_terminal_size("10x5"), Ok((10, 5)));
    assert_eq!(parse_terminal_size("120x40"), Ok((120, 40)));
}

#[test]
fn size_rejects_malformed() {
    assert_eq!(parse_terminal_size("notasize"), Err(SizeError::Format));
    assert_eq!(parse_terminal_size("invalid"), Err(SizeError::Format));
    assert_eq!(parse_terminal_size(""), Err(SizeError::Format));
    assert_eq!(parse_terminal_size("80x24x7"), Err(SizeError::Format));
    assert_eq!(parse_terminal_size("x24"), Err(SizeError::Columns));
    assert_eq!(parse_terminal_size("80x"), Err(SizeError::Rows));
    assert_eq!(parse_terminal_size("a0x24"), Err(SizeError::Columns));
}

#[test]
fn size_rejects_out_of_range() {
    assert_eq!(parse_terminal_size("0x24"), Err(SizeError::Columns));
    assert_eq!(parse_terminal_size("80x0"), Err(SizeError::Rows));
    assert_eq!(parse_terminal_size("65536x24"), Err(SizeError::Columns));
    assert_eq!(parse_terminal_size("65535x65535"), Ok((65535, 65535)));
}

#[test]
fn size_error_messages() {
    assert_eq!(SizeError::Format.message(), "Invalid size format, expected WxH like 80x24");
    assert_eq!(SizeError::Columns.message(), "Invalid columns");
    assert_eq!(SizeError::Rows.message(), "Invalid rows");
}

#[test]
fn signal_named() {
    assert_eq!(parse_signal("SIGTERM"), Ok(15));
    assert_eq!(parse_signal("SIGKILL"), Ok(9));
    assert_eq!(parse_signal("SIGINT"), Ok(2));
    assert_eq!(parse_signal("SIGHUP"), Ok(1));
    assert_eq!(parse_signal("SIGQUIT"), Ok(3));
    assert_eq!(parse_signal("SIGUSR1"), Ok(10));
    assert_eq!(parse_signal("SIGUSR2"), Ok(12));
}

#[test]
fn signal_named_without_prefix_and_case() {
    assert_eq!(parse_signal("TERM"), Ok(15));
    assert_eq!(parse_signal("term"), Ok(15));
    assert_eq!(parse_signal("sigterm"), Ok(15));
    assert_eq!(parse_signal("Kill"), Ok(9));
    assert_eq!(parse_signal("int"), Ok(2));
}

#[test]
fn signal_numeric() {
    assert_eq!(parse_signal("9"), Ok(9));
    assert_eq!(parse_signal("15"), Ok(15));
    assert_eq!(parse_signal("2"), Ok(2));
    assert_eq!(parse_signal("1"), Ok(1));
    assert_eq!(parse_signal("31"), Ok(31));
}

#[test]
fn signal_rejects_unknown() {
    assert!(parse_signal("NOTASIGNAL").is_err());
    assert!(parse_signal("9999").is_err());
    assert!(parse_signal("0").is_err());
    assert!(parse_signal("32").is_err());
    assert!(parse_signal("").is_err());
    assert!(parse_signal("SIGSIGHUP").is_err());
}

#[test]
fn unescape_simple_escapes() {
    assert_eq!(unescape("a\\nb"), Ok("a\nb".to_string()));
    assert_eq!(unescape("a\\rb"), Ok("a\rb".to_string()));
    assert_eq!(unescape("a\\tb"), Ok("a\tb".to_string()));
    assert_eq!(unescape("X\\aY"), Ok("X\u{7}Y".to_string()));
    assert_eq!(unescape("abc\\bX"), Ok("abc\u{8}X".to_string()));
    assert_eq!(unescape("\\f"), Ok("\u{c}".to_string()));
    assert_eq!(unescape("A\\vB"), Ok("A\u{b}B".to_string()));
    assert_eq!(unescape("a\\\\b"), Ok("a\\b".to_string()));
    assert_eq!(unescape("\\e[D"), Ok("\u{1b}[D".to_string()));
    assert_eq!(unescape("\\E"), Ok("\u{1b}".to_string()));
}

#[test]
fn unescape_hex() {
    assert_eq!(unescape("\\x41\\x42\\x43"), Ok("ABC".to_string()));
    assert_eq!(unescape("\\x1b"), Ok("\u{1b}".to_string()));
    assert_eq!(unescape("\\x7F"), Ok("\u{7f}".to_string()));
}

#[test]
fn unescape_unknown_passthrough() {
    assert_eq!(unescape("a\\zb"), Ok("a\\zb".to_string()));
    assert_eq!(unescape("plain"), Ok("plain".to_string()));
    assert_eq!(unescape("trailing\\"), Ok("trailing\\".to_string()));
}

#[test]
fn unescape_rejects_malformed_hex() {
    assert!(unescape("\\x4").is_err());
    assert!(unescape("\\x").is_err());
    assert!(unescape("\\xZZ").is_err());
}
