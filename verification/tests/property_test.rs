//! The library's stated properties, exercised on concrete values: the
//! determinism of the emulator, the dimension invariant, activity
//! monotonicity, wait liveness and cancellation safety, one-indexed
//! cursor reports, the delayed wrap, and the round trip of attributed
//! output.

use interminai::{ChildStatus, Screen, Session, WaitPoll};

/// Feeding the same bytes to two fresh emulators of the same size yields
/// the same renderings, cursor, and pending replies.
#[test]
fn determinism_same_bytes_same_outputs() {
    let bytes: &[u8] = b"hi\x1b[31mred\x1b[0m\n\x1b[5;10H\x1b[6ntail\x1b[2Jafter";
    let mut a = Screen::new(10, 40);
    let mut b = Screen::new(10, 40);
    a.process_bytes(bytes);
    b.process_bytes(bytes);
    assert_eq!(a.to_ascii(), b.to_ascii());
    assert_eq!(a.get_screen_content_ansi(), b.get_screen_content_ansi());
    assert_eq!(a.cursor_position(), b.cursor_position());
    assert_eq!(a.take_pending_responses(), b.take_pending_responses());
}

/// After a resize the reported size is the new one and no rendered line
/// is wider than the new column count.
#[test]
fn resize_reports_new_dimensions() {
    let mut s = Screen::new(24, 80);
    s.process_bytes(b"This is a fairly long line of text that fills many columns indeed");
    s.resize(10, 40);
    assert_eq!(s.dimensions(), (10, 40));
    for line in s.to_ascii().lines() {
        assert!(line.chars().count() <= 40);
    }
}

/// A cursor position query is answered with the one-indexed position.
#[test]
fn dsr6_reply_is_one_indexed() {
    let mut s = Screen::new(24, 80);
    s.process_bytes(b"\x1b[5;10H\x1b[6n");
    let replies = s.take_pending_responses();
    assert_eq!(replies.len(), 1);
    assert_eq!(replies[0], b"\x1b[5;10R".to_vec());
}

/// A device status query is answered with the all-well report, and a
/// primary device attributes query with the fixed identification.
#[test]
fn dsr5_and_da_replies() {
    let mut s = Screen::new(24, 80);
    s.process_bytes(b"\x1b[5n\x1b[c");
    let replies = s.take_pending_responses();
    assert_eq!(replies.len(), 2);
    assert_eq!(replies[0], b"\x1b[0n".to_vec());
    assert_eq!(replies[1], b"\x1b[?1;2c".to_vec());
}

/// The wrap scenario: ten printables on a ten-column screen leave the
/// cursor at the last column; the next printable lands on the next line.
#[test]
fn delayed_wrap_scenario() {
    let mut s = Screen::new(5, 10);
    s.process_bytes(b"ABCDEFGHIJ");
    assert_eq!(s.cursor_position(), (0, 9));
    s.process_bytes(b"K");
    assert_eq!(s.cursor_position(), (1, 1));
    let text = s.to_ascii();
    let lines: Vec<&str> = text.lines().collect();
    assert_eq!(lines[0], "ABCDEFGHIJ");
    assert!(lines[1].starts_with("K"));
}

/// Parsing the attributed rendering back through a fresh emulator yields
/// the same plain rendering.
#[test]
fn attributed_output_round_trip() {
    let mut s = Screen::new(6, 30);
    s.process_bytes(b"plain \x1b[1;31mbold red\x1b[0m end\n\x1b[44mblue bg\x1b[0m\ntail");
    let ansi = s.get_screen_content_ansi();

    // the final newline closes the last line; replaying it would scroll
    let replay = ansi.strip_suffix('\n').unwrap_or(&ansi);
    let mut t = Screen::new(6, 30);
    t.process_bytes(replay.as_bytes());
    assert_eq!(s.to_ascii(), t.to_ascii());
}

/// A non-empty read latches activity; a status observation reads and
/// clears it; without new bytes every later observation stays false.
#[test]
fn activity_monotone_between_reads() {
    let mut sess = Session::new(24, 80, false);
    let st = sess.handle_status(true);
    assert_eq!(st.activity, Some(false));

    let _ = sess.ingest(b"hello");
    let st = sess.handle_status(true);
    assert_eq!(st.activity, Some(true));

    // cleared by the observation; empty reads do not set it again
    let _ = sess.ingest(b"");
    let st = sess.handle_status(true);
    assert_eq!(st.activity, Some(false));
    let st = sess.handle_status(true);
    assert_eq!(st.activity, Some(false));

    let _ = sess.ingest(b"more");
    let st = sess.handle_status(true);
    assert_eq!(st.activity, Some(true));
}

/// A status request that does not ask for activity leaves the flag alone.
#[test]
fn status_without_activity_does_not_clear() {
    let mut sess = Session::new(24, 80, false);
    let _ = sess.ingest(b"x");
    let st = sess.handle_status(false);
    assert_eq!(st.activity, None);
    assert!(st.running);
    let st = sess.handle_status(true);
    assert_eq!(st.activity, Some(true));
}

/// Once the exit code is recorded, every outstanding wait completes with
/// it at the next evaluation.
#[test]
fn wait_completes_once_child_exits() {
    let mut sess = Session::new(24, 80, false);
    assert!(matches!(sess.wait_poll(false), WaitPoll::Pending));
    sess.record_child_status(ChildStatus::Exited(7));
    assert!(matches!(sess.wait_poll(false), WaitPoll::Exited { exit_code: 7 }));
    // the code, once set, is final
    sess.record_child_status(ChildStatus::Exited(3));
    assert!(matches!(sess.wait_poll(false), WaitPoll::Exited { exit_code: 7 }));
}

/// A signal termination is recorded as 128 plus the signal number.
#[test]
fn signal_termination_exit_code() {
    let mut sess = Session::new(24, 80, false);
    sess.record_child_status(ChildStatus::Signaled(15));
    let st = sess.handle_status(false);
    assert!(!st.running);
    assert_eq!(st.exit_code, Some(143));
}

/// An activity wait completes on activity or on exit and clears a
/// reported flag.
#[test]
fn wait_for_activity() {
    let mut sess = Session::new(24, 80, false);
    assert!(matches!(sess.wait_poll(true), WaitPoll::Pending));
    let _ = sess.ingest(b"out");
    assert!(matches!(sess.wait_poll(true), WaitPoll::Activity { activity: true, exited: false }));
    // the reported flag was cleared
    assert!(matches!(sess.wait_poll(true), WaitPoll::Pending));
    sess.record_child_status(ChildStatus::Exited(0));
    assert!(matches!(sess.wait_poll(true), WaitPoll::Activity { activity: false, exited: true }));
}

/// A waiter that disconnects makes no call into the session, so dropping
/// it changes nothing for the next request: the same state gives the same
/// decisions.
#[test]
fn wait_cancellation_changes_nothing() {
    let mut with_drop = Session::new(24, 80, false);
    let mut without = Session::new(24, 80, false);

    // a wait is registered and then abandoned: only evaluations happened
    assert!(matches!(with_drop.wait_poll(false), WaitPoll::Pending));
    assert!(matches!(with_drop.wait_poll(false), WaitPoll::Pending));
    // ... the waiter is dropped here, with no library call at all

    with_drop.record_child_status(ChildStatus::Exited(4));
    without.record_child_status(ChildStatus::Exited(4));
    let a = with_drop.handle_status(false);
    let b = without.handle_status(false);
    assert_eq!(a.running, b.running);
    assert_eq!(a.exit_code, b.exit_code);
    assert!(matches!(with_drop.wait_poll(false), WaitPoll::Exited { exit_code: 4 }));
}

/// A stop request sets the shutdown flag and asks for the child to be
/// signaled exactly while it still runs.
#[test]
fn stop_sets_shutdown() {
    let mut sess = Session::new(24, 80, false);
    assert!(!sess.should_shutdown());
    let r = sess.handle_stop();
    assert!(r.signal_child);
    assert!(sess.should_shutdown());

    let mut done = Session::new(24, 80, false);
    done.record_child_status(ChildStatus::Exited(0));
    let r = done.handle_stop();
    assert!(!r.signal_child);
}

/// The resize request propagates to the reported size of the output.
#[test]
fn session_resize_propagates() {
    let mut sess = Session::new(24, 80, false);
    sess.handle_resize(40, 10);
    let out = sess.handle_output(interminai::OutputFormat::Ascii);
    assert_eq!(out.rows, 10);
    assert_eq!(out.cols, 40);
}

/// The output reply carries the rendered screen, the zero-indexed cursor,
/// and the size.
#[test]
fn output_reply_fields() {
    let mut sess = Session::new(5, 10, false);
    let _ = sess.ingest(b"hello");
    let out = sess.handle_output(interminai::OutputFormat::Ascii);
    assert!(out.screen.starts_with("hello\n"));
    assert_eq!(out.cursor_row, 0);
    assert_eq!(out.cursor_col, 5);
    assert_eq!(out.rows, 5);
    assert_eq!(out.cols, 10);
}

/// The echo scenario, at the library's edge: the child's greeting arrives
/// as a chunk of bytes, and the first non-blank line of the rendered
/// screen is the greeting.
#[test]
fn echo_first_line() {
    let mut sess = Session::new(5, 10, false);
    let _ = sess.ingest(b"hello\r\n");
    let out = sess.handle_output(interminai::OutputFormat::Ascii);
    let first = out.screen.lines().find(|l| !l.trim().is_empty());
    assert_eq!(first, Some("hello"));
}

/// Ingesting bytes that hold a query hands back the reply blobs for the
/// pseudo-terminal.
#[test]
fn ingest_returns_query_replies() {
    let mut sess = Session::new(24, 80, false);
    let replies = sess.ingest(b"\x1b[6n");
    assert_eq!(replies, vec![b"\x1b[1;1R".to_vec()]);
}
