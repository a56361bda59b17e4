//! The terminal-emulator interface: the operations a session needs from a
//! screen backend, with the backend's own invariant threaded through.

use vstd::prelude::*;

use crate::debug::UnhandledSequence;
use crate::screen::{wf, Screen};

verus! {

/// The operations of a terminal-emulation backend: consume output bytes,
/// render the screen, report the cursor and dimensions, resize, hand out
/// queued reply blobs, and expose the diagnostics ring.
pub trait TerminalEmulator {
    /// The backend's invariant, established at construction and kept by
    /// every operation.
    spec fn inv(&self) -> bool;

    /// Consume a chunk of output bytes from the child.
    fn process_bytes(&mut self, bytes: &[u8])
        requires
            old(self).inv(),
        ensures
            final(self).inv(),
    ;

    /// The screen as plain text, lines separated by newlines, each
    /// right-trimmed of spaces.
    fn get_screen_content(&self) -> String
        requires
            self.inv(),
    ;

    /// The screen with attribute sequences re-emitted.
    fn get_screen_content_ansi(&self) -> String
        requires
            self.inv(),
    ;

    /// The cursor as (row, col), zero-indexed.
    fn cursor_position(&self) -> (usize, usize)
        requires
            self.inv(),
    ;

    /// The dimensions as (rows, cols), each at least one.
    fn dimensions(&self) -> (r: (usize, usize))
        requires
            self.inv(),
        ensures
            r.0 >= 1,
            r.1 >= 1,
    ;

    /// Resize the screen to the given dimensions.
    fn resize(&mut self, rows: usize, cols: usize)
        requires
            old(self).inv(),
            1 <= rows <= 0xFFFF,
            1 <= cols <= 0xFFFF,
        ensures
            final(self).inv(),
    ;

    /// Hand out and clear the queued reply blobs for the child's queries.
    fn take_pending_responses(&mut self) -> (r: Vec<Vec<u8>>)
        requires
            old(self).inv(),
        ensures
            final(self).inv(),
    ;

    /// The recorded unrecognized sequences, oldest first.
    fn get_debug_entries(&self) -> Vec<UnhandledSequence>
        requires
            self.inv(),
    ;

    /// Clear the diagnostics ring.
    fn clear_debug_buffer(&mut self)
        requires
            old(self).inv(),
        ensures
            final(self).inv(),
    ;

    /// How many diagnostics entries were dropped for capacity.
    fn get_debug_dropped(&self) -> usize
        requires
            self.inv(),
    ;
}

impl TerminalEmulator for Screen {
    open spec fn inv(&self) -> bool {
        wf(self@)
    }

    fn process_bytes(&mut self, bytes: &[u8]) {
        Screen::process_bytes(self, bytes)
    }

    fn get_screen_content(&self) -> String {
        Screen::get_screen_content(self)
    }

    fn get_screen_content_ansi(&self) -> String {
        Screen::get_screen_content_ansi(self)
    }

    fn cursor_position(&self) -> (usize, usize) {
        Screen::cursor_position(self)
    }

    fn dimensions(&self) -> (r: (usize, usize)) {
        Screen::dimensions(self)
    }

    fn resize(&mut self, rows: usize, cols: usize) {
        Screen::resize(self, rows, cols)
    }

    fn take_pending_responses(&mut self) -> Vec<Vec<u8>> {
        Screen::take_pending_responses(self)
    }

    fn get_debug_entries(&self) -> Vec<UnhandledSequence> {
        Screen::get_debug_entries(self)
    }

    fn clear_debug_buffer(&mut self) {
        Screen::clear_debug_buffer(self)
    }

    fn get_debug_dropped(&self) -> usize {
        Screen::get_debug_dropped(self)
    }
}

} // verus!
