//! A verified terminal-emulation library for driving full-screen programs
//! under a pseudo-terminal.
//!
//! The library holds the session daemon's logic: a VT/ANSI terminal emulator
//! (cell grid, cursor with delayed wrap, attribute pen, query replies), the
//! session state with its activity and shutdown flags, the request handlers
//! of the local-socket protocol, and the client-side text helpers.  All I/O
//! (PTY, sockets, process control) lives outside, in the accompanying
//! application crate, which hands this library plain values.

pub mod cell;
pub mod debug;
pub mod emulator;
pub mod grid;
pub mod laws;
pub mod overlay;
pub mod render;
pub mod screen;
pub mod session;
pub mod text;
pub mod wire;

pub use cell::{Attrs, Cell, Color, Pen};
pub use debug::{DebugBuffer, UnhandledSequence};
pub use emulator::TerminalEmulator;
pub use overlay::apply_cursor_inverse;
pub use render::{build_sgr_sequence, color_to_ansi, named_color_to_ansi, trim_end_preserve_ansi};
pub use screen::Screen;
pub use session::{
    ChildStatus, DebugReply, OutputFormat, OutputReply, Session, StatusReply, StopReply, WaitPoll,
};
pub use wire::{parse_signal, parse_terminal_size, unescape, SignalError, SizeError, UnescapeError};
