//! The session: the emulator together with the child's exit status, the
//! activity and shutdown flags, and the socket bookkeeping, plus the
//! request handlers of the local-socket protocol.
//!
//! Every handler is a pure decision from the session state and the
//! request's fields to a reply and a new state; all reading and writing of
//! the pseudo-terminal and of sockets stays with the caller, which hands
//! this module plain values.

use vstd::prelude::*;

use crate::debug::{DebugModel, UnhandledModel, UnhandledSequence};
use crate::grid::vv;
use crate::render::{spec_attr_render, spec_plain_render};
use crate::screen::{spec_feed, spec_new, spec_resize, wf, Screen, ScreenModel};

verus! {

/// The mathematical state of a session.
#[verifier::ext_equal]
pub struct SessionModel {
    pub screen: ScreenModel,
    pub exit_code: Option<i32>,
    pub activity: bool,
    pub shutdown: bool,
    pub socket_auto_generated: bool,
}

/// A session is well formed when its screen is.
pub open spec fn swf(m: SessionModel) -> bool {
    wf(m.screen)
}

/// What the child-status probe reported.
#[derive(Clone, Copy, PartialEq, Eq, Structural, Debug)]
pub enum ChildStatus {
    StillRunning,
    Exited(i32),
    Signaled(i32),
}

/// The exit code recorded for a probe result: the exit status as it is,
/// or 128 plus the signal number; once set, the code is final.
pub open spec fn spec_record(old_code: Option<i32>, st: ChildStatus) -> Option<i32> {
    if old_code is Some {
        old_code
    } else {
        match st {
            ChildStatus::StillRunning => None,
            ChildStatus::Exited(c) => Some(c),
            ChildStatus::Signaled(s) => Some((128 + s) as i32),
        }
    }
}

/// Consuming output bytes: the screen consumes them, its reply queue is
/// drained, and a non-empty chunk latches the activity flag.
pub open spec fn spec_ingest(m: SessionModel, bytes: Seq<u8>) -> SessionModel {
    SessionModel {
        screen: ScreenModel { replies: Seq::empty(), ..spec_feed(m.screen, bytes) },
        activity: m.activity || bytes.len() > 0,
        ..m
    }
}

/// Observing the status: when activity is asked for, the flag is read and
/// cleared; nothing else changes.
pub open spec fn spec_status_observe(m: SessionModel, want_activity: bool) -> SessionModel {
    if want_activity {
        SessionModel { activity: false, ..m }
    } else {
        m
    }
}

/// One evaluation of a blocked wait.
#[derive(Clone, Copy, PartialEq, Eq, Structural, Debug)]
pub enum WaitPoll {
    /// Nothing to report yet: the wait stays registered.
    Pending,
    /// The child has exited; the wait completes with the exit code.
    Exited { exit_code: i32 },
    /// Activity or exit has occurred; the wait completes with both facts.
    Activity { activity: bool, exited: bool },
}

/// The decision for one wait evaluation: waiting for exit completes
/// exactly when the exit code is recorded; waiting for activity completes
/// at the first evaluation where activity or exit has occurred.
pub open spec fn spec_wait_decision(m: SessionModel, want_activity: bool) -> WaitPoll {
    if want_activity {
        if m.activity || m.exit_code is Some {
            WaitPoll::Activity { activity: m.activity, exited: m.exit_code is Some }
        } else {
            WaitPoll::Pending
        }
    } else {
        match m.exit_code {
            Some(c) => WaitPoll::Exited { exit_code: c },
            None => WaitPoll::Pending,
        }
    }
}

/// What a completing activity wait does to the state: the reported flag is
/// cleared; an exit wait changes nothing.
pub open spec fn spec_wait_observe(m: SessionModel, want_activity: bool) -> SessionModel {
    if want_activity && (m.activity || m.exit_code is Some) {
        SessionModel { activity: false, ..m }
    } else {
        m
    }
}

/// The stop request: the shutdown flag is set; the child is signaled
/// exactly when it has not exited yet.
pub open spec fn spec_stop(m: SessionModel) -> SessionModel {
    SessionModel { shutdown: true, ..m }
}

/// The resize request applied to the session.
pub open spec fn spec_session_resize(m: SessionModel, cols: int, rows: int) -> SessionModel {
    SessionModel { screen: spec_resize(m.screen, rows, cols), ..m }
}

/// The reply to an output request.
pub struct OutputReply {
    pub screen: String,
    pub cursor_row: usize,
    pub cursor_col: usize,
    pub rows: usize,
    pub cols: usize,
}

/// The format of the screen string in an output reply.
#[derive(Clone, Copy, PartialEq, Eq, Structural, Debug)]
pub enum OutputFormat {
    Ascii,
    Ansi,
}

/// The reply to a status request.
pub struct StatusReply {
    pub running: bool,
    pub activity: Option<bool>,
    pub exit_code: Option<i32>,
}

/// The reply to a stop request.
pub struct StopReply {
    pub signal_child: bool,
}

/// The reply to a debug request.
pub struct DebugReply {
    pub entries: Vec<UnhandledSequence>,
    pub dropped: usize,
}

/// The session aggregate owned by the daemon.
pub struct Session {
    screen: Screen,
    exit_code: Option<i32>,
    activity: bool,
    shutdown: bool,
    socket_auto_generated: bool,
}

impl View for Session {
    type V = SessionModel;

    closed spec fn view(&self) -> SessionModel {
        SessionModel {
            screen: self.screen@,
            exit_code: self.exit_code,
            activity: self.activity,
            shutdown: self.shutdown,
            socket_auto_generated: self.socket_auto_generated,
        }
    }
}

impl Session {
    /// A fresh session around a fresh screen: no exit code, no activity,
    /// not shutting down.
    pub fn new(rows: u16, cols: u16, socket_auto_generated: bool) -> (r: Session)
        requires
            rows >= 1,
            cols >= 1,
        ensures
            r@ == (SessionModel {
                screen: spec_new(rows as int, cols as int, 10),
                exit_code: None::<i32>,
                activity: false,
                shutdown: false,
                socket_auto_generated,
            }),
            swf(r@),
    {
        let r = Session {
            screen: Screen::new(rows as usize, cols as usize),
            exit_code: None,
            activity: false,
            shutdown: false,
            socket_auto_generated,
        };
        proof {
            assert(r@ =~~= (SessionModel {
                screen: spec_new(rows as int, cols as int, 10),
                exit_code: None::<i32>,
                activity: false,
                shutdown: false,
                socket_auto_generated,
            }));
        }
        r
    }

    /// Whether the socket path was auto-generated and must be cleaned up
    /// on shutdown.
    pub fn socket_auto_generated(&self) -> (r: bool)
        ensures
            r == self@.socket_auto_generated,
    {
        self.socket_auto_generated
    }

    /// Whether a stop request has asked the daemon to exit.
    pub fn should_shutdown(&self) -> (r: bool)
        ensures
            r == self@.shutdown,
    {
        self.shutdown
    }

    /// The recorded exit code, if the child has been reaped.
    pub fn exit_code(&self) -> (r: Option<i32>)
        ensures
            r == self@.exit_code,
    {
        self.exit_code
    }

    /// Feed a chunk of child output: the emulator consumes it, a non-empty
    /// chunk latches the activity flag, and the emulator's queued reply
    /// blobs are handed back for writing to the pseudo-terminal.
    pub fn ingest(&mut self, bytes: &[u8]) -> (replies: Vec<Vec<u8>>)
        requires
            swf(old(self)@),
        ensures
            final(self)@ == spec_ingest(old(self)@, bytes@),
            vv(replies@) == spec_feed(old(self)@.screen, bytes@).replies,
            swf(final(self)@),
    {
        if bytes.len() > 0 {
            self.activity = true;
        }
        self.screen.process_bytes(bytes);
        let replies = self.screen.take_pending_responses();
        proof {
            assert(self@ =~~= spec_ingest(old(self)@, bytes@));
        }
        replies
    }

    /// Record the result of a non-blocking child-status probe.  The exit
    /// code, once set, is final; a signal termination is recorded as 128
    /// plus the signal number.
    pub fn record_child_status(&mut self, st: ChildStatus)
        requires
            swf(old(self)@),
            st matches ChildStatus::Signaled(s) ==> 0 <= s < 128,
        ensures
            final(self)@ == (SessionModel {
                exit_code: spec_record(old(self)@.exit_code, st),
                ..old(self)@
            }),
            swf(final(self)@),
    {
        if self.exit_code.is_none() {
            match st {
                ChildStatus::StillRunning => {},
                ChildStatus::Exited(c) => {
                    self.exit_code = Some(c);
                },
                ChildStatus::Signaled(s) => {
                    self.exit_code = Some(128 + s);
                },
            }
        }
        proof {
            assert(self@ =~~= (SessionModel {
                exit_code: spec_record(old(self)@.exit_code, st),
                ..old(self)@
            }));
        }
    }

    /// The reply to an output request: the screen in the asked-for format,
    /// the cursor zero-indexed, and the dimensions.
    pub fn handle_output(&self, format: OutputFormat) -> (r: OutputReply)
        requires
            swf(self@),
        ensures
            r.screen@ == (match format {
                OutputFormat::Ascii => spec_plain_render(self@.screen.grid),
                OutputFormat::Ansi => spec_attr_render(self@.screen.grid),
            }),
            r.cursor_row as int == self@.screen.cur_row,
            r.cursor_col as int == self@.screen.cur_col,
            r.rows as int == self@.screen.rows,
            r.cols as int == self@.screen.cols,
    {
        let screen_text = match format {
            OutputFormat::Ascii => self.screen.get_screen_content(),
            OutputFormat::Ansi => self.screen.get_screen_content_ansi(),
        };
        let (cr, cc) = self.screen.cursor_position();
        let (rows, cols) = self.screen.dimensions();
        OutputReply { screen: screen_text, cursor_row: cr, cursor_col: cc, rows, cols }
    }

    /// The reply to a status request: whether the child still runs and its
    /// exit code once it does not; the activity flag is reported and
    /// cleared exactly when asked for.
    pub fn handle_status(&mut self, want_activity: bool) -> (r: StatusReply)
        requires
            swf(old(self)@),
        ensures
            r.running == (old(self)@.exit_code is None),
            r.exit_code == old(self)@.exit_code,
            r.activity == (if want_activity {
                Some(old(self)@.activity)
            } else {
                None::<bool>
            }),
            final(self)@ == spec_status_observe(old(self)@, want_activity),
            swf(final(self)@),
    {
        let running = self.exit_code.is_none();
        let activity = if want_activity {
            let a = self.activity;
            self.activity = false;
            Some(a)
        } else {
            None
        };
        proof {
            assert(self@ =~~= spec_status_observe(old(self)@, want_activity));
        }
        StatusReply { running, activity, exit_code: self.exit_code }
    }

    /// One evaluation of a registered wait: the decision, and the flag
    /// cleared when a completing activity wait reports it.  A wait
    /// completes the moment the child's exit is recorded.
    pub fn wait_poll(&mut self, want_activity: bool) -> (r: WaitPoll)
        requires
            swf(old(self)@),
        ensures
            r == spec_wait_decision(old(self)@, want_activity),
            final(self)@ == spec_wait_observe(old(self)@, want_activity),
            old(self)@.exit_code is Some ==> !(r is Pending),
            swf(final(self)@),
    {
        if want_activity {
            if self.activity || self.exit_code.is_some() {
                let a = self.activity;
                self.activity = false;
                let r = WaitPoll::Activity { activity: a, exited: self.exit_code.is_some() };
                proof {
                    assert(self@ =~~= spec_wait_observe(old(self)@, want_activity));
                }
                r
            } else {
                proof {
                    assert(self@ =~~= spec_wait_observe(old(self)@, want_activity));
                }
                WaitPoll::Pending
            }
        } else {
            proof {
                assert(self@ =~~= spec_wait_observe(old(self)@, want_activity));
            }
            match self.exit_code {
                Some(c) => WaitPoll::Exited { exit_code: c },
                None => WaitPoll::Pending,
            }
        }
    }

    /// The stop request: sets the shutdown flag; the reply says whether
    /// the caller must still send the termination signal to the child.
    pub fn handle_stop(&mut self) -> (r: StopReply)
        requires
            swf(old(self)@),
        ensures
            r.signal_child == (old(self)@.exit_code is None),
            final(self)@ == spec_stop(old(self)@),
            swf(final(self)@),
    {
        let signal_child = self.exit_code.is_none();
        self.shutdown = true;
        proof {
            assert(self@ =~~= spec_stop(old(self)@));
        }
        StopReply { signal_child }
    }

    /// The resize request applied to the emulator, after the caller has
    /// advertised the same dimensions to the kernel, so that the grid and
    /// the advertised window size move together.
    pub fn handle_resize(&mut self, cols: u16, rows: u16)
        requires
            swf(old(self)@),
            cols >= 1,
            rows >= 1,
        ensures
            final(self)@ == spec_session_resize(old(self)@, cols as int, rows as int),
            swf(final(self)@),
    {
        self.screen.resize(rows as usize, cols as usize);
        proof {
            assert(self@ =~~= spec_session_resize(old(self)@, cols as int, rows as int));
        }
    }

    /// The debug request: the recorded unrecognized sequences and the
    /// dropped count; with `clear`, the ring is emptied afterwards.
    pub fn handle_debug(&mut self, clear: bool) -> (r: DebugReply)
        requires
            swf(old(self)@),
        ensures
            r.entries@.len() == old(self)@.screen.debug.entries.len(),
            forall|i: int|
                0 <= i < r.entries@.len() ==> (#[trigger] r.entries@[i])@
                    == old(self)@.screen.debug.entries[i],
            r.dropped as nat == old(self)@.screen.debug.dropped,
            final(self)@ == (if clear {
                SessionModel {
                    screen: ScreenModel {
                        debug: DebugModel {
                            entries: Seq::<UnhandledModel>::empty(),
                            dropped: 0,
                            capacity: old(self)@.screen.debug.capacity,
                        },
                        ..old(self)@.screen
                    },
                    ..old(self)@
                }
            } else {
                old(self)@
            }),
            swf(final(self)@),
    {
        let entries = self.screen.get_debug_entries();
        let dropped = self.screen.get_debug_dropped();
        if clear {
            self.screen.clear_debug_buffer();
        }
        proof {
            if clear {
                assert(self@ =~~= (SessionModel {
                    screen: ScreenModel {
                        debug: DebugModel {
                            entries: Seq::<UnhandledModel>::empty(),
                            dropped: 0,
                            capacity: old(self)@.screen.debug.capacity,
                        },
                        ..old(self)@.screen
                    },
                    ..old(self)@
                }));
            } else {
                assert(self@ =~~= old(self)@);
            }
        }
        DebugReply { entries, dropped }
    }
}

/// Activity is monotone between observations: the flag is latched only by
/// a non-empty read, so once an observation has returned false, every
/// later observation returns false as well until a non-empty read occurs.
/// No other request sets the flag.
pub proof fn lemma_activity_monotone(
    m: SessionModel,
    bytes: Seq<u8>,
    want: bool,
    st: ChildStatus,
    cols: int,
    rows: int,
)
    requires
        m.activity == false,
        bytes.len() == 0,
    ensures
        spec_ingest(m, bytes).activity == false,
        spec_status_observe(m, want).activity == false,
        spec_wait_observe(m, want).activity == false,
        spec_stop(m).activity == false,
        (SessionModel { exit_code: spec_record(m.exit_code, st), ..m }).activity == false,
        spec_session_resize(m, cols, rows).activity == false,
{
}

/// Wait liveness: the moment the child's exit code is recorded, every
/// wait evaluation completes, whichever kind it is; registered waits are
/// re-evaluated on every tick, so each completes at the next tick after
/// the exit.
pub proof fn lemma_wait_completes_on_exit(m: SessionModel, want: bool)
    requires
        m.exit_code is Some,
    ensures
        !(spec_wait_decision(m, want) is Pending),
        !want ==> spec_wait_decision(m, want) == (WaitPoll::Exited {
            exit_code: m.exit_code->Some_0,
        }),
{
}

/// Wait cancellation safety: every decision and every handler's effect is
/// a function of the session state alone, and a waiter that disconnects
/// makes no call into the session, so dropping it leaves every subsequent
/// request with exactly the same outcome.
pub proof fn lemma_wait_cancellation_safe(m1: SessionModel, m2: SessionModel, want: bool)
    requires
        m1 == m2,
    ensures
        spec_wait_decision(m1, want) == spec_wait_decision(m2, want),
        spec_wait_observe(m1, want) == spec_wait_observe(m2, want),
        spec_status_observe(m1, want) == spec_status_observe(m2, want),
{
}

} // verus!
