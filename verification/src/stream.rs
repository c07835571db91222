//! The controller of a streamed run. The caller does the outside work
//! that a phase asks for and hands back what happened; the controller
//! decides what comes next.
//!
//! One round goes through four phases: look for the cancel key, take the
//! lines that are ready, see whether the child has exited, wait a moment
//! for one more line. A cancelled or an exited run drains the lines that
//! are left and is then finished.

use crate::app::{line_added, AppState};
use crate::input::{Key, KeyCode};
use crate::run::{ticked, RunOutcome, INTERRUPTED_EXIT_CODE};
use crate::session::{ChatLineKind, MAX_CHAT_LINES};
use crate::text::{chars_of, string_of, strip_end, strip_end_chars, CharClass};
use vstd::prelude::*;

verus! {

/// Where the controller stands, and with it what the caller does next.
#[derive(Clone, Copy, Debug, PartialEq, Eq)]
pub enum StreamPhase {
    /// Poll the keyboard without waiting; answer with `Cancel`.
    CheckCancel,
    /// Take a line from the queue without waiting; answer with `Line` or `QueueEmpty`.
    DrainReady,
    /// Ask whether the child has exited; answer with `Exited` or `Running`.
    CheckChild,
    /// Wait a moment for a line; answer with `Line`, `Timeout` or `Disconnected`.
    AwaitLine,
    /// Take the lines that are left, each with a short wait; answer with
    /// `Line` or `QueueEmpty`.
    DrainRest { exit_code: i32, interrupted: bool },
    /// The run is over.
    Finished { exit_code: i32, interrupted: bool },
}

/// What the outside work brought.
#[derive(Clone, Debug)]
pub enum StreamEvent {
    /// Whether the cancel key was pressed.
    Cancel(bool),
    /// One line of the child's output.
    Line(ChatLineKind, String),
    /// No line is waiting, or the queue is closed.
    QueueEmpty,
    /// The child has exited, with its code where it has one.
    Exited(Option<i32>),
    /// The child is still running.
    Running,
    /// No line came in time.
    Timeout,
    /// Both readers are gone.
    Disconnected,
}

/// What the caller has to do besides going on with the next phase.
#[derive(Clone, Copy, Debug, PartialEq, Eq)]
pub struct StreamEffect {
    /// Terminate the child at once and wait for it.
    pub kill_child: bool,
    /// Draw the interface again.
    pub redraw: bool,
}

/// The exit code of a child: 0 where it has none.
pub open spec fn code_or_zero(code: Option<i32>) -> i32 {
    match code {
        Some(c) => c,
        None => 0,
    }
}

/// The phase after an event. An event that the phase did not ask for
/// changes nothing.
pub open spec fn next_phase(phase: StreamPhase, event: StreamEvent) -> StreamPhase {
    match (phase, event) {
        (StreamPhase::CheckCancel, StreamEvent::Cancel(pressed)) => if pressed {
            StreamPhase::DrainRest { exit_code: INTERRUPTED_EXIT_CODE, interrupted: true }
        } else {
            StreamPhase::DrainReady
        },
        (StreamPhase::DrainReady, StreamEvent::Line(_, _)) => StreamPhase::DrainReady,
        (StreamPhase::DrainReady, StreamEvent::QueueEmpty) => StreamPhase::CheckChild,
        (StreamPhase::CheckChild, StreamEvent::Exited(code)) => StreamPhase::DrainRest {
            exit_code: code_or_zero(code),
            interrupted: false,
        },
        (StreamPhase::CheckChild, StreamEvent::Running) => StreamPhase::AwaitLine,
        (StreamPhase::AwaitLine, StreamEvent::Line(_, _)) => StreamPhase::CheckCancel,
        (StreamPhase::AwaitLine, StreamEvent::Timeout) => StreamPhase::CheckCancel,
        (StreamPhase::AwaitLine, StreamEvent::Disconnected) => StreamPhase::CheckCancel,
        (StreamPhase::DrainRest { exit_code, interrupted }, StreamEvent::Line(_, _)) => phase,
        (
            StreamPhase::DrainRest { exit_code, interrupted },
            StreamEvent::QueueEmpty,
        ) => StreamPhase::Finished { exit_code, interrupted },
        _ => phase,
    }
}

/// Whether the event is a line that goes into the session log.
pub open spec fn appends(phase: StreamPhase, event: StreamEvent) -> bool {
    event is Line && (phase is DrainReady || phase is AwaitLine || phase is DrainRest)
}

/// Whether the loading indicator moves on and the interface is drawn again.
pub open spec fn redraws(phase: StreamPhase, event: StreamEvent) -> bool {
    match (phase, event) {
        (StreamPhase::DrainReady, StreamEvent::Line(_, _)) => true,
        (StreamPhase::AwaitLine, StreamEvent::Line(_, _)) => true,
        (StreamPhase::AwaitLine, StreamEvent::Timeout) => true,
        (StreamPhase::DrainRest { exit_code, interrupted }, StreamEvent::QueueEmpty) => true,
        _ => false,
    }
}

/// Whether the child is to be terminated: when the cancel key was pressed.
pub open spec fn kills(phase: StreamPhase, event: StreamEvent) -> bool {
    phase is CheckCancel && event == StreamEvent::Cancel(true)
}

/// The state after an event: a line that is taken goes into the session
/// log, and the loading indicator moves on where the interface is drawn again.
pub open spec fn stream_stepped(pre: AppState, phase: StreamPhase, event: StreamEvent, post: AppState) -> bool {
    let base = if redraws(phase, event) {
        ticked(pre)
    } else {
        pre
    };
    if appends(phase, event) {
        line_added(base, event->Line_0, event->Line_1@, post)
    } else {
        post == base
    }
}

/// Takes one event of a streamed run.
pub fn stream_step(app: &mut AppState, phase: StreamPhase, event: StreamEvent) -> (r: (
    StreamPhase,
    StreamEffect,
))
    ensures
        r.0 == next_phase(phase, event),
        r.1.kill_child == kills(phase, event),
        r.1.redraw == redraws(phase, event),
        stream_stepped(*old(app), phase, event, *final(app)),
        old(app).chat@.len() <= MAX_CHAT_LINES ==> final(app).chat@.len() <= MAX_CHAT_LINES,
{
    let quiet = StreamEffect { kill_child: false, redraw: false };
    let drawn = StreamEffect { kill_child: false, redraw: true };
    match phase {
        StreamPhase::CheckCancel => match event {
            StreamEvent::Cancel(pressed) => {
                if pressed {
                    (
                        StreamPhase::DrainRest {
                            exit_code: INTERRUPTED_EXIT_CODE,
                            interrupted: true,
                        },
                        StreamEffect { kill_child: true, redraw: false },
                    )
                } else {
                    (StreamPhase::DrainReady, quiet)
                }
            },
            _ => (phase, quiet),
        },
        StreamPhase::DrainReady => match event {
            StreamEvent::Line(kind, text) => {
                app.tick_loading();
                app.push_line(kind, text);
                (StreamPhase::DrainReady, drawn)
            },
            StreamEvent::QueueEmpty => (StreamPhase::CheckChild, quiet),
            _ => (phase, quiet),
        },
        StreamPhase::CheckChild => match event {
            StreamEvent::Exited(code) => {
                let exit_code = match code {
                    Some(c) => c,
                    None => 0,
                };
                (StreamPhase::DrainRest { exit_code, interrupted: false }, quiet)
            },
            StreamEvent::Running => (StreamPhase::AwaitLine, quiet),
            _ => (phase, quiet),
        },
        StreamPhase::AwaitLine => match event {
            StreamEvent::Line(kind, text) => {
                app.tick_loading();
                app.push_line(kind, text);
                (StreamPhase::CheckCancel, drawn)
            },
            StreamEvent::Timeout => {
                app.tick_loading();
                (StreamPhase::CheckCancel, drawn)
            },
            StreamEvent::Disconnected => (StreamPhase::CheckCancel, quiet),
            _ => (phase, quiet),
        },
        StreamPhase::DrainRest { exit_code, interrupted } => match event {
            StreamEvent::Line(kind, text) => {
                app.push_line(kind, text);
                (phase, quiet)
            },
            StreamEvent::QueueEmpty => {
                app.tick_loading();
                (StreamPhase::Finished { exit_code, interrupted }, drawn)
            },
            _ => (phase, quiet),
        },
        StreamPhase::Finished { exit_code, interrupted } => (phase, quiet),
    }
}

/// Whether a key interrupts a streamed run: Escape does, with any modifiers.
pub fn is_interrupt_key(key: Key) -> (r: bool)
    ensures
        r == (key.code is Esc),
{
    match key.code {
        KeyCode::Esc => true,
        _ => false,
    }
}

/// How a finished run ended; `None` while the run is not finished.
pub open spec fn outcome_of(phase: StreamPhase) -> Option<RunOutcome> {
    match phase {
        StreamPhase::Finished { exit_code, interrupted } => if interrupted {
            Some(RunOutcome::Interrupted)
        } else {
            Some(RunOutcome::Exited(exit_code))
        },
        _ => None,
    }
}

/// How a finished run ended.
pub fn stream_outcome(phase: StreamPhase) -> (r: Option<RunOutcome>)
    ensures
        r == outcome_of(phase),
{
    match phase {
        StreamPhase::Finished { exit_code, interrupted } => if interrupted {
            Some(RunOutcome::Interrupted)
        } else {
            Some(RunOutcome::Exited(exit_code))
        },
        _ => None,
    }
}

/// A line as a reader hands it on: without the line feeds and carriage
/// returns at its end.
pub fn strip_line_ending(line: &str) -> (out: String)
    ensures
        out@ == strip_end(line@, CharClass::LineBreak),
{
    let chars = chars_of(line);
    let kept = strip_end_chars(&chars, CharClass::LineBreak);
    string_of(&kept)
}

/// An interrupt ends the run with the exit code that stands for it: the
/// cancel key leads to the last drain, the child is terminated, and the
/// empty queue then finishes the run as interrupted.
pub proof fn lemma_interrupt_finishes()
    ensures
        next_phase(StreamPhase::CheckCancel, StreamEvent::Cancel(true)) == (StreamPhase::DrainRest {
            exit_code: INTERRUPTED_EXIT_CODE,
            interrupted: true,
        }),
        kills(StreamPhase::CheckCancel, StreamEvent::Cancel(true)),
        next_phase(
            StreamPhase::DrainRest { exit_code: INTERRUPTED_EXIT_CODE, interrupted: true },
            StreamEvent::QueueEmpty,
        ) == (StreamPhase::Finished { exit_code: INTERRUPTED_EXIT_CODE, interrupted: true }),
        outcome_of(StreamPhase::Finished { exit_code: INTERRUPTED_EXIT_CODE, interrupted: true })
            == Some(RunOutcome::Interrupted),
        INTERRUPTED_EXIT_CODE == 130,
{
}

/// Once a run is finished no event changes the state: no line is appended
/// after the drain, and the run stays finished as it was.
pub proof fn lemma_finished_is_final(
    pre: AppState,
    exit_code: i32,
    interrupted: bool,
    event: StreamEvent,
    post: AppState,
)
    requires
        stream_stepped(pre, StreamPhase::Finished { exit_code, interrupted }, event, post),
    ensures
        post == pre,
        next_phase(StreamPhase::Finished { exit_code, interrupted }, event) == (StreamPhase::Finished {
            exit_code,
            interrupted,
        }),
{
}

/// While the lines that are left are drained, only lines change the
/// state, and what the run ends with stays as it was decided.
pub proof fn lemma_drain_keeps_result(exit_code: i32, interrupted: bool, event: StreamEvent)
    ensures
        match next_phase(StreamPhase::DrainRest { exit_code, interrupted }, event) {
            StreamPhase::DrainRest { exit_code: e, interrupted: i } => e == exit_code && i
                == interrupted,
            StreamPhase::Finished { exit_code: e, interrupted: i } => e == exit_code && i
                == interrupted && event is QueueEmpty,
            _ => false,
        },
{
}

} // verus!
