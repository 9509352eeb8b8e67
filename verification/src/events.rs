//! The event vocabulary of a supervised sidecar process: line events from
//! its two output streams, a spawn-failure event, and the single terminal
//! event carrying the exit status.
use vstd::prelude::*;

verus! {

/// The exit status reported when a supervised process terminates.
#[derive(Clone, Copy, Debug, PartialEq, Eq)]
pub struct TerminatedPayload {
    pub code: Option<i32>,
    pub signal: Option<i32>,
}

/// One event of a supervised process's multiplexed output stream.
#[derive(Clone, Debug, PartialEq, Eq)]
pub enum CommandEvent {
    Stdout(Vec<u8>),
    Stderr(Vec<u8>),
    Error(String),
    Terminated(TerminatedPayload),
}

/// Progress of the sidecar's one-time data-store migration, extracted from
/// specially prefixed stdout lines.
#[derive(Clone, Copy, Debug, PartialEq, Eq, Structural)]
pub enum SqliteMigrationProgress {
    InProgress(u8),
    Done,
}

/// Whether an event ends the stream: the terminal exit event, or the
/// spawn-error event emitted in its place when waiting on the process
/// itself fails.
pub open spec fn is_terminal_event(e: CommandEvent) -> bool {
    e is Terminated || e is Error
}

/// A complete event stream is well formed when its last event, and only its
/// last event, is terminal.
pub open spec fn wf_event_stream(s: Seq<CommandEvent>) -> bool {
    s.len() > 0 && (forall|i: int|
        0 <= i < s.len() ==> (is_terminal_event(#[trigger] s[i]) <==> i == s.len() - 1))
}

} // verus!
