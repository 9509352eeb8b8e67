//! The process supervisor's decision core: a one-shot kill latch and the
//! liveness monitor that polls the child, honours kill requests, and emits
//! exactly one terminal event when the process goes away.
use vstd::prelude::*;

use crate::events::CommandEvent;
use crate::events::TerminatedPayload;
use crate::events::is_terminal_event;

verus! {

/// The handle to a running child process, holding its one-shot kill latch.
/// The latch models a kill-request channel of capacity one: the first
/// request is recorded, later requests change nothing, and every request
/// reports success.
#[derive(Clone, Debug)]
pub struct CommandChild {
    kill_requested: bool,
}

/// The state of a kill latch after a kill request: the pending flag is set,
/// whatever it was before (see `lemma_killed_pending`).
pub closed spec fn killed(c: CommandChild) -> CommandChild {
    CommandChild { kill_requested: true }
}

/// A kill request always leaves exactly one pending request recorded.
pub proof fn lemma_killed_pending(c: CommandChild)
    ensures
        killed(c).kill_pending(),
{
}

impl CommandChild {
    /// Whether a kill has been requested on this handle.
    pub closed spec fn kill_pending(&self) -> bool {
        self.kill_requested
    }

    /// A fresh handle with no kill requested.
    pub fn new() -> (r: Self)
        ensures
            !r.kill_pending(),
    {
        CommandChild { kill_requested: false }
    }

    /// Requests that the process be killed. Fire-and-forget and idempotent:
    /// at most one pending request is recorded, and the call reports
    /// success even when a request is already pending.
    pub fn kill(&mut self) -> (r: Result<(), String>)
        ensures
            r is Ok,
            *final(self) == killed(*old(self)),
            final(self).kill_pending(),
    {
        self.kill_requested = true;
        Ok(())
    }

    /// Consumes the latch for the monitor's step: reports whether a kill is
    /// pending and clears the request, so each request is honoured at most
    /// once.
    pub fn take_kill_request(&mut self) -> (r: bool)
        ensures
            r == old(self).kill_pending(),
            !final(self).kill_pending(),
    {
        let r = self.kill_requested;
        self.kill_requested = false;
        r
    }
}

/// Law: killing a handle twice leaves it in the same state as killing it
/// once — the latch records at most one pending request.
pub proof fn lemma_kill_idempotent(c: CommandChild)
    ensures
        killed(killed(c)) == killed(c),
{
}

/// One observation of the child's liveness, as returned by a non-blocking
/// wait.
#[derive(Clone, Debug)]
pub enum WaitPoll {
    StillRunning,
    Exited(TerminatedPayload),
    WaitFailed(String),
}

/// What the supervising task must do after one poll of the child.
#[derive(Clone, Debug)]
pub enum MonitorStep {
    /// Forward this event into the stream and stop supervising.
    Emit(CommandEvent),
    /// Issue a forceful terminate to the process group, then keep polling.
    Kill,
    /// Sleep for the polling interval, then poll again.
    Idle,
}

/// The supervising task's state: set once the terminal event has been
/// emitted, after which no further events may be produced.
pub struct ProcessMonitor {
    finished: bool,
}

impl ProcessMonitor {
    /// Whether the terminal event has been emitted.
    pub closed spec fn finished(&self) -> bool {
        self.finished
    }

    /// A monitor for a freshly spawned process.
    pub fn new() -> (r: Self)
        ensures
            !r.finished(),
    {
        ProcessMonitor { finished: false }
    }

    /// Decides the supervising task's next action from one liveness poll
    /// and the state of the kill latch. Emits the terminal event exactly
    /// when the process is observed to be gone; a pending kill request
    /// turns into one forceful terminate.
    pub fn poll_step(&mut self, poll: WaitPoll, kill_pending: bool) -> (a: MonitorStep)
        requires
            !old(self).finished(),
        ensures
            match poll {
                WaitPoll::StillRunning => !final(self).finished() && a == if kill_pending {
                    MonitorStep::Kill
                } else {
                    MonitorStep::Idle
                },
                WaitPoll::Exited(p) => final(self).finished() && a == MonitorStep::Emit(
                    CommandEvent::Terminated(p),
                ),
                WaitPoll::WaitFailed(e) => final(self).finished() && a == MonitorStep::Emit(
                    CommandEvent::Error(e),
                ),
            },
    {
        match poll {
            WaitPoll::StillRunning => {
                if kill_pending {
                    MonitorStep::Kill
                } else {
                    MonitorStep::Idle
                }
            },
            WaitPoll::Exited(p) => {
                self.finished = true;
                MonitorStep::Emit(CommandEvent::Terminated(p))
            },
            WaitPoll::WaitFailed(e) => {
                self.finished = true;
                MonitorStep::Emit(CommandEvent::Error(e))
            },
        }
    }
}

/// The events a monitor emits over a whole sequence of liveness polls,
/// stopping at the first poll that observes the process gone.
pub open spec fn monitor_events(polls: Seq<WaitPoll>) -> Seq<CommandEvent>
    decreases polls.len(),
{
    if polls.len() == 0 {
        Seq::empty()
    } else {
        match polls[0] {
            WaitPoll::StillRunning => monitor_events(polls.drop_first()),
            WaitPoll::Exited(p) => seq![CommandEvent::Terminated(p)],
            WaitPoll::WaitFailed(e) => seq![CommandEvent::Error(e)],
        }
    }
}

/// Law: over any process lifetime, the supervising task emits at most one
/// event; that event is terminal; and it is emitted exactly when some poll
/// observes the process gone. Together with the per-step contract of
/// `poll_step` (no emission before termination, none after `finished`),
/// the stream carries exactly one `Terminated` event as its final item.
pub proof fn lemma_monitor_single_terminal(polls: Seq<WaitPoll>)
    ensures
        monitor_events(polls).len() <= 1,
        monitor_events(polls).len() == 1 ==> is_terminal_event(monitor_events(polls)[0]),
        monitor_events(polls).len() == 1 <==> (exists|i: int|
            0 <= i < polls.len() && !(#[trigger] polls[i] is StillRunning)),
    decreases polls.len(),
{
    if polls.len() > 0 {
        lemma_monitor_single_terminal(polls.drop_first());
        match polls[0] {
            WaitPoll::StillRunning => {
                if exists|i: int|
                    0 <= i < polls.len() && !(#[trigger] polls[i] is StillRunning) {
                    let i = choose|i: int|
                        0 <= i < polls.len() && !(#[trigger] polls[i] is StillRunning);
                    assert(polls.drop_first()[i - 1] == polls[i]);
                }
                if exists|i: int|
                    0 <= i < polls.drop_first().len() && !(#[trigger] polls.drop_first()[i]
                        is StillRunning) {
                    let i = choose|i: int|
                        0 <= i < polls.drop_first().len() && !(#[trigger] polls.drop_first()[i]
                            is StillRunning);
                    assert(polls[i + 1] == polls.drop_first()[i]);
                }
            },
            WaitPoll::Exited(p) => {
                assert(!(polls[0] is StillRunning));
            },
            WaitPoll::WaitFailed(e) => {
                assert(!(polls[0] is StillRunning));
            },
        }
    }
}

/// Law: a complete stream — the line events the readers forwarded, in
/// order, followed by what the monitor emitted — is well formed: its one
/// terminal event stands at the end, with nothing after it.
pub proof fn lemma_stream_well_formed(lines: Seq<CommandEvent>, polls: Seq<WaitPoll>)
    requires
        forall|i: int| 0 <= i < lines.len() ==> !is_terminal_event(#[trigger] lines[i]),
        exists|i: int| 0 <= i < polls.len() && !(#[trigger] polls[i] is StillRunning),
    ensures
        crate::events::wf_event_stream(lines + monitor_events(polls)),
{
    lemma_monitor_single_terminal(polls);
    let s = lines + monitor_events(polls);
    assert forall|i: int|
        0 <= i < s.len() implies (is_terminal_event(#[trigger] s[i]) <==> i == s.len()
        - 1) by {
        if i < lines.len() {
            assert(s[i] == lines[i]);
        } else {
            assert(s[i] == monitor_events(polls)[0]);
        }
    }
}

} // verus!
