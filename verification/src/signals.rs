//! Broadcast state shared between the orchestrator and its observers: the
//! monotonic initialization step, the memoized terminal server result that
//! every waiter observes identically, and a one-shot completion signal.
use vstd::prelude::*;

verus! {

/// The externally observable initialization phase, ordered
/// `ServerWaiting < SqliteWaiting < Done`.
#[derive(Clone, Copy, Debug, PartialEq, Eq, Structural)]
pub enum InitStep {
    ServerWaiting,
    SqliteWaiting,
    Done,
}

/// The position of a step in the initialization order.
pub open spec fn step_index(s: InitStep) -> int {
    match s {
        InitStep::ServerWaiting => 0,
        InitStep::SqliteWaiting => 1,
        InitStep::Done => 2,
    }
}

/// The data published once the server is ready: its URL and, for a spawned
/// server, the per-launch password.
#[derive(Clone, Debug, PartialEq, Eq)]
pub struct ServerReadyData {
    pub url: String,
    pub password: Option<String>,
}

impl ServerReadyData {
    /// An equal copy of the value, handed to each waiter.
    pub fn duplicate(&self) -> (r: Self)
        ensures
            r == *self,
    {
        ServerReadyData {
            url: self.url.clone(),
            password: match &self.password {
                Some(p) => Some(p.clone()),
                None => None,
            },
        }
    }
}

/// How one published step combines with the current one: the channel only
/// ever moves forward, so an earlier step is never re-emitted.
pub open spec fn step_advanced(cur: InitStep, step: InitStep) -> InitStep {
    if step_index(step) >= step_index(cur) {
        step
    } else {
        cur
    }
}

/// The single-writer, multi-reader broadcast of the current `InitStep`.
/// Subscribers joining at any point observe the current step immediately
/// and then every later transition; the held step is monotonic.
pub struct StepChannel {
    current: InitStep,
}

impl StepChannel {
    /// The step a subscriber joining now would observe first.
    pub closed spec fn current_step(&self) -> InitStep {
        self.current
    }

    /// A fresh broadcast, starting at `ServerWaiting`.
    pub fn new() -> (r: Self)
        ensures
            r.current_step() == InitStep::ServerWaiting,
    {
        StepChannel { current: InitStep::ServerWaiting }
    }

    /// Publishes a step. A step earlier than the current one is ignored,
    /// which keeps the observed sequence monotonic.
    pub fn advance(&mut self, step: InitStep)
        ensures
            final(self).current_step() == step_advanced(old(self).current_step(), step),
            step_index(final(self).current_step()) >= step_index(old(self).current_step()),
    {
        let go = match (self.current, step) {
            (InitStep::ServerWaiting, _) => true,
            (InitStep::SqliteWaiting, InitStep::ServerWaiting) => false,
            (InitStep::SqliteWaiting, _) => true,
            (InitStep::Done, InitStep::Done) => true,
            (InitStep::Done, _) => false,
        };
        if go {
            self.current = step;
        }
    }

    /// What a subscriber observes on joining: the current step, however
    /// late the subscription happens.
    pub fn subscribe(&self) -> (r: InitStep)
        ensures
            r == self.current_step(),
    {
        self.current
    }
}

/// Whether a step subscriber keeps listening after observing `step`: it
/// unsubscribes itself once `Done` has been seen.
pub fn subscriber_continues(step: InitStep) -> (r: bool)
    ensures
        r == (step != InitStep::Done),
{
    match step {
        InitStep::Done => false,
        _ => true,
    }
}

/// Law: a subscriber joining after the whole step sequence has already
/// been published immediately observes `Done` — and nothing else, since a
/// channel at `Done` never moves back.
pub proof fn lemma_late_subscriber_catch_up(c: StepChannel)
    requires
        c.current_step() == InitStep::ServerWaiting,
    ensures
        step_advanced(
            step_advanced(
                step_advanced(c.current_step(), InitStep::ServerWaiting),
                InitStep::SqliteWaiting,
            ),
            InitStep::Done,
        ) == InitStep::Done,
        forall|s: InitStep| step_advanced(InitStep::Done, s) == InitStep::Done,
{
}

/// Law: the step a channel holds never moves backwards, whatever is
/// published.
pub proof fn lemma_step_monotonic(cur: InitStep, step: InitStep)
    ensures
        step_index(step_advanced(cur, step)) >= step_index(cur),
{
}

/// The memoized terminal result: computed at most once, then observed
/// identically by every waiter.
pub struct SharedStatus {
    started: bool,
    result: Option<Result<ServerReadyData, String>>,
}

/// The state after a waiter has claimed the underlying work.
pub closed spec fn work_claimed(s: SharedStatus) -> SharedStatus {
    SharedStatus { started: true, ..s }
}

/// The state after a result has been offered: the first offer is kept,
/// later offers change nothing.
pub closed spec fn status_published(s: SharedStatus, res: Result<ServerReadyData, String>) -> SharedStatus {
    if s.result is Some {
        s
    } else {
        SharedStatus { result: Some(res), ..s }
    }
}

impl SharedStatus {
    /// Whether some waiter has already triggered the underlying work.
    pub closed spec fn work_started(&self) -> bool {
        self.started
    }

    /// The terminal result, once published.
    pub closed spec fn result_of(&self) -> Option<Result<ServerReadyData, String>> {
        self.result
    }

    /// A fresh shared result: no work started, nothing published.
    pub fn new() -> (r: Self)
        ensures
            !r.work_started(),
            r.result_of() is None,
    {
        SharedStatus { started: false, result: None }
    }

    /// Claims the underlying work. Only the first caller gets `true`; all
    /// later and concurrent callers join the same pending computation
    /// instead of re-triggering it.
    pub fn begin_work(&mut self) -> (r: bool)
        ensures
            r == !old(self).work_started(),
            *final(self) == work_claimed(*old(self)),
            final(self).work_started(),
            final(self).result_of() == old(self).result_of(),
    {
        let first = !self.started;
        self.started = true;
        first
    }

    /// Publishes the terminal result. The first computation wins: once a
    /// result is stored, further publications are ignored.
    pub fn publish(&mut self, res: Result<ServerReadyData, String>)
        ensures
            *final(self) == status_published(*old(self), res),
            old(self).result_of() is Some ==> final(self).result_of() == old(self).result_of(),
            old(self).result_of() is None ==> final(self).result_of() == Some(res),
            final(self).work_started() == old(self).work_started(),
    {
        if self.result.is_none() {
            self.result = Some(res);
        }
    }

    /// What any waiter observes: the memoized result, shared by all.
    pub fn peek(&self) -> (r: &Option<Result<ServerReadyData, String>>)
        ensures
            *r == self.result_of(),
    {
        &self.result
    }
}

/// Law: the terminal result is computed at most once — after any first
/// publication, every later publication leaves the stored result (and so
/// what every waiter observes) unchanged.
pub proof fn lemma_first_result_wins(
    s: SharedStatus,
    r1: Result<ServerReadyData, String>,
    r2: Result<ServerReadyData, String>,
)
    ensures
        status_published(status_published(s, r1), r2) == status_published(s, r1),
        s.result_of() is None ==> status_published(s, r1).result_of() == Some(r1),
{
}

/// Law: the underlying work is claimed at most once — claiming twice is
/// the same as claiming once, and only the first claim reports it.
pub proof fn lemma_work_claimed_once(s: SharedStatus)
    ensures
        work_claimed(work_claimed(s)) == work_claimed(s),
        work_claimed(s).work_started(),
{
}

/// A one-shot completion signal: one sender, any number of observers that
/// all see the same completion. Replaces a registered callback with manual
/// deregistration.
pub struct OnceSignal {
    fired: bool,
}

impl OnceSignal {
    /// Whether the signal has completed.
    pub closed spec fn is_fired(&self) -> bool {
        self.fired
    }

    /// A signal that has not fired yet.
    pub fn new() -> (r: Self)
        ensures
            !r.is_fired(),
    {
        OnceSignal { fired: false }
    }

    /// Completes the signal; firing again changes nothing.
    pub fn fire(&mut self)
        ensures
            final(self).is_fired(),
    {
        self.fired = true;
    }

    /// Observes whether completion has happened.
    pub fn observed(&self) -> (r: bool)
        ensures
            r == self.is_fired(),
    {
        self.fired
    }
}

} // verus!
