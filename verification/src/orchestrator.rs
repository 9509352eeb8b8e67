//! The initialization orchestrator: a state machine with a single writer
//! and arbitrarily many observers. It decides the server connection once,
//! gates the health-check clock behind a first-run migration, races the
//! health probe against process death under an overall timeout, kills the
//! process on failure, and publishes one memoized terminal result.
use vstd::prelude::*;
use vstd::string::*;

use crate::events::SqliteMigrationProgress;
use crate::resolver::ServerConnection;
use crate::signals::InitStep;
use crate::signals::ServerReadyData;
use crate::signals::SharedStatus;
use crate::signals::StepChannel;
use crate::signals::step_advanced;
use crate::text::contains_seq;

verus! {

/// The outcome of awaiting the health-check task under the overall
/// timeout.
#[derive(Clone, Debug)]
pub enum HealthAwait {
    /// The server answered a probe in time.
    Healthy,
    /// The health-check task finished with a failure of its own, such as
    /// the process dying first.
    Unhealthy(String),
    /// The health-check task itself failed to run to completion.
    TaskFailed(String),
    /// The overall timeout elapsed before any of the above.
    TimedOut,
}

/// The error text each health outcome contributes to the terminal failure,
/// if any.
pub open spec fn health_error_message(h: HealthAwait) -> Option<Seq<char>> {
    match h {
        HealthAwait::Healthy => Option::None,
        HealthAwait::Unhealthy(e) => Option::Some(e@),
        HealthAwait::TaskFailed(e) => Option::Some("Health check task failed: "@ + e@),
        HealthAwait::TimedOut => Option::Some("Health check timed out"@),
    }
}

/// The terminal failure text: the error, with the recent process log tail
/// attached for diagnostics.
pub open spec fn spawn_failure_message(err: Seq<char>, logs: Seq<char>) -> Seq<char> {
    "Failed to spawn OpenCode Server ("@ + err + "). Logs:\n"@ + logs
}

fn build_spawn_failure(err: &str, logs: &str) -> (r: String)
    ensures
        r@ == spawn_failure_message(err@, logs@),
{
    let mut out = String::new();
    out.append("Failed to spawn OpenCode Server (");
    out.append(err);
    out.append("). Logs:\n");
    out.append(logs);
    out
}

/// Where the orchestrator stands.
#[derive(Clone, Copy, Debug, PartialEq, Eq, Structural)]
pub enum OrchestratorPhase {
    /// Waiting for the connection resolver's decision.
    Resolving,
    /// A server was spawned on a first run: the migration must complete
    /// before the health-check clock may start.
    AwaitingMigration,
    /// The health check is running, racing process death under the overall
    /// timeout.
    AwaitingHealth,
    /// The terminal result is published.
    Complete,
}

/// What the orchestrator's runner must do after an event.
#[derive(Clone, Debug, PartialEq, Eq)]
pub enum OrchestratorAction {
    /// Nothing: keep waiting for further events.
    Wait,
    /// Start the health-check task and its overall timeout clock now.
    StartHealthCheck,
    /// Request the spawned process be killed, exactly once.
    Kill,
}

/// The orchestrator: owns the step broadcast and the shared terminal
/// result, and holds the spawned server's coordinates while the health
/// race runs.
pub struct Orchestrator {
    phase: OrchestratorPhase,
    needs_migration: bool,
    migration_done: bool,
    steps: StepChannel,
    status: SharedStatus,
    spawned: Option<(String, Option<String>)>,
}

impl Orchestrator {
    /// The current phase.
    pub closed spec fn phase(&self) -> OrchestratorPhase {
        self.phase
    }

    /// Whether this launch must wait out a first-run migration before the
    /// health-check clock starts.
    pub closed spec fn migration_needed(&self) -> bool {
        self.needs_migration
    }

    /// Whether the migration-complete signal has been observed.
    pub closed spec fn migration_complete(&self) -> bool {
        self.migration_done
    }

    /// The step a subscriber joining now observes.
    pub closed spec fn step_now(&self) -> InitStep {
        self.steps.current_step()
    }

    /// The published terminal result, once there is one.
    pub closed spec fn status_result(&self) -> Option<Result<ServerReadyData, String>> {
        self.status.result_of()
    }

    /// The spawned server's URL and password, while one is being awaited.
    pub closed spec fn spawned_target(&self) -> Option<(String, Option<String>)> {
        self.spawned
    }

    /// The orchestrator's internal consistency: the terminal result exists
    /// exactly once the phase is `Complete`, and a spawned target is held
    /// exactly while one is awaited.
    pub open spec fn wf(&self) -> bool {
        (self.phase() == OrchestratorPhase::Complete <==> self.status_result() is Some) && (
        self.spawned_target() is Some <==> (self.phase() == OrchestratorPhase::AwaitingMigration
            || self.phase() == OrchestratorPhase::AwaitingHealth))
    }

    /// A fresh orchestrator. `needs_migration` captures whether the local
    /// data store is absent, so that a spawned sidecar will create it on
    /// this launch.
    pub fn new(needs_migration: bool) -> (r: Self)
        ensures
            r.wf(),
            r.phase() == OrchestratorPhase::Resolving,
            r.migration_needed() == needs_migration,
            !r.migration_complete(),
            r.step_now() == InitStep::ServerWaiting,
            r.status_result() is None,
    {
        Orchestrator {
            phase: OrchestratorPhase::Resolving,
            needs_migration,
            migration_done: false,
            steps: StepChannel::new(),
            status: SharedStatus::new(),
            spawned: None,
        }
    }

    /// Applies the resolver's decision. An existing server makes the
    /// terminal result available immediately: no process, no health
    /// check. A spawned server starts the health check at once — unless a
    /// migration must complete first, in which case the clock is gated so
    /// long migrations cannot time the launch out.
    pub fn on_resolved(&mut self, conn: ServerConnection) -> (a: OrchestratorAction)
        requires
            old(self).wf(),
            old(self).phase() == OrchestratorPhase::Resolving,
        ensures
            final(self).wf(),
            final(self).migration_needed() == old(self).migration_needed(),
            final(self).migration_complete() == old(self).migration_complete(),
            final(self).step_now() == old(self).step_now(),
            match conn {
                ServerConnection::Existing { url } => final(self).phase()
                    == OrchestratorPhase::Complete && final(self).status_result() == Some(
                    Ok::<ServerReadyData, String>(ServerReadyData { url, password: None }),
                ) && a == OrchestratorAction::Wait,
                ServerConnection::Spawned { url, password } => final(self).status_result()
                    is None && final(self).spawned_target() == Some((url, password)) && if old(
                    self,
                ).migration_needed() && !old(self).migration_complete() {
                    final(self).phase() == OrchestratorPhase::AwaitingMigration && a
                        == OrchestratorAction::Wait
                } else {
                    final(self).phase() == OrchestratorPhase::AwaitingHealth && a
                        == OrchestratorAction::StartHealthCheck
                },
            },
    {
        match conn {
            ServerConnection::Existing { url } => {
                self.phase = OrchestratorPhase::Complete;
                self.status.publish(Ok(ServerReadyData { url, password: None }));
                OrchestratorAction::Wait
            },
            ServerConnection::Spawned { url, password } => {
                self.spawned = Some((url, password));
                if self.needs_migration && !self.migration_done {
                    self.phase = OrchestratorPhase::AwaitingMigration;
                    OrchestratorAction::Wait
                } else {
                    self.phase = OrchestratorPhase::AwaitingHealth;
                    OrchestratorAction::StartHealthCheck
                }
            },
        }
    }

    /// Applies one migration-progress notification from the stream
    /// interceptor. Every notification moves the broadcast step to
    /// `SqliteWaiting`; the completion sentinel opens the migration gate,
    /// and if the orchestrator was waiting on it, the health check starts
    /// now.
    pub fn on_migration_event(&mut self, p: SqliteMigrationProgress) -> (a: OrchestratorAction)
        requires
            old(self).wf(),
        ensures
            final(self).wf(),
            final(self).phase() == if old(self).phase() == OrchestratorPhase::AwaitingMigration
                && p == SqliteMigrationProgress::Done {
                OrchestratorPhase::AwaitingHealth
            } else {
                old(self).phase()
            },
            a == if old(self).phase() == OrchestratorPhase::AwaitingMigration && p
                == SqliteMigrationProgress::Done {
                OrchestratorAction::StartHealthCheck
            } else {
                OrchestratorAction::Wait
            },
            final(self).migration_complete() == (old(self).migration_complete() || p
                == SqliteMigrationProgress::Done),
            final(self).step_now() == step_advanced(old(self).step_now(), InitStep::SqliteWaiting),
            final(self).migration_needed() == old(self).migration_needed(),
            final(self).status_result() == old(self).status_result(),
            final(self).spawned_target() == old(self).spawned_target(),
    {
        self.steps.advance(InitStep::SqliteWaiting);
        match p {
            SqliteMigrationProgress::Done => {
                self.migration_done = true;
                if matches!(self.phase, OrchestratorPhase::AwaitingMigration) {
                    self.phase = OrchestratorPhase::AwaitingHealth;
                    OrchestratorAction::StartHealthCheck
                } else {
                    OrchestratorAction::Wait
                }
            },
            SqliteMigrationProgress::InProgress(_) => OrchestratorAction::Wait,
        }
    }

    /// Applies the health race's outcome. Success publishes `Ready` with
    /// the spawned URL and password and the process is left running; any
    /// failure — unhealthy, task failure, or the timeout — kills the
    /// process exactly once (the phase moves to `Complete`, so no later
    /// event can ask for another kill) and publishes a failure embedding
    /// the error and the recent log tail.
    pub fn on_health_outcome(&mut self, h: HealthAwait, logs: &str) -> (a: OrchestratorAction)
        requires
            old(self).wf(),
            old(self).phase() == OrchestratorPhase::AwaitingHealth,
        ensures
            final(self).wf(),
            final(self).phase() == OrchestratorPhase::Complete,
            final(self).step_now() == old(self).step_now(),
            final(self).migration_needed() == old(self).migration_needed(),
            final(self).migration_complete() == old(self).migration_complete(),
            match h {
                HealthAwait::Healthy => a == OrchestratorAction::Wait
                    && final(self).status_result() == Some(
                    Ok::<ServerReadyData, String>(
                        (ServerReadyData {
                            url: old(self).spawned_target().unwrap().0,
                            password: old(self).spawned_target().unwrap().1,
                        }),
                    ),
                ),
                _ => a == OrchestratorAction::Kill && match final(self).status_result() {
                    Some(Err(m)) => m@ == spawn_failure_message(
                        health_error_message(h).unwrap(),
                        logs@,
                    ),
                    _ => false,
                },
            },
    {
        let (url, password) = match &self.spawned {
            Some((u, p)) => (
                u.clone(),
                match p {
                    Some(x) => Some(x.clone()),
                    None => None,
                },
            ),
            None => {
                proof {
                    assert(false);
                }
                (String::new(), None)
            },
        };
        self.phase = OrchestratorPhase::Complete;
        self.spawned = None;
        match h {
            HealthAwait::Healthy => {
                self.status.publish(Ok(ServerReadyData { url, password }));
                OrchestratorAction::Wait
            },
            HealthAwait::Unhealthy(e) => {
                let msg = build_spawn_failure(e.as_str(), logs);
                self.status.publish(Err(msg));
                OrchestratorAction::Kill
            },
            HealthAwait::TaskFailed(e) => {
                let mut err = String::new();
                err.append("Health check task failed: ");
                err.append(e.as_str());
                let msg = build_spawn_failure(err.as_str(), logs);
                self.status.publish(Err(msg));
                OrchestratorAction::Kill
            },
            HealthAwait::TimedOut => {
                let msg = build_spawn_failure("Health check timed out", logs);
                self.status.publish(Err(msg));
                OrchestratorAction::Kill
            },
        }
    }

    /// Marks initialization finished once the terminal result is in: the
    /// broadcast step moves to `Done`, and every subscriber — however late
    /// — observes it.
    pub fn finish(&mut self)
        requires
            old(self).wf(),
            old(self).phase() == OrchestratorPhase::Complete,
        ensures
            final(self).wf(),
            final(self).phase() == OrchestratorPhase::Complete,
            final(self).step_now() == InitStep::Done,
            final(self).status_result() == old(self).status_result(),
            final(self).migration_needed() == old(self).migration_needed(),
            final(self).migration_complete() == old(self).migration_complete(),
    {
        self.steps.advance(InitStep::Done);
    }

    /// Where the orchestrator stands, for a runner that must know which
    /// events are still expected.
    pub fn current_phase(&self) -> (r: OrchestratorPhase)
        ensures
            r == self.phase(),
    {
        self.phase
    }

    /// Records that the spawned process could not be launched at all: the
    /// attempt is fatal, and the failure is surfaced immediately as the
    /// terminal result, with the recent log tail attached — the
    /// orchestrator itself never panics on it.
    pub fn on_spawn_failure(&mut self, err: &str, logs: &str)
        requires
            old(self).wf(),
            old(self).phase() == OrchestratorPhase::AwaitingMigration || old(self).phase()
                == OrchestratorPhase::AwaitingHealth,
        ensures
            final(self).wf(),
            final(self).phase() == OrchestratorPhase::Complete,
            final(self).step_now() == old(self).step_now(),
            final(self).migration_needed() == old(self).migration_needed(),
            final(self).migration_complete() == old(self).migration_complete(),
            match final(self).status_result() {
                Some(Err(m)) => m@ == spawn_failure_message(err@, logs@),
                _ => false,
            },
    {
        self.phase = OrchestratorPhase::Complete;
        self.spawned = None;
        let msg = build_spawn_failure(err, logs);
        self.status.publish(Err(msg));
    }

    /// What a step subscriber joining now observes first.
    pub fn subscribe_step(&self) -> (r: InitStep)
        ensures
            r == self.step_now(),
    {
        self.steps.subscribe()
    }

    /// The memoized terminal result every waiter observes.
    pub fn peek_status(&self) -> (r: &Option<Result<ServerReadyData, String>>)
        ensures
            *r == self.status_result(),
    {
        self.status.peek()
    }
}

/// The UI-timing race: the loading window is shown only when a first-run
/// migration is pending and initialization did not already complete within
/// the short fixed delay. A one-shot decision, not polled repeatedly.
pub fn loading_window_decision(needs_migration: bool, completed_within_delay: bool) -> (r: bool)
    ensures
        r == (needs_migration && !completed_within_delay),
{
    needs_migration && !completed_within_delay
}

/// Law: when the health race times out, the published failure carries the
/// canonical marker — the words `timed out` occur in the message, whatever
/// the attached log tail holds.
pub proof fn lemma_timeout_failure_names_timeout(logs: Seq<char>)
    ensures
        contains_seq(
            spawn_failure_message(health_error_message(HealthAwait::TimedOut).unwrap(), logs),
            "timed out"@,
        ),
{
    reveal_strlit("Failed to spawn OpenCode Server (");
    reveal_strlit("Health check timed out");
    reveal_strlit("). Logs:\n");
    reveal_strlit("timed out");
    let msg = spawn_failure_message(
        health_error_message(HealthAwait::TimedOut).unwrap(),
        logs,
    );
    let needle = "timed out"@;
    assert(msg.subrange(46, 46 + needle.len() as int) =~= needle);
}

} // verus!
