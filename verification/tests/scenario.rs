//! The full initialization flow driven end to end against a stubbed
//! sidecar: the resolver decides to spawn, the interceptor extracts the
//! migration markers, the prober succeeds on its fourth probe, and the
//! orchestrator publishes `Ready` with the spawned URL.
use opencode_desktop::events::CommandEvent;
use opencode_desktop::events::SqliteMigrationProgress;
use opencode_desktop::events::TerminatedPayload;
use opencode_desktop::interceptor::Interceptor;
use opencode_desktop::orchestrator::HealthAwait;
use opencode_desktop::orchestrator::Orchestrator;
use opencode_desktop::orchestrator::OrchestratorAction;
use opencode_desktop::prober::ProbeEvent;
use opencode_desktop::prober::ProbeLoopDecision;
use opencode_desktop::prober::probe_step;
use opencode_desktop::resolver::ResolverState;
use opencode_desktop::resolver::ServerConnection;
use opencode_desktop::resolver::local_step;
use opencode_desktop::resolver::resolver_start;
use opencode_desktop::signals::InitStep;
use opencode_desktop::supervisor::CommandChild;
use opencode_desktop::supervisor::MonitorStep;
use opencode_desktop::supervisor::ProcessMonitor;
use opencode_desktop::supervisor::WaitPoll;

#[test]
fn end_to_end_spawned_initialization() {
    // Resolver: no custom URL saved, nothing listening locally -> spawn.
    let state = resolver_start(None, 4096);
    let local_url = match state {
        ResolverState::CheckingLocal { url } => url,
        other => panic!("expected the local probe, got {:?}", other),
    };
    let connection = local_step(local_url.clone(), false);
    let spawned_url = match &connection {
        ServerConnection::Spawned { url, password } => {
            assert!(password.is_some());
            url.clone()
        }
        other => panic!("expected a spawned server, got {:?}", other),
    };

    // Orchestrator: first run, so the migration gates the health clock.
    let mut orchestrator = Orchestrator::new(true);
    let mut observed_steps = vec![orchestrator.subscribe_step()];
    assert_eq!(
        orchestrator.on_resolved(connection),
        OrchestratorAction::Wait
    );

    // The stub process prints its migration markers, then sleeps, then
    // exits 0. The interceptor suppresses the markers and reports them.
    let mut interceptor = Interceptor::new();
    let mut child = CommandChild::new();
    let mut monitor = ProcessMonitor::new();
    let stub_stdout = vec![
        b"sqlite-migration: 10".to_vec(),
        b"sqlite-migration: 60".to_vec(),
        b"sqlite-migration: done".to_vec(),
    ];

    let mut forwarded = Vec::new();
    let mut progress_notices = Vec::new();
    let mut health_check_started = false;
    for line in stub_stdout {
        let (fwd, notice) = interceptor.process(CommandEvent::Stdout(line));
        if let Some(e) = fwd {
            forwarded.push(e);
        }
        if let Some(p) = notice {
            progress_notices.push(p);
            let action = orchestrator.on_migration_event(p);
            let step = orchestrator.subscribe_step();
            if observed_steps.last() != Some(&step) {
                observed_steps.push(step);
            }
            if action == OrchestratorAction::StartHealthCheck {
                health_check_started = true;
            }
        }
    }

    // Exactly two progress notifications plus one completion; no marker
    // line reached the downstream consumer.
    assert_eq!(
        progress_notices,
        vec![
            SqliteMigrationProgress::InProgress(10),
            SqliteMigrationProgress::InProgress(60),
            SqliteMigrationProgress::Done,
        ]
    );
    assert!(forwarded.is_empty());
    assert!(health_check_started);

    // Prober: the first three probes fail, the fourth succeeds.
    let mut probes = vec![false, false, false, true].into_iter();
    let health_outcome = loop {
        match probe_step(ProbeEvent::ProbeResult(probes.next().unwrap())) {
            ProbeLoopDecision::KeepWaiting => continue,
            ProbeLoopDecision::Ready => break HealthAwait::Healthy,
            ProbeLoopDecision::Failed(m) => break HealthAwait::Unhealthy(m),
        }
    };
    assert_eq!(
        orchestrator.on_health_outcome(health_outcome, ""),
        OrchestratorAction::Wait
    );

    orchestrator.finish();
    let step = orchestrator.subscribe_step();
    if observed_steps.last() != Some(&step) {
        observed_steps.push(step);
    }

    // The observed step sequence and the terminal result.
    assert_eq!(
        observed_steps,
        vec![
            InitStep::ServerWaiting,
            InitStep::SqliteWaiting,
            InitStep::Done
        ]
    );
    match orchestrator.peek_status() {
        Some(Ok(ready)) => assert_eq!(ready.url, spawned_url),
        other => panic!("expected the ready result, got {:?}", other),
    }

    // The stub eventually exits 0; the stream ends with one Terminated.
    let mut events = Vec::new();
    for poll in [
        WaitPoll::StillRunning,
        WaitPoll::Exited(TerminatedPayload {
            code: Some(0),
            signal: None,
        }),
    ] {
        let kill_pending = child.take_kill_request();
        match monitor.poll_step(poll, kill_pending) {
            MonitorStep::Emit(e) => {
                events.push(e);
                break;
            }
            MonitorStep::Kill | MonitorStep::Idle => {}
        }
    }
    assert_eq!(events.len(), 1);
    assert!(matches!(events[0], CommandEvent::Terminated(_)));
}
