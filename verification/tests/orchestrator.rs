use opencode_desktop::events::SqliteMigrationProgress;
use opencode_desktop::orchestrator::HealthAwait;
use opencode_desktop::orchestrator::Orchestrator;
use opencode_desktop::orchestrator::OrchestratorAction;
use opencode_desktop::orchestrator::loading_window_decision;
use opencode_desktop::resolver::ServerConnection;
use opencode_desktop::signals::InitStep;

#[test]
fn timeout_triggers_kill() {
    let mut orchestrator = Orchestrator::new(false);
    let action = orchestrator.on_resolved(ServerConnection::Spawned {
        url: "http://127.0.0.1:4096".to_string(),
        password: Some("pw".to_string()),
    });
    assert_eq!(action, OrchestratorAction::StartHealthCheck);

    // The prober never succeeds; the fixed timeout elapses.
    let mut kill_requests = 0u32;
    let action = orchestrator.on_health_outcome(HealthAwait::TimedOut, "recent logs");
    if action == OrchestratorAction::Kill {
        kill_requests += 1;
    }
    assert_eq!(kill_requests, 1);

    match orchestrator.peek_status() {
        Some(Err(m)) => {
            assert_eq!(
                m,
                "Failed to spawn OpenCode Server (Health check timed out). Logs:\nrecent logs"
            );
            assert!(m.contains("timed out"));
        }
        other => panic!("expected the timeout failure, got {:?}", other),
    }
}

#[test]
fn existing_server_completes_without_spawn_or_health_check() {
    let mut orchestrator = Orchestrator::new(false);
    let action = orchestrator.on_resolved(ServerConnection::Existing {
        url: "http://custom:9".to_string(),
    });
    assert_eq!(action, OrchestratorAction::Wait);

    match orchestrator.peek_status() {
        Some(Ok(ready)) => {
            assert_eq!(ready.url, "http://custom:9");
            assert!(ready.password.is_none());
        }
        other => panic!("expected the ready result, got {:?}", other),
    }

    orchestrator.finish();
    assert_eq!(orchestrator.subscribe_step(), InitStep::Done);
}

#[test]
fn migration_gates_the_health_check_clock() {
    let mut orchestrator = Orchestrator::new(true);
    let action = orchestrator.on_resolved(ServerConnection::Spawned {
        url: "http://127.0.0.1:4096".to_string(),
        password: Some("pw".to_string()),
    });
    // The health-check clock must not start while the migration runs.
    assert_eq!(action, OrchestratorAction::Wait);

    let action = orchestrator.on_migration_event(SqliteMigrationProgress::InProgress(10));
    assert_eq!(action, OrchestratorAction::Wait);
    assert_eq!(orchestrator.subscribe_step(), InitStep::SqliteWaiting);

    let action = orchestrator.on_migration_event(SqliteMigrationProgress::Done);
    assert_eq!(action, OrchestratorAction::StartHealthCheck);

    let action = orchestrator.on_health_outcome(HealthAwait::Healthy, "");
    assert_eq!(action, OrchestratorAction::Wait);
    match orchestrator.peek_status() {
        Some(Ok(ready)) => {
            assert_eq!(ready.url, "http://127.0.0.1:4096");
            assert_eq!(ready.password.as_deref(), Some("pw"));
        }
        other => panic!("expected the ready result, got {:?}", other),
    }
}

#[test]
fn health_failures_embed_their_cause_and_logs() {
    let mut orchestrator = Orchestrator::new(false);
    orchestrator.on_resolved(ServerConnection::Spawned {
        url: "u".to_string(),
        password: None,
    });
    let action = orchestrator.on_health_outcome(
        HealthAwait::Unhealthy("Sidecar terminated before becoming healthy (code=Some(1) signal=None)".to_string()),
        "tail",
    );
    assert_eq!(action, OrchestratorAction::Kill);
    match orchestrator.peek_status() {
        Some(Err(m)) => assert_eq!(
            m,
            "Failed to spawn OpenCode Server (Sidecar terminated before becoming healthy (code=Some(1) signal=None)). Logs:\ntail"
        ),
        other => panic!("expected a failure, got {:?}", other),
    }
}

#[test]
fn health_task_failure_is_labelled() {
    let mut orchestrator = Orchestrator::new(false);
    orchestrator.on_resolved(ServerConnection::Spawned {
        url: "u".to_string(),
        password: None,
    });
    orchestrator.on_health_outcome(HealthAwait::TaskFailed("cancelled".to_string()), "l");
    match orchestrator.peek_status() {
        Some(Err(m)) => assert_eq!(
            m,
            "Failed to spawn OpenCode Server (Health check task failed: cancelled). Logs:\nl"
        ),
        other => panic!("expected a failure, got {:?}", other),
    }
}

#[test]
fn loading_window_shown_only_for_slow_migrations() {
    assert!(loading_window_decision(true, false));
    assert!(!loading_window_decision(true, true));
    assert!(!loading_window_decision(false, false));
    assert!(!loading_window_decision(false, true));
}

#[test]
fn spawn_failure_is_surfaced_as_terminal_result() {
    let mut orchestrator = Orchestrator::new(true);
    orchestrator.on_resolved(ServerConnection::Spawned {
        url: "u".to_string(),
        password: None,
    });
    orchestrator.on_spawn_failure("No such file or directory", "tail");
    match orchestrator.peek_status() {
        Some(Err(m)) => assert_eq!(
            m,
            "Failed to spawn OpenCode Server (No such file or directory). Logs:\ntail"
        ),
        other => panic!("expected a failure, got {:?}", other),
    }
    orchestrator.finish();
    assert_eq!(orchestrator.subscribe_step(), InitStep::Done);
}
