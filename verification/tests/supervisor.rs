use opencode_desktop::events::CommandEvent;
use opencode_desktop::events::TerminatedPayload;
use opencode_desktop::supervisor::CommandChild;
use opencode_desktop::supervisor::MonitorStep;
use opencode_desktop::supervisor::ProcessMonitor;
use opencode_desktop::supervisor::WaitPoll;

fn run_monitor(polls: Vec<WaitPoll>, child: &mut CommandChild) -> (Vec<CommandEvent>, u32) {
    let mut monitor = ProcessMonitor::new();
    let mut events = Vec::new();
    let mut kills_issued = 0u32;
    for poll in polls {
        let kill_pending = child.take_kill_request();
        match monitor.poll_step(poll, kill_pending) {
            MonitorStep::Emit(e) => {
                events.push(e);
                break;
            }
            MonitorStep::Kill => kills_issued += 1,
            MonitorStep::Idle => {}
        }
    }
    (events, kills_issued)
}

#[test]
fn kill_twice_yields_one_terminated_event() {
    let mut child = CommandChild::new();
    assert!(child.kill().is_ok());
    assert!(child.kill().is_ok());

    let exited = WaitPoll::Exited(TerminatedPayload {
        code: None,
        signal: Some(9),
    });
    let polls = vec![
        WaitPoll::StillRunning,
        WaitPoll::StillRunning,
        WaitPoll::StillRunning,
        exited,
    ];
    let (events, kills_issued) = run_monitor(polls, &mut child);

    // Two kill calls collapse into a single forceful terminate...
    assert_eq!(kills_issued, 1);
    // ...and exactly one Terminated event reaches the stream.
    let terminated = events
        .iter()
        .filter(|e| matches!(e, CommandEvent::Terminated(_)))
        .count();
    assert_eq!(terminated, 1);
    assert_eq!(events.len(), 1);
}

#[test]
fn natural_exit_emits_single_final_terminated() {
    let mut child = CommandChild::new();
    let polls = vec![
        WaitPoll::StillRunning,
        WaitPoll::Exited(TerminatedPayload {
            code: Some(0),
            signal: None,
        }),
    ];
    let (events, kills_issued) = run_monitor(polls, &mut child);

    assert_eq!(kills_issued, 0);
    assert_eq!(events.len(), 1);
    assert!(matches!(
        events[0],
        CommandEvent::Terminated(TerminatedPayload {
            code: Some(0),
            signal: None
        })
    ));
}

#[test]
fn wait_failure_replaces_terminated_with_error() {
    let mut child = CommandChild::new();
    let polls = vec![WaitPoll::WaitFailed("wait failed".to_string())];
    let (events, _) = run_monitor(polls, &mut child);

    assert_eq!(events.len(), 1);
    assert!(matches!(&events[0], CommandEvent::Error(m) if m == "wait failed"));
}
