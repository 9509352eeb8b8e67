use opencode_desktop::events::TerminatedPayload;
use opencode_desktop::prober::ProbeEvent;
use opencode_desktop::prober::ProbeLoopDecision;
use opencode_desktop::prober::host_is_loopback;
use opencode_desktop::prober::merge_no_proxy;
use opencode_desktop::prober::probe_step;

#[test]
fn loopback_hosts_bypass_proxy() {
    assert!(host_is_loopback("localhost"));
    assert!(host_is_loopback("LOCALHOST"));
    assert!(host_is_loopback("LocalHost"));
    assert!(host_is_loopback("127.0.0.1"));
    assert!(host_is_loopback("::1"));
    assert!(host_is_loopback("0:0:0:0:0:0:0:1"));
    assert!(host_is_loopback("0000:0000:0000:0000:0000:0000:0000:0001"));
    assert!(host_is_loopback("0::1"));
    assert!(host_is_loopback("::0:1"));
    assert!(host_is_loopback("0:0::0:1"));
    assert!(host_is_loopback("::0.0.0.1"));
    assert!(host_is_loopback("0:0:0:0:0:0:0.0.0.1"));
    assert!(host_is_loopback("127.255.0.42"));
    assert!(host_is_loopback("::1"));
}

#[test]
fn non_loopback_hosts_keep_proxy() {
    assert!(!host_is_loopback("example.com"));
    assert!(!host_is_loopback("128.0.0.1"));
    assert!(!host_is_loopback("127.0.0"));
    assert!(!host_is_loopback("127.0.0.0.1"));
    assert!(!host_is_loopback("127.00.0.1"));
    assert!(!host_is_loopback("127.0.0.256"));
    assert!(!host_is_loopback("127.0.0.1x"));
    assert!(!host_is_loopback(""));
    assert!(!host_is_loopback("::2"));
    assert!(!host_is_loopback("::1:1"));
    assert!(!host_is_loopback("1::1"));
    assert!(!host_is_loopback("::"));
    assert!(!host_is_loopback(":::1"));
    assert!(!host_is_loopback(":1"));
    assert!(!host_is_loopback("0:0:0:0:0:0:0:1::"));
    assert!(!host_is_loopback("::0:0:0:0:0:0:0:1"));
    assert!(!host_is_loopback("::ffff:127.0.0.1"));
    assert!(!host_is_loopback("::00001"));
}

#[test]
fn probe_loop_keeps_waiting_until_success() {
    assert_eq!(
        probe_step(ProbeEvent::ProbeResult(false)),
        ProbeLoopDecision::KeepWaiting
    );
    assert_eq!(
        probe_step(ProbeEvent::ProbeResult(true)),
        ProbeLoopDecision::Ready
    );
}

#[test]
fn process_death_fails_wait_with_exit_details() {
    let decision = probe_step(ProbeEvent::ProcessExited(Some(TerminatedPayload {
        code: Some(1),
        signal: None,
    })));
    match decision {
        ProbeLoopDecision::Failed(m) => assert_eq!(
            m,
            "Sidecar terminated before becoming healthy (code=Some(1) signal=None)"
        ),
        other => panic!("expected failure, got {:?}", other),
    }

    let decision = probe_step(ProbeEvent::ProcessExited(Some(TerminatedPayload {
        code: None,
        signal: Some(-9),
    })));
    match decision {
        ProbeLoopDecision::Failed(m) => assert_eq!(
            m,
            "Sidecar terminated before becoming healthy (code=None signal=Some(-9))"
        ),
        other => panic!("expected failure, got {:?}", other),
    }
}

#[test]
fn lost_termination_channel_still_fails_the_wait() {
    match probe_step(ProbeEvent::ProcessExited(None)) {
        ProbeLoopDecision::Failed(m) => {
            assert_eq!(m, "Sidecar terminated before becoming healthy")
        }
        other => panic!("expected failure, got {:?}", other),
    }
}

#[test]
fn no_proxy_merge_appends_missing_loopback_hosts() {
    assert_eq!(merge_no_proxy(""), "127.0.0.1,localhost,::1");
    assert_eq!(
        merge_no_proxy("corp.example, localhost"),
        "corp.example,localhost,127.0.0.1,::1"
    );
    assert_eq!(merge_no_proxy("LOCALHOST"), "LOCALHOST,127.0.0.1,::1");
    assert_eq!(
        merge_no_proxy("127.0.0.1,localhost,::1"),
        "127.0.0.1,localhost,::1"
    );
    assert_eq!(merge_no_proxy(" , ,"), "127.0.0.1,localhost,::1");
}
