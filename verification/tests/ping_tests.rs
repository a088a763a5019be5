use angryether::address::NetworkAddress;
use angryether::ping::{
    HostProbe, PingScanner, ProbeAction, ProbeEvent, ProbeStage, SweepAction, CONCURRENT_LIMIT,
    ECHO_ATTEMPTS, ECHO_PAYLOAD_LEN, FALLBACK_PORT_COUNT,
};

fn localhost() -> NetworkAddress {
    NetworkAddress::from_octets(127, 0, 0, 1)
}

#[test]
fn test_ping_localhost() {
    let scanner = PingScanner::new();
    let mut probe = scanner.ping_host(localhost(), 1000);
    assert!(matches!(probe.pending(), ProbeAction::Echo { .. }));
    let result = probe.step(ProbeEvent::Answered);
    assert_eq!(result, ProbeAction::Verdict { reachable: true });
    assert_eq!(probe.verdict(), Some(true));
}

#[test]
fn test_sweep_with_timeout() {
    let scanner = PingScanner::new();
    let hosts = vec![localhost()];
    let mut sweep = scanner.sweep(hosts, 1000);
    match sweep.next() {
        SweepAction::Launch { index, target, timeout_ms } => {
            assert_eq!(index, 0);
            assert_eq!(target, localhost());
            assert_eq!(timeout_ms, 1000);
        },
        other => panic!("expected a launch, got {:?}", other),
    }
    assert!(matches!(sweep.next(), SweepAction::Wait));
    sweep.settle(0, true);
    match sweep.next() {
        SweepAction::Finish { hosts } => {
            assert!(!hosts.is_empty());
            assert_eq!(hosts, vec![localhost()]);
        },
        other => panic!("expected the end, got {:?}", other),
    }
}

#[test]
fn echo_requests_get_half_the_budget_each() {
    let mut probe = HostProbe::begin(localhost(), 1000);
    match probe.pending() {
        ProbeAction::Echo { target, sequence, payload_len, timeout_ms, .. } => {
            assert_eq!(target, localhost());
            assert_eq!(sequence, 0);
            assert_eq!(payload_len, 56);
            assert_eq!(payload_len, ECHO_PAYLOAD_LEN);
            assert_eq!(timeout_ms, 500);
        },
        other => panic!("expected an echo request, got {:?}", other),
    }
    match probe.step(ProbeEvent::Silent) {
        ProbeAction::Echo { timeout_ms, .. } => assert_eq!(timeout_ms, 500),
        other => panic!("expected a second echo request, got {:?}", other),
    }
    assert!(matches!(probe.step(ProbeEvent::Silent), ProbeAction::Connect { .. }));
}

#[test]
fn fallback_tries_the_common_ports_in_order_with_a_seventh_of_the_budget() {
    let mut probe = HostProbe::begin(localhost(), 1000);
    probe.step(ProbeEvent::Silent);
    let mut action = probe.step(ProbeEvent::Silent);
    let mut seen = Vec::new();
    while let ProbeAction::Connect { target, port, timeout_ms } = action {
        assert_eq!(target, localhost());
        assert_eq!(timeout_ms, 142);
        seen.push(port);
        action = probe.step(ProbeEvent::Silent);
    }
    assert_eq!(seen, vec![80, 443, 22, 21, 23, 53, 25]);
    assert_eq!(seen.len(), FALLBACK_PORT_COUNT);
    assert_eq!(action, ProbeAction::Verdict { reachable: false });
    assert_eq!(probe.verdict(), Some(false));
}

#[test]
fn a_refused_connection_is_evidence_of_life() {
    let mut probe = HostProbe::begin(localhost(), 700);
    probe.step(ProbeEvent::Silent);
    probe.step(ProbeEvent::Silent);
    probe.step(ProbeEvent::Silent);
    let action = probe.step(ProbeEvent::Refused);
    assert_eq!(action, ProbeAction::Verdict { reachable: true });
}

#[test]
fn a_refusal_of_an_echo_request_is_no_evidence() {
    let mut probe = HostProbe::begin(localhost(), 700);
    assert!(matches!(probe.step(ProbeEvent::Refused), ProbeAction::Echo { .. }));
    assert!(matches!(probe.step(ProbeEvent::Refused), ProbeAction::Connect { port: 80, .. }));
}

#[test]
fn an_open_connection_is_evidence_of_life() {
    let mut probe = HostProbe::begin(localhost(), 700);
    probe.step(ProbeEvent::Silent);
    probe.step(ProbeEvent::Silent);
    assert_eq!(probe.step(ProbeEvent::Answered), ProbeAction::Verdict { reachable: true });
}

#[test]
fn a_verdict_is_final() {
    let mut probe = HostProbe::begin(localhost(), 1000);
    probe.step(ProbeEvent::Answered);
    assert_eq!(probe.step(ProbeEvent::Silent), ProbeAction::Verdict { reachable: true });
    assert_eq!(probe.step(ProbeEvent::Refused), ProbeAction::Verdict { reachable: true });
    let mut dead = HostProbe::begin(localhost(), 0);
    assert_eq!(dead.step(ProbeEvent::Answered), ProbeAction::Verdict { reachable: false });
}

#[test]
fn a_probe_ends_after_nine_outcomes_at_most() {
    let mut probe = HostProbe::begin(localhost(), 5000);
    let mut outcomes = 0;
    while probe.verdict().is_none() {
        probe.step(ProbeEvent::Silent);
        outcomes += 1;
    }
    assert_eq!(outcomes, ECHO_ATTEMPTS as usize + FALLBACK_PORT_COUNT);
    assert_eq!(outcomes, 9);
}

#[test]
fn no_budget_means_not_reachable_at_once() {
    let probe = HostProbe::begin(localhost(), 0);
    assert_eq!(probe.pending(), ProbeAction::Verdict { reachable: false });
    assert_eq!(probe.verdict(), Some(false));
    let tiny = HostProbe::begin(localhost(), 1);
    assert_eq!(tiny.pending(), ProbeAction::Verdict { reachable: false });
}

#[test]
fn a_probe_that_is_allotted_no_time_is_not_made() {
    let mut probe = HostProbe::begin(localhost(), 6);
    match probe.pending() {
        ProbeAction::Echo { timeout_ms, .. } => assert_eq!(timeout_ms, 3),
        other => panic!("expected an echo request, got {:?}", other),
    }
    probe.step(ProbeEvent::Silent);
    assert_eq!(probe.step(ProbeEvent::Silent), ProbeAction::Verdict { reachable: false });
    let mut seven = HostProbe::begin(localhost(), 7);
    seven.step(ProbeEvent::Silent);
    assert_eq!(
        seven.step(ProbeEvent::Silent),
        ProbeAction::Connect { target: localhost(), port: 80, timeout_ms: 1 }
    );
}

#[test]
fn each_echo_request_has_an_identifier() {
    let mut seen = std::collections::HashSet::new();
    for _ in 0..64 {
        if let ProbeAction::Echo { identifier, .. } = HostProbe::begin(localhost(), 1000).pending() {
            seen.insert(identifier);
        }
    }
    assert!(seen.len() > 1);
}

#[test]
fn a_sweep_runs_fifty_probes_at_a_time() {
    let targets: Vec<NetworkAddress> = (0..120u32).map(|i| NetworkAddress(0x0a00_0000 + i)).collect();
    let mut sweep = PingScanner::new().sweep(targets.clone(), 300);
    for expected in 0..CONCURRENT_LIMIT {
        match sweep.next() {
            SweepAction::Launch { index, target, timeout_ms } => {
                assert_eq!(index, expected);
                assert_eq!(target, targets[expected]);
                assert_eq!(timeout_ms, 300);
            },
            other => panic!("expected a launch, got {:?}", other),
        }
    }
    assert_eq!(CONCURRENT_LIMIT, 50);
    assert!(matches!(sweep.next(), SweepAction::Wait));
    assert!(matches!(sweep.next(), SweepAction::Wait));
    sweep.settle(17, true);
    assert!(matches!(sweep.next(), SweepAction::Launch { index: 50, .. }));
    assert!(matches!(sweep.next(), SweepAction::Wait));
}

#[test]
fn a_sweep_lists_the_reachable_hosts_in_the_order_of_the_targets() {
    let targets: Vec<NetworkAddress> = (1..=5u32).map(NetworkAddress).collect();
    let mut sweep = PingScanner::with_limit(2).sweep(targets, 100);
    let mut running = Vec::new();
    let mut finished = None;
    while finished.is_none() {
        match sweep.next() {
            SweepAction::Launch { index, .. } => running.push(index),
            SweepAction::Wait => {
                assert!(running.len() <= 2);
                let index = running.pop().unwrap();
                sweep.settle(index, index % 2 == 0);
            },
            SweepAction::Finish { hosts } => finished = Some(hosts),
        }
    }
    assert_eq!(finished.unwrap(), vec![NetworkAddress(1), NetworkAddress(3), NetworkAddress(5)]);
}

#[test]
fn a_sweep_ignores_verdicts_that_it_does_not_await() {
    let mut sweep = PingScanner::new().sweep(vec![NetworkAddress(1), NetworkAddress(2)], 100);
    sweep.settle(0, true);
    sweep.settle(7, true);
    assert!(matches!(sweep.next(), SweepAction::Launch { index: 0, .. }));
    sweep.settle(0, false);
    sweep.settle(0, true);
    assert!(matches!(sweep.next(), SweepAction::Launch { index: 1, .. }));
    sweep.settle(1, true);
    match sweep.next() {
        SweepAction::Finish { hosts } => assert_eq!(hosts, vec![NetworkAddress(2)]),
        other => panic!("expected the end, got {:?}", other),
    }
}

#[test]
fn a_sweep_of_nothing_is_over_at_once() {
    let mut sweep = PingScanner::new().sweep(Vec::new(), 100);
    match sweep.next() {
        SweepAction::Finish { hosts } => assert!(hosts.is_empty()),
        other => panic!("expected the end, got {:?}", other),
    }
}

#[test]
fn a_limit_of_zero_lets_one_probe_run() {
    let mut sweep = PingScanner::with_limit(0).sweep(vec![NetworkAddress(1), NetworkAddress(2)], 100);
    assert!(matches!(sweep.next(), SweepAction::Launch { index: 0, .. }));
    assert!(matches!(sweep.next(), SweepAction::Wait));
}

#[test]
fn stages_can_be_compared() {
    assert_ne!(ProbeStage::Echo { attempt: 0 }, ProbeStage::Echo { attempt: 1 });
    assert_eq!(ProbeStage::Done { reachable: true }, ProbeStage::Done { reachable: true });
}
