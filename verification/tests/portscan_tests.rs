use angryether::address::NetworkAddress;
use angryether::portscan::{PortAction, PortEvent, PortProbe, PortProbeResult, PortScan, PortScanner};
use std::time::Duration;

fn target() -> NetworkAddress {
    NetworkAddress::from_octets(192, 168, 1, 20)
}

fn finished(probe: &PortProbe) -> PortProbeResult {
    match probe.pending() {
        PortAction::Done { result } => result,
        other => panic!("expected the end, got {:?}", other),
    }
}

fn run_probe(scanner: &PortScanner, port: u16, accepts: bool, says: &[u8]) -> PortProbeResult {
    let mut probe = scanner.check_port(target(), port);
    if let PortAction::Connect { .. } = probe.pending() {
        if accepts {
            assert!(matches!(probe.step(PortEvent::Connected), PortAction::Exchange { .. }));
            probe.step(PortEvent::Received(says));
        } else {
            probe.step(PortEvent::Unreachable);
        }
    }
    finished(&probe)
}

fn open_ports(scan: &PortScan) -> Vec<(u16, String)> {
    scan.open_ports().into_iter().map(|r| (r.port, r.banner)).collect()
}

#[test]
fn test_port_scanner() {
    let scanner = PortScanner::new(1000);
    assert_eq!(Duration::from_millis(scanner.timeout_ms()), Duration::from_millis(1000));
}

#[test]
fn open_ports_come_in_the_order_of_the_candidates_whatever_completes_first() {
    let scanner = PortScanner::new(1000);
    let candidates = [80u16, 22, 9999];
    let results = |index: usize| match index {
        0 => run_probe(&scanner, 80, true, b"HTTP/1.1 200 OK\r\nServer: test\r\n\r\n"),
        1 => run_probe(&scanner, 22, true, b"SSH-2.0-TestServer\r\n"),
        _ => run_probe(&scanner, 9999, false, b""),
    };
    for order in [[0, 1, 2], [0, 2, 1], [1, 0, 2], [1, 2, 0], [2, 0, 1], [2, 1, 0]] {
        let mut scan = scanner.scan_ports(target(), &candidates);
        for index in order {
            assert!(scan.record(index, results(index)));
        }
        assert!(scan.is_complete());
        assert_eq!(
            open_ports(&scan),
            vec![(80, "Server: test".to_string()), (22, "SSH-2.0-TestServer".to_string())]
        );
    }
}

#[test]
fn a_closed_port_has_no_entry() {
    let scanner = PortScanner::new(1000);
    let mut scan = scanner.scan_ports(target(), &[9999]);
    let closed = run_probe(&scanner, 9999, false, b"");
    assert!(!closed.open);
    assert_eq!(closed.banner, "");
    assert!(scan.record(0, closed));
    assert!(scan.is_complete());
    assert!(scan.open_ports().is_empty());
}

#[test]
fn an_open_port_that_says_nothing_has_an_entry_with_an_empty_banner() {
    let scanner = PortScanner::new(1000);
    let quiet = run_probe(&scanner, 9999, true, b"");
    assert!(quiet.open);
    assert_eq!(quiet.port, 9999);
    assert_eq!(quiet.banner, "");
    let mut scan = scanner.scan_ports(target(), &[9999]);
    scan.record(0, quiet);
    assert_eq!(open_ports(&scan), vec![(9999, String::new())]);
}

#[test]
fn a_probe_connects_with_the_timeout_of_the_scanner() {
    let scanner = PortScanner::new(750);
    let probe = scanner.check_port(target(), 8080);
    match probe.pending() {
        PortAction::Connect { target: host, port, timeout_ms } => {
            assert_eq!(host, target());
            assert_eq!(port, 8080);
            assert_eq!(timeout_ms, 750);
        },
        other => panic!("expected a connection attempt, got {:?}", other),
    }
}

#[test]
fn a_web_server_is_asked_and_others_are_listened_to() {
    let scanner = PortScanner::new(1000);
    let mut web = scanner.check_port(target(), 80);
    match web.step(PortEvent::Connected) {
        PortAction::Exchange { request, capacity, timeout_ms } => {
            assert_eq!(request, b"GET / HTTP/1.0\r\nHost: localhost\r\n\r\n".to_vec());
            assert_eq!(capacity, 2048);
            assert_eq!(timeout_ms, 1000);
        },
        other => panic!("expected an exchange, got {:?}", other),
    }
    let mut shell = scanner.check_port(target(), 22);
    match shell.step(PortEvent::Connected) {
        PortAction::Exchange { request, capacity, timeout_ms } => {
            assert!(request.is_empty());
            assert_eq!(capacity, 256);
            assert_eq!(timeout_ms, 1000);
        },
        other => panic!("expected an exchange, got {:?}", other),
    }
    let mut other = scanner.check_port(target(), 31337);
    match other.step(PortEvent::Connected) {
        PortAction::Exchange { request, capacity, timeout_ms } => {
            assert!(request.is_empty());
            assert_eq!(capacity, 1024);
            assert_eq!(timeout_ms, 500);
        },
        found => panic!("expected an exchange, got {:?}", found),
    }
}

#[test]
fn a_request_that_cannot_be_sent_leaves_an_open_port_without_banner() {
    let scanner = PortScanner::new(1000);
    let mut probe = scanner.check_port(target(), 80);
    probe.step(PortEvent::Connected);
    match probe.step(PortEvent::SendFailed) {
        PortAction::Done { result } => {
            assert!(result.open);
            assert_eq!(result.port, 80);
            assert_eq!(result.banner, "");
        },
        other => panic!("expected the end, got {:?}", other),
    }
}

#[test]
fn a_tls_port_is_labelled_even_when_it_keeps_quiet() {
    let scanner = PortScanner::new(1000);
    let result = run_probe(&scanner, 443, true, b"");
    assert!(result.open);
    assert_eq!(result.banner, "SSL/TLS service");
}

#[test]
fn no_budget_means_not_open_at_once() {
    let scanner = PortScanner::new(0);
    let mut probe = scanner.check_port(target(), 80);
    let result = finished(&probe);
    assert!(!result.open);
    assert_eq!(result.port, 80);
    assert_eq!(result.banner, "");
    assert!(matches!(probe.step(PortEvent::Connected), PortAction::Done { .. }));
    assert!(!finished(&probe).open);
    let mut scan = scanner.scan_ports(target(), &[80, 22]);
    for index in 0..scan.len() {
        let probe = scan.probe(index).unwrap();
        scan.record(index, finished(&probe));
    }
    assert!(scan.is_complete());
    assert!(scan.open_ports().is_empty());
}

#[test]
fn an_event_that_is_not_awaited_changes_nothing_for_the_port() {
    let scanner = PortScanner::new(1000);
    let mut probe = scanner.check_port(target(), 22);
    assert!(matches!(probe.step(PortEvent::Received(b"SSH-2.0-x")), PortAction::Connect { .. }));
    assert!(matches!(probe.step(PortEvent::SendFailed), PortAction::Connect { .. }));
    probe.step(PortEvent::Connected);
    assert!(matches!(probe.step(PortEvent::Connected), PortAction::Exchange { .. }));
    assert!(matches!(probe.step(PortEvent::Unreachable), PortAction::Exchange { .. }));
    probe.step(PortEvent::Received(b"SSH-2.0-x\n"));
    probe.step(PortEvent::Received(b"SSH-2.0-y\n"));
    probe.step(PortEvent::Unreachable);
    let result = finished(&probe);
    assert!(result.open);
    assert_eq!(result.banner, "SSH-2.0-x");
}

#[test]
fn candidates_are_taken_as_given() {
    let scanner = PortScanner::new(1000);
    let mut scan = scanner.scan_ports(target(), &[22, 80, 22]);
    assert_eq!(scan.len(), 3);
    assert!(scan.probe(3).is_none());
    assert!(!scan.is_complete());
    scan.record(2, run_probe(&scanner, 22, true, b"SSH-2.0-second\n"));
    scan.record(0, run_probe(&scanner, 22, true, b"SSH-2.0-first\n"));
    assert!(!scan.is_complete());
    scan.record(1, run_probe(&scanner, 80, false, b""));
    assert!(scan.is_complete());
    assert_eq!(
        open_ports(&scan),
        vec![(22, "SSH-2.0-first".to_string()), (22, "SSH-2.0-second".to_string())]
    );
}

#[test]
fn a_scan_takes_each_outcome_once_and_only_for_its_port() {
    let scanner = PortScanner::new(1000);
    let mut scan = scanner.scan_ports(target(), &[22, 80]);
    assert!(!scan.record(0, run_probe(&scanner, 80, true, b"")));
    assert!(!scan.record(2, run_probe(&scanner, 22, true, b"")));
    assert!(scan.record(0, run_probe(&scanner, 22, false, b"")));
    assert!(!scan.record(0, run_probe(&scanner, 22, true, b"SSH-2.0-late\n")));
    assert!(scan.open_ports().is_empty());
    assert!(!scan.is_complete());
}

#[test]
fn a_result_can_be_copied() {
    let result = PortProbeResult { port: 22, banner: "SSH-2.0-x".to_string(), open: true };
    let copy = result.duplicate();
    assert_eq!(copy.port, 22);
    assert_eq!(copy.banner, "SSH-2.0-x");
    assert!(copy.open);
}

#[test]
fn a_scan_of_no_ports_is_complete() {
    let scan = PortScanner::new(1000).scan_ports(target(), &[]);
    assert!(scan.is_complete());
    assert!(scan.open_ports().is_empty());
    assert_eq!(scan.len(), 0);
}
