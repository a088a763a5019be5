use angryether::address::{HardwareAddress, NetworkAddress};
use angryether::arp::{
    find_interface, ArpAction, ArpEvent, ArpScanner, ChannelOutcome, LinkInterface, BATCH_SIZE,
    BURST_DELAY_MICROS, BURST_LIMIT, REST_MILLIS, RESPONSE_WINDOW_MILLIS,
};
use angryether::error::ConfigError;
use angryether::frame::{encode_frame, ProbeRequest, OPERATION_REPLY, OPERATION_REQUEST};

const OWN_HARDWARE: HardwareAddress = HardwareAddress(0x02, 0x00, 0x00, 0xaa, 0xbb, 0xcc);

fn own_address() -> NetworkAddress {
    NetworkAddress::from_octets(192, 168, 1, 10)
}

fn host(last: u8) -> NetworkAddress {
    NetworkAddress::from_octets(192, 168, 1, last)
}

fn scanner() -> ArpScanner {
    let interface = LinkInterface { hardware: Some(OWN_HARDWARE), address: Some(own_address()) };
    ArpScanner::new(interface, ChannelOutcome::Ethernet).unwrap()
}

fn reply_from(sender: NetworkAddress, hardware: HardwareAddress) -> Vec<u8> {
    encode_frame(OWN_HARDWARE, hardware, OPERATION_REPLY, hardware, sender, OWN_HARDWARE, own_address())
}

fn listening(targets: Vec<NetworkAddress>) -> ArpScanner {
    let mut scanner = scanner();
    let mut action = scanner.sweep(targets);
    while let ArpAction::Transmit { .. } = action {
        action = scanner.step(ArpEvent::Sent);
    }
    assert!(matches!(action, ArpAction::OpenWindow { .. }));
    assert!(matches!(scanner.step(ArpEvent::WindowOpened), ArpAction::Receive));
    scanner
}

fn finish(scanner: &mut ArpScanner) -> (Vec<(NetworkAddress, HardwareAddress)>, u64) {
    assert!(matches!(scanner.step(ArpEvent::Quiet), ArpAction::Rest { .. }));
    match scanner.step(ArpEvent::Rested { elapsed_millis: RESPONSE_WINDOW_MILLIS }) {
        ArpAction::Finish { hosts, responses } => (hosts, responses),
        other => panic!("expected the end, got {:?}", other),
    }
}

#[test]
fn test_arp_scanner_creation() {
    let interface = LinkInterface { hardware: Some(OWN_HARDWARE), address: Some(own_address()) };
    for channel in [ChannelOutcome::Ethernet, ChannelOutcome::Unsupported, ChannelOutcome::Failed] {
        let result = ArpScanner::new(interface, channel);
        assert!(result.is_ok() || result.is_err());
    }
}

#[test]
fn a_prober_needs_an_ethernet_channel_and_a_hardware_address() {
    let interface = LinkInterface { hardware: Some(OWN_HARDWARE), address: Some(own_address()) };
    assert!(ArpScanner::new(interface, ChannelOutcome::Ethernet).is_ok());
    assert_eq!(
        ArpScanner::new(interface, ChannelOutcome::Failed).err(),
        Some(ConfigError::ChannelUnavailable)
    );
    assert_eq!(
        ArpScanner::new(interface, ChannelOutcome::Unsupported).err(),
        Some(ConfigError::UnsupportedChannel)
    );
    let bare = LinkInterface { hardware: None, address: Some(own_address()) };
    assert_eq!(
        ArpScanner::new(bare, ChannelOutcome::Ethernet).err(),
        Some(ConfigError::NoHardwareAddress)
    );
    assert_eq!(
        ArpScanner::new(bare, ChannelOutcome::Failed).err(),
        Some(ConfigError::ChannelUnavailable)
    );
}

#[test]
fn an_interface_without_an_address_asks_from_all_zeros() {
    let interface = LinkInterface { hardware: Some(OWN_HARDWARE), address: None };
    let mut scanner = ArpScanner::new(interface, ChannelOutcome::Ethernet).unwrap();
    match scanner.sweep(vec![host(20)]) {
        ArpAction::Transmit { frame, .. } => {
            let expected = ProbeRequest {
                target: host(20),
                own_address: NetworkAddress(0),
                own_hardware: OWN_HARDWARE,
            };
            assert_eq!(frame, expected.encode());
            assert_eq!(&frame[28..32], &[0, 0, 0, 0]);
        },
        other => panic!("expected a request, got {:?}", other),
    }
}

#[test]
fn an_interface_is_found_by_its_name() {
    let names = vec!["lo".to_string(), "eth0".to_string(), "eth0".to_string(), "wlan0".to_string()];
    assert_eq!(find_interface(&names, &"eth0".to_string()), Ok(1));
    assert_eq!(find_interface(&names, &"lo".to_string()), Ok(0));
    assert_eq!(find_interface(&names, &"eth1".to_string()), Err(ConfigError::InterfaceNotFound));
    assert_eq!(find_interface(&Vec::new(), &"lo".to_string()), Err(ConfigError::InterfaceNotFound));
}

#[test]
fn requests_go_out_in_the_order_of_the_targets() {
    let targets = vec![host(3), host(1), host(2)];
    let mut scanner = scanner();
    let mut action = scanner.sweep(targets.clone());
    let mut asked = Vec::new();
    while let ArpAction::Transmit { frame, batch, pause_micros } = action {
        assert_eq!(batch, 0);
        assert_eq!(pause_micros, 100);
        assert_eq!(pause_micros, BURST_DELAY_MICROS);
        assert_eq!(frame.len(), 42);
        asked.push(NetworkAddress::from_octets(frame[38], frame[39], frame[40], frame[41]));
        action = scanner.step(ArpEvent::Sent);
    }
    assert_eq!(asked, targets);
    match action {
        ArpAction::OpenWindow { window_millis } => {
            assert_eq!(window_millis, 200);
            assert_eq!(window_millis, RESPONSE_WINDOW_MILLIS);
        },
        other => panic!("expected the window to open, got {:?}", other),
    }
}

#[test]
fn targets_are_sent_in_batches_of_a_hundred() {
    let targets: Vec<NetworkAddress> = (0..250u32).map(|i| NetworkAddress(0x0a00_0000 + i)).collect();
    let mut scanner = scanner();
    let mut action = scanner.sweep(targets);
    let mut batches = Vec::new();
    while let ArpAction::Transmit { batch, .. } = action {
        batches.push(batch);
        action = scanner.step(ArpEvent::Sent);
    }
    assert_eq!(batches.len(), 250);
    assert_eq!(BATCH_SIZE, 100);
    for (index, batch) in batches.iter().enumerate() {
        assert_eq!(*batch, index / 100);
    }
}

#[test]
fn a_pass_over_nothing_is_over_at_once() {
    let mut scanner = scanner();
    match scanner.fast_arp_sweep(Vec::new()) {
        ArpAction::Finish { hosts, responses } => {
            assert!(hosts.is_empty());
            assert_eq!(responses, 0);
        },
        other => panic!("expected the end, got {:?}", other),
    }
}

#[test]
fn a_reply_of_a_target_is_kept_with_its_own_address() {
    let responder = HardwareAddress(0xde, 0xad, 0xbe, 0xef, 0x00, 0x01);
    let mut scanner = listening(vec![host(20), host(21)]);
    assert!(matches!(
        scanner.step(ArpEvent::Frame(&reply_from(host(21), responder))),
        ArpAction::Receive
    ));
    let (hosts, responses) = finish(&mut scanner);
    assert_eq!(hosts, vec![(host(21), responder)]);
    assert_eq!(responses, 1);
}

#[test]
fn the_last_reply_of_an_address_wins() {
    let first = HardwareAddress(1, 1, 1, 1, 1, 1);
    let second = HardwareAddress(2, 2, 2, 2, 2, 2);
    let other = HardwareAddress(3, 3, 3, 3, 3, 3);
    let mut scanner = listening(vec![host(20), host(21)]);
    scanner.step(ArpEvent::Frame(&reply_from(host(20), first)));
    scanner.step(ArpEvent::Frame(&reply_from(host(21), other)));
    scanner.step(ArpEvent::Frame(&reply_from(host(20), second)));
    let (hosts, responses) = finish(&mut scanner);
    assert_eq!(hosts, vec![(host(20), second), (host(21), other)]);
    assert_eq!(responses, 3);
}

#[test]
fn noise_is_passed_over() {
    let hardware = HardwareAddress(9, 9, 9, 9, 9, 9);
    let mut scanner = listening(vec![host(20)]);
    scanner.step(ArpEvent::Frame(&reply_from(host(99), hardware)));
    let request = encode_frame(
        HardwareAddress::broadcast(),
        hardware,
        OPERATION_REQUEST,
        hardware,
        host(20),
        HardwareAddress::zero(),
        own_address(),
    );
    scanner.step(ArpEvent::Frame(&request));
    let mut other_protocol = reply_from(host(20), hardware);
    other_protocol[12] = 0x08;
    other_protocol[13] = 0x00;
    scanner.step(ArpEvent::Frame(&other_protocol));
    let whole = reply_from(host(20), hardware);
    scanner.step(ArpEvent::Frame(&whole[..41]));
    scanner.step(ArpEvent::Frame(&[]));
    let mut odd_operation = reply_from(host(20), hardware);
    odd_operation[21] = 3;
    scanner.step(ArpEvent::Frame(&odd_operation));
    let (hosts, responses) = finish(&mut scanner);
    assert!(hosts.is_empty());
    assert_eq!(responses, 0);
}

#[test]
fn the_own_request_is_no_reply() {
    let mut scanner = scanner();
    let frame = match scanner.sweep(vec![own_address()]) {
        ArpAction::Transmit { frame, .. } => frame,
        other => panic!("expected a request, got {:?}", other),
    };
    scanner.step(ArpEvent::Sent);
    scanner.step(ArpEvent::WindowOpened);
    scanner.step(ArpEvent::Frame(&frame));
    let (hosts, _) = finish(&mut scanner);
    assert!(hosts.is_empty());
}

#[test]
fn a_longer_frame_with_a_reply_at_its_start_is_read() {
    let hardware = HardwareAddress(9, 8, 7, 6, 5, 4);
    let mut padded = reply_from(host(20), hardware);
    padded.extend_from_slice(&[0u8; 18]);
    let mut scanner = listening(vec![host(20)]);
    scanner.step(ArpEvent::Frame(&padded));
    let (hosts, _) = finish(&mut scanner);
    assert_eq!(hosts, vec![(host(20), hardware)]);
}

#[test]
fn the_prober_rests_after_fifty_frames() {
    let mut scanner = listening(vec![host(20)]);
    for _ in 0..BURST_LIMIT - 1 {
        assert!(matches!(scanner.step(ArpEvent::Frame(&[0u8; 60])), ArpAction::Receive));
    }
    assert_eq!(BURST_LIMIT, 50);
    match scanner.step(ArpEvent::Frame(&[0u8; 60])) {
        ArpAction::Rest { millis } => {
            assert_eq!(millis, 1);
            assert_eq!(millis, REST_MILLIS);
        },
        other => panic!("expected a rest, got {:?}", other),
    }
    assert!(matches!(scanner.step(ArpEvent::Rested { elapsed_millis: 10 }), ArpAction::Receive));
    assert!(matches!(scanner.step(ArpEvent::Frame(&[0u8; 60])), ArpAction::Receive));
}

#[test]
fn the_window_closes_after_two_hundred_milliseconds() {
    let mut scanner = listening(vec![host(20)]);
    assert!(matches!(scanner.step(ArpEvent::Quiet), ArpAction::Rest { .. }));
    assert!(matches!(scanner.step(ArpEvent::Rested { elapsed_millis: 199 }), ArpAction::Receive));
    assert!(matches!(scanner.step(ArpEvent::Quiet), ArpAction::Rest { .. }));
    assert!(matches!(
        scanner.step(ArpEvent::Rested { elapsed_millis: 200 }),
        ArpAction::Finish { .. }
    ));
    assert!(matches!(scanner.step(ArpEvent::Quiet), ArpAction::Finish { .. }));
    assert!(matches!(scanner.pending(), ArpAction::Finish { .. }));
}

#[test]
fn an_event_that_is_not_awaited_changes_nothing() {
    let hardware = HardwareAddress(9, 9, 9, 9, 9, 9);
    let mut scanner = scanner();
    let first = match scanner.sweep(vec![host(20), host(21)]) {
        ArpAction::Transmit { frame, .. } => frame,
        other => panic!("expected a request, got {:?}", other),
    };
    for event in [
        ArpEvent::Quiet,
        ArpEvent::WindowOpened,
        ArpEvent::Rested { elapsed_millis: 500 },
        ArpEvent::Frame(&reply_from(host(20), hardware)),
    ] {
        match scanner.step(event) {
            ArpAction::Transmit { frame, .. } => assert_eq!(frame, first),
            other => panic!("expected the same request, got {:?}", other),
        }
    }
    scanner.step(ArpEvent::Sent);
    scanner.step(ArpEvent::Sent);
    assert!(matches!(scanner.step(ArpEvent::Sent), ArpAction::OpenWindow { .. }));
    scanner.step(ArpEvent::WindowOpened);
    let (hosts, _) = finish(&mut scanner);
    assert!(hosts.is_empty());
}

#[test]
fn a_new_pass_forgets_the_old_one() {
    let hardware = HardwareAddress(9, 9, 9, 9, 9, 9);
    let mut scanner = listening(vec![host(20)]);
    scanner.step(ArpEvent::Frame(&reply_from(host(20), hardware)));
    let (hosts, _) = finish(&mut scanner);
    assert_eq!(hosts.len(), 1);
    let mut action = scanner.sweep(vec![host(30)]);
    while let ArpAction::Transmit { .. } = action {
        action = scanner.step(ArpEvent::Sent);
    }
    scanner.step(ArpEvent::WindowOpened);
    let (hosts, responses) = finish(&mut scanner);
    assert!(hosts.is_empty());
    assert_eq!(responses, 0);
}
