use angryether::address::{HardwareAddress, NetworkAddress};
use angryether::discovery::{
    ActiveHost, ActiveHostSet, Coordinator, CoordinatorAction, CoordinatorEvent, DiscoveryMethod,
    DiscoveryMode,
};
use angryether::error::ConfigError;

const MAC: HardwareAddress = HardwareAddress(2, 0, 0, 0, 0, 1);

fn host(last: u8) -> NetworkAddress {
    NetworkAddress::from_octets(10, 0, 0, last)
}

fn sorted(mut hosts: Vec<ActiveHost>) -> Vec<(u32, DiscoveryMethod)> {
    hosts.sort_by_key(|h| h.address.0);
    hosts.into_iter().map(|h| (h.address.0, h.method)).collect()
}

fn finished(action: CoordinatorAction) -> (Vec<ActiveHost>, bool) {
    match action {
        CoordinatorAction::Finish { hosts, degraded } => (hosts, degraded),
        other => panic!("expected the end, got {:?}", other),
    }
}

#[test]
fn the_active_hosts_hold_no_address_twice() {
    let reached = [host(1), host(2), host(1), host(3), host(2)];
    let resolved = [(host(2), MAC), (host(4), MAC), (host(4), MAC)];
    let mut coordinator = Coordinator::new(DiscoveryMode::ReachabilityAndResolution);
    coordinator.step(CoordinatorEvent::Reached(&reached));
    let (hosts, degraded) = finished(coordinator.step(CoordinatorEvent::Resolved(&resolved)));
    assert!(!degraded);
    let mut addresses: Vec<u32> = hosts.iter().map(|h| h.address.0).collect();
    addresses.sort();
    let before = addresses.len();
    addresses.dedup();
    assert_eq!(addresses.len(), before);
    assert_eq!(addresses, vec![host(1).0, host(2).0, host(3).0, host(4).0]);
}

#[test]
fn a_host_found_by_both_probers_stands_once_and_is_marked_so() {
    let reached = [host(7), host(5)];
    let resolved = [(host(7), MAC), (host(9), MAC)];
    let mut coordinator = Coordinator::new(DiscoveryMode::ReachabilityAndResolution);
    coordinator.step(CoordinatorEvent::Reached(&reached));
    let (hosts, _) = finished(coordinator.step(CoordinatorEvent::Resolved(&resolved)));
    assert_eq!(hosts.iter().filter(|h| h.address == host(7)).count(), 1);
    assert_eq!(
        sorted(hosts),
        vec![
            (host(5).0, DiscoveryMethod::Reachability),
            (host(7).0, DiscoveryMethod::Both),
            (host(9).0, DiscoveryMethod::AddressResolution),
        ]
    );
}

#[test]
fn the_reports_may_come_in_either_order() {
    let reached = [host(7), host(5)];
    let resolved = [(host(7), MAC), (host(9), MAC)];
    let mut one = Coordinator::new(DiscoveryMode::ReachabilityAndResolution);
    one.step(CoordinatorEvent::Reached(&reached));
    let (first, _) = finished(one.step(CoordinatorEvent::Resolved(&resolved)));
    let mut other = Coordinator::new(DiscoveryMode::ReachabilityAndResolution);
    assert!(matches!(
        other.step(CoordinatorEvent::Resolved(&resolved)),
        CoordinatorAction::Probe { reachability: true, resolution: false }
    ));
    let (second, _) = finished(other.step(CoordinatorEvent::Reached(&reached)));
    assert_eq!(sorted(first), sorted(second));
}

#[test]
fn two_runs_over_unchanged_hosts_find_the_same_set() {
    let mut one = Coordinator::new(DiscoveryMode::ReachabilityAndResolution);
    one.step(CoordinatorEvent::Reached(&[host(1), host(2), host(3)]));
    let (first, _) = finished(one.step(CoordinatorEvent::Resolved(&[(host(3), MAC)])));
    let mut again = Coordinator::new(DiscoveryMode::ReachabilityAndResolution);
    again.step(CoordinatorEvent::Reached(&[host(3), host(1), host(2), host(1)]));
    let other = HardwareAddress(2, 0, 0, 0, 0, 9);
    let (second, _) = finished(again.step(CoordinatorEvent::Resolved(&[(host(3), other), (host(3), MAC)])));
    assert_eq!(sorted(first), sorted(second));
}

#[test]
fn a_run_says_which_probers_it_awaits() {
    assert!(matches!(
        Coordinator::new(DiscoveryMode::ReachabilityOnly).pending(),
        CoordinatorAction::Probe { reachability: true, resolution: false }
    ));
    assert!(matches!(
        Coordinator::new(DiscoveryMode::ReachabilityAndResolution).pending(),
        CoordinatorAction::Probe { reachability: true, resolution: true }
    ));
    assert!(matches!(
        Coordinator::new(DiscoveryMode::ResolutionOnly).pending(),
        CoordinatorAction::Probe { reachability: false, resolution: true }
    ));
}

#[test]
fn a_run_with_reachability_alone_ends_with_its_report() {
    let mut coordinator = Coordinator::new(DiscoveryMode::ReachabilityOnly);
    assert!(matches!(
        coordinator.step(CoordinatorEvent::Resolved(&[(host(1), MAC)])),
        CoordinatorAction::Probe { reachability: true, resolution: false }
    ));
    let (hosts, degraded) = finished(coordinator.step(CoordinatorEvent::Reached(&[host(2)])));
    assert!(!degraded);
    assert_eq!(sorted(hosts), vec![(host(2).0, DiscoveryMethod::Reachability)]);
}

#[test]
fn a_run_goes_on_without_address_resolution_when_it_has_another_prober() {
    let mut coordinator = Coordinator::new(DiscoveryMode::ReachabilityAndResolution);
    assert!(matches!(
        coordinator.step(CoordinatorEvent::Unavailable(ConfigError::ChannelUnavailable)),
        CoordinatorAction::Probe { reachability: true, resolution: false }
    ));
    let (hosts, degraded) = finished(coordinator.step(CoordinatorEvent::Reached(&[host(2)])));
    assert!(degraded);
    assert_eq!(sorted(hosts), vec![(host(2).0, DiscoveryMethod::Reachability)]);
}

#[test]
fn a_run_with_address_resolution_alone_fails_without_it() {
    for error in [
        ConfigError::ChannelUnavailable,
        ConfigError::InterfaceNotFound,
        ConfigError::UnsupportedChannel,
        ConfigError::NoHardwareAddress,
    ] {
        let mut coordinator = Coordinator::new(DiscoveryMode::ResolutionOnly);
        match coordinator.step(CoordinatorEvent::Unavailable(error)) {
            CoordinatorAction::Fail { error: found } => assert_eq!(found, error),
            other => panic!("expected a failure, got {:?}", other),
        }
        assert!(matches!(
            coordinator.step(CoordinatorEvent::Resolved(&[(host(1), MAC)])),
            CoordinatorAction::Fail { .. }
        ));
        assert!(matches!(
            coordinator.step(CoordinatorEvent::Reached(&[host(1)])),
            CoordinatorAction::Fail { .. }
        ));
    }
}

#[test]
fn a_run_with_address_resolution_alone_ends_with_its_report() {
    let mut coordinator = Coordinator::new(DiscoveryMode::ResolutionOnly);
    let (hosts, degraded) = finished(coordinator.step(CoordinatorEvent::Resolved(&[(host(1), MAC)])));
    assert!(!degraded);
    assert_eq!(sorted(hosts), vec![(host(1).0, DiscoveryMethod::AddressResolution)]);
}

#[test]
fn a_second_report_of_a_prober_is_not_taken() {
    let mut coordinator = Coordinator::new(DiscoveryMode::ReachabilityOnly);
    coordinator.step(CoordinatorEvent::Reached(&[host(1)]));
    let (hosts, _) = finished(coordinator.step(CoordinatorEvent::Reached(&[host(2)])));
    assert_eq!(sorted(hosts), vec![(host(1).0, DiscoveryMethod::Reachability)]);
}

#[test]
fn a_run_that_finds_nothing_ends_with_an_empty_set() {
    let mut coordinator = Coordinator::new(DiscoveryMode::ReachabilityAndResolution);
    coordinator.step(CoordinatorEvent::Reached(&[]));
    let (hosts, _) = finished(coordinator.step(CoordinatorEvent::Resolved(&[])));
    assert!(hosts.is_empty());
}

#[test]
fn a_set_merges_the_marks_of_a_host() {
    let mut set = ActiveHostSet::new();
    assert_eq!(set.len(), 0);
    assert!(set.insert(host(1), DiscoveryMethod::Reachability));
    assert!(!set.insert(host(1), DiscoveryMethod::Reachability));
    assert_eq!(set.method_of(host(1)), Some(DiscoveryMethod::Reachability));
    assert!(!set.insert(host(1), DiscoveryMethod::AddressResolution));
    assert_eq!(set.method_of(host(1)), Some(DiscoveryMethod::Both));
    assert!(!set.insert(host(1), DiscoveryMethod::Reachability));
    assert_eq!(set.method_of(host(1)), Some(DiscoveryMethod::Both));
    assert!(set.insert(host(2), DiscoveryMethod::AddressResolution));
    assert_eq!(set.method_of(host(2)), Some(DiscoveryMethod::AddressResolution));
    assert!(!set.insert(host(2), DiscoveryMethod::Both));
    assert_eq!(set.method_of(host(2)), Some(DiscoveryMethod::Both));
    assert_eq!(set.len(), 2);
    assert!(set.contains(host(1)));
    assert!(!set.contains(host(3)));
    assert_eq!(set.method_of(host(3)), None);
    assert_eq!(
        sorted(set.hosts()),
        vec![(host(1).0, DiscoveryMethod::Both), (host(2).0, DiscoveryMethod::Both)]
    );
}
