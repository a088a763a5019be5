//! The scan session: what one run of the scanner was asked to do and what
//! it found. A session is made once, filled by discovery and then by the
//! port scans, and handed to whoever reports on it.

use vstd::prelude::*;
use crate::address::NetworkAddress;
use crate::discovery::{ActiveHost, spec_lists, spec_unique};
use crate::network::{Subnet, SubnetSpec};
use crate::portscan::{PortFinding, PortProbeResult};

verus! {

/// Where a session stands.
#[derive(Clone, Copy, Debug, PartialEq, Eq, Structural)]
pub enum SessionStage {
    /// Nothing has been found yet.
    Created,
    /// The active hosts are known; their ports are being scanned.
    Discovered,
}

/// What was found of one active host.
#[derive(Debug)]
pub struct HostReport {
    /// The host.
    pub host: ActiveHost,
    /// Its open ports, in the order of the candidates; none where the host
    /// was not scanned.
    pub open_ports: Vec<PortProbeResult>,
}

/// A session as contracts see it.
pub struct SessionState {
    /// The subnet that is scanned.
    pub subnet: SubnetSpec,
    /// The candidate ports, as given.
    pub ports: Seq<u16>,
    /// The timeout budget, in milliseconds.
    pub timeout_ms: u64,
    /// Where the session stands.
    pub stage: SessionStage,
    /// The active hosts, each once.
    pub hosts: Seq<ActiveHost>,
    /// For each active host, its open ports once it was scanned.
    pub scans: Seq<Option<Seq<PortFinding>>>,
}

/// The findings of a list of results.
pub open spec fn spec_findings(results: Seq<PortProbeResult>) -> Seq<PortFinding> {
    results.map_values(|r: PortProbeResult| r@)
}

/// What a stored scan is to contracts.
pub open spec fn spec_scan(scan: Option<Vec<PortProbeResult>>) -> Option<Seq<PortFinding>> {
    match scan {
        Some(results) => Some(spec_findings(results@)),
        None => None,
    }
}

/// Where `address` stands among the hosts, if it does.
pub open spec fn spec_host_index(hosts: Seq<ActiveHost>, address: NetworkAddress) -> Option<int> {
    if spec_lists(hosts, address) {
        Some(choose|i: int| 0 <= i < hosts.len() && (#[trigger] hosts[i]).address == address)
    } else {
        None
    }
}

/// Whether a session takes a scan of `address`: the hosts are known, the
/// address is one of them, and it has no scan yet.
pub open spec fn spec_accepts_scan(state: SessionState, address: NetworkAddress) -> bool {
    &&& state.stage == SessionStage::Discovered
    &&& spec_host_index(state.hosts, address) matches Some(i)
    &&& state.scans[i] is None
}

/// A scan session.
pub struct ScanSession {
    subnet: Subnet,
    ports: Vec<u16>,
    timeout_ms: u64,
    stage: SessionStage,
    hosts: Vec<ActiveHost>,
    scans: Vec<Option<Vec<PortProbeResult>>>,
}

impl View for ScanSession {
    type V = SessionState;

    closed spec fn view(&self) -> SessionState {
        SessionState {
            subnet: self.subnet@,
            ports: self.ports@,
            timeout_ms: self.timeout_ms,
            stage: self.stage,
            hosts: self.hosts@,
            scans: self.scans@.map_values(|s: Option<Vec<PortProbeResult>>| spec_scan(s)),
        }
    }
}

/// Whether a state is one that a session can be in: no host stands twice,
/// every host has its place for a scan, and nothing is scanned before
/// discovery.
pub open spec fn spec_session_valid(state: SessionState) -> bool {
    &&& spec_unique(state.hosts)
    &&& state.scans.len() == state.hosts.len()
    &&& state.stage == SessionStage::Created ==> state.hosts.len() == 0
}

impl ScanSession {
    #[verifier::type_invariant]
    spec fn in_order(self) -> bool {
        spec_session_valid(self@)
    }

    /// A session for the subnet, the candidate ports and the budget of one
    /// run.
    pub fn new(subnet: Subnet, ports: Vec<u16>, timeout_ms: u64) -> (session: ScanSession)
        ensures
            session@ == (SessionState {
                subnet: subnet@,
                ports: ports@,
                timeout_ms,
                stage: SessionStage::Created,
                hosts: Seq::empty(),
                scans: Seq::empty(),
            }),
    {
        let session = ScanSession {
            subnet,
            ports,
            timeout_ms,
            stage: SessionStage::Created,
            hosts: Vec::new(),
            scans: Vec::new(),
        };
        assert(session@.scans =~= Seq::empty());
        session
    }

    /// The candidate ports.
    pub fn ports(&self) -> (ports: &[u16])
        ensures
            ports@ == self@.ports,
    {
        self.ports.as_slice()
    }

    /// The timeout budget, in milliseconds.
    pub fn timeout_ms(&self) -> (ms: u64)
        ensures
            ms == self@.timeout_ms,
    {
        self.timeout_ms
    }

    /// The subnet that is scanned.
    pub fn subnet(&self) -> (subnet: Subnet)
        ensures
            subnet@ == self@.subnet,
    {
        self.subnet
    }

    fn discovered(self, hosts: Vec<ActiveHost>) -> (next: (ScanSession, bool))
        ensures
            next.1 == (self@.stage == SessionStage::Created && spec_unique(hosts@)),
            next.1 ==> next.0@ == (SessionState {
                stage: SessionStage::Discovered,
                hosts: hosts@,
                scans: Seq::new(hosts@.len(), |i: int| None::<Seq<PortFinding>>),
                ..self@
            }),
            !next.1 ==> next.0@ == self@,
    {
        proof {
            use_type_invariant(&self);
        }
        if self.stage != SessionStage::Created || !is_unique(&hosts) {
            return (self, false);
        }
        let ScanSession { subnet, ports, timeout_ms, stage, hosts: _, scans: _ } = self;
        let mut scans: Vec<Option<Vec<PortProbeResult>>> = Vec::new();
        let mut i: usize = 0;
        while i < hosts.len()
            invariant
                i <= hosts@.len(),
                scans@.len() == i,
                forall|k: int| 0 <= k < i ==> (#[trigger] scans@[k]) is None,
            decreases hosts.len() - i,
        {
            scans.push(None);
            i = i + 1;
        }
        let next = ScanSession {
            subnet,
            ports,
            timeout_ms,
            stage: SessionStage::Discovered,
            hosts,
            scans,
        };
        assert(next@.scans =~= Seq::new(next@.hosts.len(), |i: int| None::<Seq<PortFinding>>));
        (next, true)
    }

    /// Takes in what discovery found. A list that names a host twice is
    /// not taken, and neither is a second list.
    pub fn set_active_hosts(&mut self, hosts: Vec<ActiveHost>) -> (taken: bool)
        ensures
            taken == (old(self)@.stage == SessionStage::Created && spec_unique(hosts@)),
            taken ==> final(self)@ == (SessionState {
                stage: SessionStage::Discovered,
                hosts: hosts@,
                scans: Seq::new(hosts@.len(), |i: int| None::<Seq<PortFinding>>),
                ..old(self)@
            }),
            !taken ==> final(self)@ == old(self)@,
            spec_session_valid(final(self)@),
    {
        let mut current = ScanSession::new(self.subnet, Vec::new(), 0);
        core::mem::swap(self, &mut current);
        let (next, taken) = current.discovered(hosts);
        *self = next;
        proof {
            use_type_invariant(&*self);
        }
        taken
    }

    fn scanned(self, address: NetworkAddress, open_ports: Vec<PortProbeResult>) -> (next: (
        ScanSession,
        bool,
    ))
        ensures
            next.1 == spec_accepts_scan(self@, address),
            next.1 ==> next.0@ == (SessionState {
                scans: self@.scans.update(
                    spec_host_index(self@.hosts, address)->Some_0,
                    Some(spec_findings(open_ports@)),
                ),
                ..self@
            }),
            !next.1 ==> next.0@ == self@,
    {
        proof {
            use_type_invariant(&self);
        }
        if self.stage != SessionStage::Discovered {
            return (self, false);
        }
        let mut i: usize = 0;
        while i < self.hosts.len()
            invariant
                i <= self.hosts@.len(),
                spec_session_valid(self@),
                self.stage == SessionStage::Discovered,
                forall|k: int| 0 <= k < i ==> (#[trigger] self.hosts@[k]).address != address,
            decreases self.hosts.len() - i,
        {
            if self.hosts[i].address == address {
                let ghost chosen = spec_host_index(self.hosts@, address)->Some_0;
                assert(chosen == i) by {
                    if chosen < i {
                        assert(self.hosts@[chosen].address != self.hosts@[i as int].address);
                    }
                    if chosen > i {
                        assert(self.hosts@[i as int].address != self.hosts@[chosen].address);
                    }
                }
                assert(self@.scans[i as int] == spec_scan(self.scans@[i as int]));
                if self.scans[i].is_some() {
                    return (self, false);
                }
                let ghost before = self@;
                let ghost findings = spec_findings(open_ports@);
                let ScanSession { subnet, ports, timeout_ms, stage, hosts, scans } = self;
                let mut scans = scans;
                scans.set(i, Some(open_ports));
                let next = ScanSession { subnet, ports, timeout_ms, stage, hosts, scans };
                assert(next@.scans =~= before.scans.update(i as int, Some(findings)));
                return (next, true);
            }
            i = i + 1;
        }
        (self, false)
    }

    /// Takes in the open ports of one active host. A scan of an address
    /// that is no active host, or that was scanned before, is not taken.
    pub fn record_ports(&mut self, address: NetworkAddress, open_ports: Vec<PortProbeResult>) -> (taken:
        bool)
        ensures
            taken == spec_accepts_scan(old(self)@, address),
            taken ==> final(self)@ == (SessionState {
                scans: old(self)@.scans.update(
                    spec_host_index(old(self)@.hosts, address)->Some_0,
                    Some(spec_findings(open_ports@)),
                ),
                ..old(self)@
            }),
            !taken ==> final(self)@ == old(self)@,
            spec_session_valid(final(self)@),
    {
        let mut current = ScanSession::new(self.subnet, Vec::new(), 0);
        core::mem::swap(self, &mut current);
        let (next, taken) = current.scanned(address, open_ports);
        *self = next;
        proof {
            use_type_invariant(&*self);
        }
        taken
    }

    /// The active hosts, each once.
    pub fn active_hosts(&self) -> (hosts: &[ActiveHost])
        ensures
            hosts@ == self@.hosts,
    {
        self.hosts.as_slice()
    }

    /// Hands the findings over: one report for each active host, in the
    /// order of the hosts, with the open ports of those that were scanned.
    pub fn into_reports(self) -> (reports: Vec<HostReport>)
        ensures
            reports@.len() == self@.hosts.len(),
            forall|i: int|
                0 <= i < reports@.len() ==> (#[trigger] reports@[i]).host == self@.hosts[i]
                    && spec_findings(reports@[i].open_ports@) == match self@.scans[i] {
                    Some(findings) => findings,
                    None => Seq::<PortFinding>::empty(),
                },
    {
        proof {
            use_type_invariant(&self);
        }
        let ghost state = self@;
        let ScanSession { subnet, ports, timeout_ms, stage, hosts, scans } = self;
        let mut hosts = hosts;
        let mut scans = scans;
        let ghost all_hosts = hosts@;
        let ghost all_scans = scans@;
        let mut reversed: Vec<HostReport> = Vec::new();
        while hosts.len() > 0
            invariant
                hosts@.len() == scans@.len(),
                hosts@.len() + reversed@.len() == all_hosts.len(),
                all_scans.len() == all_hosts.len(),
                hosts@ == all_hosts.take(hosts@.len() as int),
                scans@ == all_scans.take(hosts@.len() as int),
                forall|k: int|
                    0 <= k < reversed@.len() ==> (#[trigger] reversed@[k]).host == all_hosts[
                    all_hosts.len() - 1 - k] && spec_findings(reversed@[k].open_ports@)
                        == match spec_scan(all_scans[all_scans.len() - 1 - k]) {
                        Some(findings) => findings,
                        None => Seq::<PortFinding>::empty(),
                    },
            decreases hosts.len(),
        {
            let host = hosts.pop().unwrap();
            let scan = scans.pop().unwrap();
            let open_ports = match scan {
                Some(results) => results,
                None => {
                    let none: Vec<PortProbeResult> = Vec::new();
                    assert(spec_findings(none@) =~= Seq::<PortFinding>::empty());
                    none
                },
            };
            reversed.push(HostReport { host, open_ports });
        }
        let mut reports: Vec<HostReport> = Vec::new();
        let ghost turned = reversed@;
        while reversed.len() > 0
            invariant
                reversed@.len() + reports@.len() == turned.len(),
                reversed@ == turned.take(reversed@.len() as int),
                forall|k: int|
                    0 <= k < reports@.len() ==> (#[trigger] reports@[k]) == turned[turned.len() - 1
                        - k],
            decreases reversed.len(),
        {
            let report = reversed.pop().unwrap();
            reports.push(report);
        }
        assert forall|i: int| 0 <= i < reports@.len() implies (#[trigger] reports@[i]).host
            == state.hosts[i] && spec_findings(reports@[i].open_ports@) == match state.scans[i] {
            Some(findings) => findings,
            None => Seq::<PortFinding>::empty(),
        } by {
            let k = turned.len() - 1 - i;
            assert(reports@[i] == turned[k]);
            assert(state.scans[i] == spec_scan(all_scans[i]));
        }
        reports
    }
}

fn is_unique(hosts: &Vec<ActiveHost>) -> (unique: bool)
    ensures
        unique == spec_unique(hosts@),
{
    let mut j: usize = 0;
    while j < hosts.len()
        invariant
            j <= hosts@.len(),
            forall|a: int, b: int|
                0 <= a < b < j ==> (#[trigger] hosts@[a]).address != (#[trigger] hosts@[b]).address,
        decreases hosts.len() - j,
    {
        let mut i: usize = 0;
        while i < j
            invariant
                i <= j < hosts@.len(),
                forall|a: int| 0 <= a < i ==> (#[trigger] hosts@[a]).address != hosts@[j as int].address,
            decreases j - i,
        {
            if hosts[i].address == hosts[j].address {
                return false;
            }
            i = i + 1;
        }
        j = j + 1;
    }
    true
}

} // verus!
