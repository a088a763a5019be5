//! The port scanner: which of the candidate ports of a host accept a
//! connection, and what the services behind them say.
//!
//! The scanner does no I/O. A [`PortProbe`] hands out one [`PortAction`]
//! at a time for one port; a [`PortScan`] keeps the outcomes of all ports
//! of one host, whatever the order in which they come in, and lists the
//! open ports in the order of the candidates.

use vstd::prelude::*;
pub use crate::ports::read_ports_from_file;
use crate::address::NetworkAddress;
use crate::banner::{
    banner_kind, grab_banner, spec_banner, spec_banner_kind, spec_buffer_len,
    spec_opening, spec_read_timeout_ms,
};

verus! {

/// What the probe of one port found.
#[derive(Debug)]
pub struct PortProbeResult {
    /// The port.
    pub port: u16,
    /// What the service said; empty where it said nothing or the port is
    /// not open.
    pub banner: String,
    /// Whether the connection opened.
    pub open: bool,
}

/// What the probe of one port found, as contracts see it.
pub struct PortFinding {
    /// The port.
    pub port: u16,
    /// What the service said.
    pub banner: Seq<char>,
    /// Whether the connection opened.
    pub open: bool,
}

impl View for PortProbeResult {
    type V = PortFinding;

    open spec fn view(&self) -> PortFinding {
        PortFinding { port: self.port, banner: self.banner@, open: self.open }
    }
}

impl PortProbeResult {
    /// A copy of the result.
    pub fn duplicate(&self) -> (copy: PortProbeResult)
        ensures
            copy@ == self@,
    {
        PortProbeResult { port: self.port, banner: self.banner.clone(), open: self.open }
    }
}

/// Where the probe of one port stands.
#[derive(Clone, Copy, Debug, PartialEq, Eq, Structural)]
pub enum PortStage {
    /// The connection attempt is out.
    Connect,
    /// The connection is open and the service is listened to.
    Read,
    /// The probe has ended.
    Done,
}

/// What the caller is to do next for the port.
#[derive(Debug)]
pub enum PortAction {
    /// Try to connect, `timeout_ms` at most. Report
    /// [`PortEvent::Connected`], or [`PortEvent::Unreachable`] for a
    /// refusal, a timeout or any other failure.
    Connect {
        /// The host.
        target: NetworkAddress,
        /// The port.
        port: u16,
        /// How long to wait, in milliseconds.
        timeout_ms: u64,
    },
    /// Send `request` where it is not empty, then read once, `capacity`
    /// octets and `timeout_ms` at most. Report [`PortEvent::Received`] with
    /// what the read gave (nothing where it timed out or failed), or
    /// [`PortEvent::SendFailed`] where the request could not be sent.
    Exchange {
        /// What to send first.
        request: Vec<u8>,
        /// How many octets to read at most.
        capacity: usize,
        /// How long to wait for the read, in milliseconds.
        timeout_ms: u64,
    },
    /// The probe has ended with this result.
    Done {
        /// What was found.
        result: PortProbeResult,
    },
}

/// What happened when the caller did what it was told.
pub enum PortEvent<'a> {
    /// The connection opened.
    Connected,
    /// The connection did not open in time.
    Unreachable,
    /// One read gave these octets.
    Received(&'a [u8]),
    /// The request could not be sent.
    SendFailed,
}

/// The state of the probe of one port, as contracts see it.
pub struct PortProbeState {
    /// The host.
    pub target: NetworkAddress,
    /// The port.
    pub port: u16,
    /// How long the connection attempt may take, in milliseconds.
    pub timeout_ms: u64,
    /// Where the probe stands.
    pub stage: PortStage,
    /// What has been found so far.
    pub finding: PortFinding,
}

/// The finding of a port that is not open.
pub open spec fn spec_closed(port: u16) -> PortFinding {
    PortFinding { port, banner: Seq::empty(), open: false }
}

/// The state in which the probe of a port begins. With no time at all the
/// connection attempt is not made: its deadline has passed before it
/// starts, and the port counts as not open.
pub open spec fn spec_port_begin(target: NetworkAddress, port: u16, timeout_ms: u64) -> PortProbeState {
    PortProbeState {
        target,
        port,
        timeout_ms,
        stage: if timeout_ms == 0 {
            PortStage::Done
        } else {
            PortStage::Connect
        },
        finding: spec_closed(port),
    }
}

/// The state after an event. An event that does not answer the action that
/// was handed out changes nothing.
pub open spec fn spec_port_step(state: PortProbeState, event: PortEvent) -> PortProbeState {
    match (state.stage, event) {
        (PortStage::Connect, PortEvent::Connected) => PortProbeState {
            stage: PortStage::Read,
            finding: PortFinding { port: state.port, banner: Seq::empty(), open: true },
            ..state
        },
        (PortStage::Connect, PortEvent::Unreachable) => PortProbeState {
            stage: PortStage::Done,
            ..state
        },
        (PortStage::Read, PortEvent::Received(bytes)) => PortProbeState {
            stage: PortStage::Done,
            finding: PortFinding {
                port: state.port,
                banner: spec_banner(spec_banner_kind(state.port), bytes@),
                open: true,
            },
            ..state
        },
        (PortStage::Read, PortEvent::SendFailed) => PortProbeState {
            stage: PortStage::Done,
            ..state
        },
        _ => state,
    }
}

/// Whether `action` is what the caller is to do in `state`.
pub open spec fn spec_port_pending(state: PortProbeState, action: PortAction) -> bool {
    match state.stage {
        PortStage::Connect => action matches PortAction::Connect { target, port, timeout_ms }
            && target == state.target && port == state.port && timeout_ms == state.timeout_ms,
        PortStage::Read => action matches PortAction::Exchange { request, capacity, timeout_ms }
            && request@ == spec_opening(spec_banner_kind(state.port)) && capacity
            == spec_buffer_len(spec_banner_kind(state.port)) && timeout_ms
            == spec_read_timeout_ms(spec_banner_kind(state.port)),
        PortStage::Done => action matches PortAction::Done { result } && result@
            == state.finding,
    }
}

/// Whether a state is one that the probe of a port can be in.
pub open spec fn spec_port_valid(state: PortProbeState) -> bool {
    &&& state.finding.port == state.port
    &&& state.stage == PortStage::Connect ==> state.finding == spec_closed(state.port)
    &&& state.stage == PortStage::Read ==> state.finding.open
    &&& !state.finding.open ==> state.finding == spec_closed(state.port)
}

#[derive(Clone, Copy, Debug, PartialEq, Eq, Structural)]
enum Progress {
    Connecting,
    Reading,
    Closed,
    Open,
}

/// The probe of one port of one host.
pub struct PortProbe {
    target: NetworkAddress,
    port: u16,
    timeout_ms: u64,
    progress: Progress,
    banner: String,
}

impl View for PortProbe {
    type V = PortProbeState;

    closed spec fn view(&self) -> PortProbeState {
        PortProbeState {
            target: self.target,
            port: self.port,
            timeout_ms: self.timeout_ms,
            stage: match self.progress {
                Progress::Connecting => PortStage::Connect,
                Progress::Reading => PortStage::Read,
                _ => PortStage::Done,
            },
            finding: PortFinding {
                port: self.port,
                banner: self.banner@,
                open: self.progress == Progress::Reading || self.progress == Progress::Open,
            },
        }
    }
}

impl PortProbe {
    #[verifier::type_invariant]
    spec fn quiet_until_open(self) -> bool {
        self.progress != Progress::Open ==> self.banner@ =~= Seq::<char>::empty()
    }

    /// What the caller is to do now.
    pub fn pending(&self) -> (action: PortAction)
        ensures
            spec_port_pending(self@, action),
            spec_port_valid(self@),
    {
        proof {
            use_type_invariant(self);
        }
        match self.progress {
            Progress::Connecting => PortAction::Connect {
                target: self.target,
                port: self.port,
                timeout_ms: self.timeout_ms,
            },
            Progress::Reading => {
                let kind = banner_kind(self.port);
                PortAction::Exchange {
                    request: kind.opening(),
                    capacity: kind.buffer_len(),
                    timeout_ms: kind.read_timeout_ms(),
                }
            },
            Progress::Closed => PortAction::Done {
                result: PortProbeResult {
                    port: self.port,
                    banner: self.banner.clone(),
                    open: false,
                },
            },
            Progress::Open => PortAction::Done {
                result: PortProbeResult {
                    port: self.port,
                    banner: self.banner.clone(),
                    open: true,
                },
            },
        }
    }

    /// Takes in what happened and says what to do next.
    pub fn step(&mut self, event: PortEvent) -> (action: PortAction)
        ensures
            final(self)@ == spec_port_step(old(self)@, event),
            spec_port_pending(final(self)@, action),
            spec_port_valid(final(self)@),
    {
        proof {
            use_type_invariant(&*self);
        }
        match (self.progress, event) {
            (Progress::Connecting, PortEvent::Connected) => {
                self.progress = Progress::Reading;
            },
            (Progress::Connecting, PortEvent::Unreachable) => {
                self.progress = Progress::Closed;
            },
            (Progress::Reading, PortEvent::Received(bytes)) => {
                self.progress = Progress::Open;
                self.banner = grab_banner(self.port, bytes);
            },
            (Progress::Reading, PortEvent::SendFailed) => {
                self.progress = Progress::Open;
            },
            _ => {},
        }
        self.pending()
    }
}

/// The state of the scan of one host, as contracts see it.
pub struct PortScanState {
    /// The host.
    pub target: NetworkAddress,
    /// The candidate ports, as given: neither sorted nor freed of
    /// repetitions.
    pub ports: Seq<u16>,
    /// How long each connection attempt may take, in milliseconds.
    pub timeout_ms: u64,
    /// What the probe of each candidate found, once it has ended.
    pub outcomes: Seq<Option<PortFinding>>,
}

/// The state in which the scan of a host begins.
pub open spec fn spec_scan_begin(target: NetworkAddress, ports: Seq<u16>, timeout_ms: u64) -> PortScanState {
    PortScanState {
        target,
        ports,
        timeout_ms,
        outcomes: Seq::new(ports.len(), |i: int| None::<PortFinding>),
    }
}

/// Whether the scan takes `finding` as the outcome of the candidate at
/// `index`: the candidate exists, has no outcome yet, and the finding is
/// for its port.
pub open spec fn spec_takes(state: PortScanState, index: int, finding: PortFinding) -> bool {
    0 <= index < state.outcomes.len() && state.outcomes[index] is None && finding.port
        == state.ports[index]
}

/// The state after the outcome of one candidate came in.
pub open spec fn spec_scan_record(state: PortScanState, index: int, finding: PortFinding) -> PortScanState {
    if spec_takes(state, index, finding) {
        PortScanState { outcomes: state.outcomes.update(index, Some(finding)), ..state }
    } else {
        state
    }
}

/// The findings of the open ports among the first `upto` candidates, in the
/// order of the candidates.
pub open spec fn spec_open_ports(outcomes: Seq<Option<PortFinding>>, upto: nat) -> Seq<PortFinding>
    decreases upto,
{
    if upto == 0 {
        Seq::empty()
    } else {
        match outcomes[upto - 1] {
            Some(finding) => if finding.open {
                spec_open_ports(outcomes, (upto - 1) as nat).push(finding)
            } else {
                spec_open_ports(outcomes, (upto - 1) as nat)
            },
            None => spec_open_ports(outcomes, (upto - 1) as nat),
        }
    }
}

/// Whether every candidate has its outcome.
pub open spec fn spec_complete(state: PortScanState) -> bool {
    forall|i: int| 0 <= i < state.outcomes.len() ==> (#[trigger] state.outcomes[i]) is Some
}

/// The scan of the candidate ports of one host.
pub struct PortScan {
    target: NetworkAddress,
    ports: Vec<u16>,
    timeout_ms: u64,
    outcomes: Vec<Option<PortProbeResult>>,
}

/// What a stored outcome is to contracts.
pub open spec fn spec_finding(outcome: Option<PortProbeResult>) -> Option<PortFinding> {
    match outcome {
        Some(result) => Some(result@),
        None => None,
    }
}

impl View for PortScan {
    type V = PortScanState;

    closed spec fn view(&self) -> PortScanState {
        PortScanState {
            target: self.target,
            ports: self.ports@,
            timeout_ms: self.timeout_ms,
            outcomes: self.outcomes@.map_values(|o: Option<PortProbeResult>| spec_finding(o)),
        }
    }
}

impl PortScan {
    #[verifier::type_invariant]
    spec fn one_slot_each(self) -> bool {
        self.outcomes@.len() == self.ports@.len()
    }

    /// The scan of no port of the host `0.0.0.0`, with no time for any
    /// connection: it is complete and has no open port. It stands in for a
    /// scan while that scan is being rebuilt.
    fn idle() -> (scan: PortScan)
        ensures
            scan@ == spec_scan_begin(NetworkAddress(0), Seq::empty(), 0),
            spec_complete(scan@),
    {
        let scan = PortScan {
            target: NetworkAddress(0),
            ports: Vec::new(),
            timeout_ms: 0,
            outcomes: Vec::new(),
        };
        assert(scan@.outcomes =~= spec_scan_begin(NetworkAddress(0), Seq::empty(), 0).outcomes);
        scan
    }

    fn recorded(self, index: usize, result: PortProbeResult) -> (next: (PortScan, bool))
        ensures
            next.1 == spec_takes(self@, index as int, result@),
            next.0@ == spec_scan_record(self@, index as int, result@),
    {
        proof {
            use_type_invariant(&self);
        }
        let PortScan { target, ports, timeout_ms, outcomes } = self;
        let mut outcomes = outcomes;
        let ghost before = outcomes@;
        if index < outcomes.len() && outcomes[index].is_none() && result.port == ports[index] {
            let ghost finding = result@;
            outcomes.set(index, Some(result));
            let next = PortScan { target, ports, timeout_ms, outcomes };
            assert(next@.outcomes =~= self@.outcomes.update(index as int, Some(finding)));
            (next, true)
        } else {
            (PortScan { target, ports, timeout_ms, outcomes }, false)
        }
    }

    /// How many candidates there are.
    pub fn len(&self) -> (n: usize)
        ensures
            n == self@.ports.len(),
            self@.outcomes.len() == self@.ports.len(),
    {
        proof {
            use_type_invariant(self);
        }
        self.ports.len()
    }

    /// Begins the probe of the candidate at `index`; `None` where there is
    /// no such candidate.
    pub fn probe(&self, index: usize) -> (probe: Option<PortProbe>)
        ensures
            match probe {
                Some(p) => index < self@.ports.len() && p@ == spec_port_begin(
                    self@.target,
                    self@.ports[index as int],
                    self@.timeout_ms,
                ) && spec_port_valid(p@),
                None => index >= self@.ports.len(),
            },
    {
        if index < self.ports.len() {
            Some(begin_probe(self.target, self.ports[index], self.timeout_ms))
        } else {
            None
        }
    }

    /// Takes in the outcome of the candidate at `index`. An outcome for a
    /// candidate that does not exist or already has one, or for another
    /// port than the candidate's, is ignored.
    pub fn record(&mut self, index: usize, result: PortProbeResult) -> (taken: bool)
        ensures
            taken == spec_takes(old(self)@, index as int, result@),
            final(self)@ == spec_scan_record(old(self)@, index as int, result@),
            final(self)@.outcomes.len() == final(self)@.ports.len(),
    {
        let mut current = PortScan::idle();
        core::mem::swap(self, &mut current);
        let (next, taken) = current.recorded(index, result);
        *self = next;
        proof {
            use_type_invariant(&*self);
        }
        taken
    }

    /// Whether every candidate has its outcome.
    pub fn is_complete(&self) -> (complete: bool)
        ensures
            complete == spec_complete(self@),
    {
        let mut i: usize = 0;
        while i < self.outcomes.len()
            invariant
                i <= self.outcomes@.len(),
                forall|k: int| 0 <= k < i ==> (#[trigger] self@.outcomes[k]) is Some,
            decreases self.outcomes.len() - i,
        {
            if self.outcomes[i].is_none() {
                assert(self@.outcomes[i as int] is None);
                return false;
            }
            assert(self@.outcomes[i as int] is Some);
            i = i + 1;
        }
        true
    }

    /// The open ports so far, in the order of the candidates, whatever the
    /// order in which their outcomes came in. A port that did not open, or
    /// has no outcome yet, has no entry.
    pub fn open_ports(&self) -> (open: Vec<PortProbeResult>)
        ensures
            open@.len() == spec_open_ports(self@.outcomes, self@.outcomes.len()).len(),
            forall|i: int|
                0 <= i < open@.len() ==> (#[trigger] open@[i])@ == spec_open_ports(
                    self@.outcomes,
                    self@.outcomes.len(),
                )[i],
    {
        let mut open: Vec<PortProbeResult> = Vec::new();
        let mut i: usize = 0;
        while i < self.outcomes.len()
            invariant
                i <= self.outcomes@.len(),
                open@.len() == spec_open_ports(self@.outcomes, i as nat).len(),
                forall|k: int|
                    0 <= k < open@.len() ==> (#[trigger] open@[k])@ == spec_open_ports(
                        self@.outcomes,
                        i as nat,
                    )[k],
            decreases self.outcomes.len() - i,
        {
            assert(self@.outcomes[i as int] == spec_finding(self.outcomes@[i as int]));
            match &self.outcomes[i] {
                Some(result) => {
                    if result.open {
                        open.push(result.duplicate());
                    }
                },
                None => {},
            }
            i = i + 1;
        }
        open
    }
}

fn begin_probe(target: NetworkAddress, port: u16, timeout_ms: u64) -> (probe: PortProbe)
    ensures
        probe@ == spec_port_begin(target, port, timeout_ms),
        spec_port_valid(probe@),
{
    PortProbe {
        target,
        port,
        timeout_ms,
        progress: if timeout_ms == 0 {
            Progress::Closed
        } else {
            Progress::Connecting
        },
        banner: String::new(),
    }
}

/// The port scanner.
#[derive(Clone, Copy, Debug)]
pub struct PortScanner {
    timeout_ms: u64,
}

impl PortScanner {
    /// How long each connection attempt may take, in milliseconds.
    pub closed spec fn spec_timeout_ms(&self) -> u64 {
        self.timeout_ms
    }

    /// A scanner that gives each connection attempt `timeout_ms`
    /// milliseconds.
    pub fn new(timeout_ms: u64) -> (scanner: PortScanner)
        ensures
            scanner.spec_timeout_ms() == timeout_ms,
    {
        PortScanner { timeout_ms }
    }

    /// How long each connection attempt may take, in milliseconds.
    pub fn timeout_ms(&self) -> (ms: u64)
        ensures
            ms == self.spec_timeout_ms(),
    {
        self.timeout_ms
    }

    /// Begins the probe of one port.
    pub fn check_port(&self, ip: NetworkAddress, port: u16) -> (probe: PortProbe)
        ensures
            probe@ == spec_port_begin(ip, port, self.spec_timeout_ms()),
            spec_port_valid(probe@),
    {
        begin_probe(ip, port, self.timeout_ms)
    }

    /// Begins the scan of the candidate ports of one host. The candidates
    /// are taken as given, in their order and with their repetitions.
    pub fn scan_ports(&self, ip: NetworkAddress, ports: &[u16]) -> (scan: PortScan)
        ensures
            scan@ == spec_scan_begin(ip, ports@, self.spec_timeout_ms()),
    {
        let mut candidates: Vec<u16> = Vec::new();
        let mut outcomes: Vec<Option<PortProbeResult>> = Vec::new();
        let mut i: usize = 0;
        while i < ports.len()
            invariant
                i <= ports@.len(),
                candidates@ == ports@.take(i as int),
                outcomes@.len() == i,
                forall|k: int| 0 <= k < i ==> (#[trigger] outcomes@[k]) is None,
            decreases ports.len() - i,
        {
            candidates.push(ports[i]);
            outcomes.push(None);
            i = i + 1;
        }
        assert(ports@.take(i as int) == ports@);
        let scan = PortScan { target: ip, ports: candidates, timeout_ms: self.timeout_ms, outcomes };
        assert(scan@.outcomes =~= spec_scan_begin(ip, ports@, self.timeout_ms).outcomes);
        scan
    }
}

/// Outcomes of different candidates may come in either order: the scan ends
/// up the same.
pub proof fn lemma_record_commutes(
    state: PortScanState,
    first: int,
    found_first: PortFinding,
    second: int,
    found_second: PortFinding,
)
    requires
        first != second,
        state.outcomes.len() == state.ports.len(),
    ensures
        spec_scan_record(spec_scan_record(state, first, found_first), second, found_second)
            == spec_scan_record(spec_scan_record(state, second, found_second), first, found_first),
{
    let a = spec_scan_record(spec_scan_record(state, first, found_first), second, found_second);
    let b = spec_scan_record(spec_scan_record(state, second, found_second), first, found_first);
    assert(a.outcomes =~= b.outcomes);
}

/// Every entry of the list of open ports is open, and a candidate whose
/// connection did not open adds no entry, not even one with an empty
/// banner.
pub proof fn lemma_open_ports_are_open(outcomes: Seq<Option<PortFinding>>, upto: nat)
    requires
        upto <= outcomes.len(),
    ensures
        forall|i: int|
            0 <= i < spec_open_ports(outcomes, upto).len() ==> (#[trigger] spec_open_ports(
                outcomes,
                upto,
            )[i]).open,
        spec_open_ports(outcomes, upto).len() <= upto,
        upto > 0 && !(outcomes[upto - 1] matches Some(f) && f.open) ==> spec_open_ports(
            outcomes,
            upto,
        ) == spec_open_ports(outcomes, (upto - 1) as nat),
    decreases upto,
{
    if upto > 0 {
        lemma_open_ports_are_open(outcomes, (upto - 1) as nat);
    }
}

/// With no time at all the probe of a port is over before anything is
/// sent: the port counts as not open, and no event changes that.
pub proof fn lemma_zero_budget_closed(target: NetworkAddress, port: u16, event: PortEvent)
    ensures
        spec_port_begin(target, port, 0).stage == PortStage::Done,
        spec_port_begin(target, port, 0).finding == spec_closed(port),
        spec_port_step(spec_port_begin(target, port, 0), event) == spec_port_begin(target, port, 0),
{
}

} // verus!
