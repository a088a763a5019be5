//! The address-resolution prober: it asks every target for its hardware
//! address with one broadcast request each, then listens for a fixed time
//! and keeps the replies of the targets it asked for.
//!
//! The prober does no I/O. [`ArpScanner::sweep`] and [`ArpScanner::step`]
//! hand out one [`ArpAction`] at a time; the caller performs it on the raw
//! channel that it owns and reports what happened as an [`ArpEvent`].

use vstd::prelude::*;
pub use crate::arp_cache::read_system_arp_cache;
use crate::address::{HardwareAddress, NetworkAddress};
use crate::error::ConfigError;
use crate::frame::{
    OperationKind, ProbeRequest, decode, spec_decode, spec_frame,
    spec_request_frame, lemma_frame_roundtrip, FRAME_LEN, OPERATION_REPLY, OPERATION_REQUEST,
};

verus! {

/// How many targets make one batch of requests.
pub const BATCH_SIZE: usize = 100;

/// The pause after each request, in microseconds, which keeps the outbound
/// queue from filling up.
pub const BURST_DELAY_MICROS: u64 = 100;

/// How long replies are collected after the last request, in milliseconds.
pub const RESPONSE_WINDOW_MILLIS: u64 = 200;

/// How many inbound frames are taken in a row before the prober rests.
pub const BURST_LIMIT: usize = 50;

/// How long the prober rests between two bursts of reading, in milliseconds.
pub const REST_MILLIS: u64 = 1;

/// The interface that probes are sent from.
#[derive(Clone, Copy, Debug, PartialEq, Eq, Structural)]
pub struct InterfaceIdentity {
    /// Its network address.
    pub address: NetworkAddress,
    /// Its hardware address.
    pub hardware: HardwareAddress,
}

/// What the system knows of an interface before a channel is opened on it.
#[derive(Clone, Copy, Debug, PartialEq, Eq, Structural)]
pub struct LinkInterface {
    /// Its hardware address, if it has one.
    pub hardware: Option<HardwareAddress>,
    /// Its first IPv4 address, if it has one.
    pub address: Option<NetworkAddress>,
}

/// How the attempt to open a raw channel on the interface ended.
#[derive(Clone, Copy, Debug, PartialEq, Eq, Structural)]
pub enum ChannelOutcome {
    /// An Ethernet channel is open.
    Ethernet,
    /// A channel is open, but it does not carry Ethernet frames.
    Unsupported,
    /// No channel could be opened: the privilege is missing or the
    /// interface is gone.
    Failed,
}

/// Where a discovery pass stands.
#[derive(Clone, Copy, Debug, PartialEq, Eq, Structural)]
pub enum ArpPhase {
    /// Requests are going out.
    Sending,
    /// All requests are out; the collection window is about to open.
    Opening,
    /// Inbound frames are being taken.
    Listening,
    /// The prober rests between two bursts of reading.
    Resting,
    /// The pass is over.
    Done,
}

/// What the caller is to do next.
#[derive(Debug)]
pub enum ArpAction {
    /// Send the frame, ignore whether that worked, wait for `pause_micros`
    /// microseconds, then report [`ArpEvent::Sent`].
    Transmit {
        /// The request frame.
        frame: Vec<u8>,
        /// The batch that the target belongs to, counted from zero.
        batch: usize,
        /// The pause after sending.
        pause_micros: u64,
    },
    /// Start the clock of the collection window, then report
    /// [`ArpEvent::WindowOpened`].
    OpenWindow {
        /// How long the window lasts.
        window_millis: u64,
    },
    /// Take one inbound frame if one is there: report [`ArpEvent::Frame`]
    /// with it, or [`ArpEvent::Quiet`].
    Receive,
    /// Wait for `millis` milliseconds, then report [`ArpEvent::Rested`] with
    /// the time since the window opened.
    Rest {
        /// How long to wait.
        millis: u64,
    },
    /// The pass is over: these are the hosts that answered.
    Finish {
        /// One pair for each address that answered, with the hardware
        /// address of its last reply.
        hosts: Vec<(NetworkAddress, HardwareAddress)>,
        /// How many replies were kept, counting repeated ones.
        responses: u64,
    },
}

/// What happened when the caller did what it was told.
pub enum ArpEvent<'a> {
    /// The frame went out, or failed to, and the pause is over.
    Sent,
    /// The clock of the collection window runs.
    WindowOpened,
    /// A frame came in.
    Frame(&'a [u8]),
    /// No frame is waiting.
    Quiet,
    /// The rest is over.
    Rested {
        /// Milliseconds since the collection window opened.
        elapsed_millis: u64,
    },
}

/// The state of a prober, as contracts see it.
pub struct ArpScanState {
    /// The interface that asks.
    pub identity: InterfaceIdentity,
    /// The targets of the pass, in the order in which they are asked.
    pub targets: Seq<NetworkAddress>,
    /// Where the pass stands.
    pub phase: ArpPhase,
    /// How many requests were handed out.
    pub sent: nat,
    /// How many frames were taken in the current burst.
    pub burst: nat,
    /// Every frame that came in during the pass, in order of arrival.
    pub heard: Seq<Seq<u8>>,
}

/// The pair that a frame adds to the result: its sender's addresses, where
/// the frame is a reply and the sender is one of the targets. Everything
/// else that comes in is noise.
pub open spec fn spec_accepted(targets: Seq<NetworkAddress>, frame: Seq<u8>) -> Option<
    (NetworkAddress, HardwareAddress),
> {
    match spec_decode(frame) {
        Some(reply) => if reply.operation == OperationKind::Reply && targets.contains(
            reply.sender,
        ) {
            Some((reply.sender, reply.sender_hardware))
        } else {
            None
        },
        None => None,
    }
}

/// Whether some pair of `found` is for `address`.
pub open spec fn spec_knows(
    found: Seq<(NetworkAddress, HardwareAddress)>,
    address: NetworkAddress,
) -> bool {
    exists|i: int| 0 <= i < found.len() && (#[trigger] found[i]).0 == address
}

/// `found` with `address` at `hardware`: the pair of that address is
/// overwritten where there is one, else a pair is added at the end.
pub open spec fn spec_record(
    found: Seq<(NetworkAddress, HardwareAddress)>,
    address: NetworkAddress,
    hardware: HardwareAddress,
) -> Seq<(NetworkAddress, HardwareAddress)> {
    if spec_knows(found, address) {
        let i = choose|i: int| 0 <= i < found.len() && (#[trigger] found[i]).0 == address;
        found.update(i, (address, hardware))
    } else {
        found.push((address, hardware))
    }
}

/// The pairs that a run of inbound frames leaves behind: each accepted reply
/// is recorded in turn, so of two replies from one address the later wins.
pub open spec fn spec_collect(targets: Seq<NetworkAddress>, heard: Seq<Seq<u8>>) -> Seq<
    (NetworkAddress, HardwareAddress),
>
    decreases heard.len(),
{
    if heard.len() == 0 {
        Seq::empty()
    } else {
        let before = spec_collect(targets, heard.drop_last());
        match spec_accepted(targets, heard.last()) {
            Some((address, hardware)) => spec_record(before, address, hardware),
            None => before,
        }
    }
}

/// How many of the frames were accepted.
pub open spec fn spec_responses(targets: Seq<NetworkAddress>, heard: Seq<Seq<u8>>) -> nat
    decreases heard.len(),
{
    if heard.len() == 0 {
        0
    } else if spec_accepted(targets, heard.last()) is Some {
        spec_responses(targets, heard.drop_last()) + 1
    } else {
        spec_responses(targets, heard.drop_last())
    }
}

/// Whether no address occurs in two pairs.
pub open spec fn spec_distinct(found: Seq<(NetworkAddress, HardwareAddress)>) -> bool {
    forall|i: int, j: int|
        0 <= i < j < found.len() ==> (#[trigger] found[i]).0 != (#[trigger] found[j]).0
}

/// The state in which a pass over `targets` begins.
pub open spec fn spec_begin(identity: InterfaceIdentity, targets: Seq<NetworkAddress>) -> ArpScanState {
    ArpScanState {
        identity,
        targets,
        phase: if targets.len() == 0 {
            ArpPhase::Done
        } else {
            ArpPhase::Sending
        },
        sent: if targets.len() == 0 {
            0
        } else {
            1
        },
        burst: 0,
        heard: Seq::empty(),
    }
}

/// The state after an event. An event that does not answer the action that
/// was handed out changes nothing.
pub open spec fn spec_step(state: ArpScanState, event: ArpEvent) -> ArpScanState {
    match (state.phase, event) {
        (ArpPhase::Sending, ArpEvent::Sent) => if state.sent < state.targets.len() {
            ArpScanState { sent: state.sent + 1, ..state }
        } else {
            ArpScanState { phase: ArpPhase::Opening, ..state }
        },
        (ArpPhase::Opening, ArpEvent::WindowOpened) => ArpScanState {
            phase: ArpPhase::Listening,
            burst: 0,
            ..state
        },
        (ArpPhase::Listening, ArpEvent::Frame(bytes)) => ArpScanState {
            phase: if state.burst + 1 < BURST_LIMIT {
                ArpPhase::Listening
            } else {
                ArpPhase::Resting
            },
            burst: state.burst + 1,
            heard: state.heard.push(bytes@),
            ..state
        },
        (ArpPhase::Listening, ArpEvent::Quiet) => ArpScanState {
            phase: ArpPhase::Resting,
            ..state
        },
        (ArpPhase::Resting, ArpEvent::Rested { elapsed_millis }) => if elapsed_millis
            < RESPONSE_WINDOW_MILLIS {
            ArpScanState { phase: ArpPhase::Listening, burst: 0, ..state }
        } else {
            ArpScanState { phase: ArpPhase::Done, ..state }
        },
        _ => state,
    }
}

/// The request that goes out for the target at `index`.
pub open spec fn spec_request(state: ArpScanState, index: int) -> ProbeRequest {
    ProbeRequest {
        target: state.targets[index],
        own_address: state.identity.address,
        own_hardware: state.identity.hardware,
    }
}

/// Whether `action` is what the caller is to do in `state`.
pub open spec fn spec_pending(state: ArpScanState, action: ArpAction) -> bool {
    match state.phase {
        ArpPhase::Sending => action matches ArpAction::Transmit { frame, batch, pause_micros }
            && frame@ == spec_request_frame(spec_request(state, state.sent - 1)) && batch == (
        state.sent - 1) / (BATCH_SIZE as int) && pause_micros == BURST_DELAY_MICROS,
        ArpPhase::Opening => action matches ArpAction::OpenWindow { window_millis }
            && window_millis == RESPONSE_WINDOW_MILLIS,
        ArpPhase::Listening => action is Receive,
        ArpPhase::Resting => action matches ArpAction::Rest { millis } && millis == REST_MILLIS,
        ArpPhase::Done => action matches ArpAction::Finish { hosts, responses } && hosts@
            == spec_collect(state.targets, state.heard) && responses == if spec_responses(
            state.targets,
            state.heard,
        ) <= u64::MAX {
            spec_responses(state.targets, state.heard)
        } else {
            u64::MAX as nat
        },
    }
}

/// The link-layer prober of one interface.
pub struct ArpScanner {
    identity: InterfaceIdentity,
    targets: Vec<NetworkAddress>,
    phase: ArpPhase,
    sent: usize,
    burst: usize,
    discovered: Vec<(NetworkAddress, HardwareAddress)>,
    responses: u64,
    heard: Ghost<Seq<Seq<u8>>>,
}

impl View for ArpScanner {
    type V = ArpScanState;

    closed spec fn view(&self) -> ArpScanState {
        ArpScanState {
            identity: self.identity,
            targets: self.targets@,
            phase: self.phase,
            sent: self.sent as nat,
            burst: self.burst as nat,
            heard: self.heard@,
        }
    }
}

/// Whether a state is one that a pass can be in.
pub open spec fn spec_valid(state: ArpScanState) -> bool {
    &&& state.sent <= state.targets.len()
    &&& state.burst <= BURST_LIMIT
    &&& state.phase == ArpPhase::Sending ==> state.sent >= 1
    &&& state.phase == ArpPhase::Listening ==> state.burst < BURST_LIMIT
    &&& state.phase != ArpPhase::Sending && state.targets.len() > 0 ==> state.sent
        == state.targets.len()
    &&& state.targets.len() == 0 ==> state.phase == ArpPhase::Done && state.heard.len() == 0
}

/// What opening the prober on an interface gives: the identity to send
/// from, or the reason why link-layer probing cannot be had.
pub open spec fn spec_init(interface: LinkInterface, channel: ChannelOutcome) -> Result<
    InterfaceIdentity,
    ConfigError,
> {
    match channel {
        ChannelOutcome::Failed => Err(ConfigError::ChannelUnavailable),
        ChannelOutcome::Unsupported => Err(ConfigError::UnsupportedChannel),
        ChannelOutcome::Ethernet => match interface.hardware {
            None => Err(ConfigError::NoHardwareAddress),
            Some(hardware) => Ok(
                InterfaceIdentity {
                    address: match interface.address {
                        Some(address) => address,
                        None => NetworkAddress(0),
                    },
                    hardware,
                },
            ),
        },
    }
}

/// Finds the interface of the given name among the names of all interfaces.
pub fn find_interface(names: &Vec<String>, wanted: &String) -> (found: Result<usize, ConfigError>)
    ensures
        match found {
            Ok(i) => i < names@.len() && names@[i as int]@ == wanted@ && forall|k: int|
                0 <= k < i ==> (#[trigger] names@[k])@ != wanted@,
            Err(e) => e == ConfigError::InterfaceNotFound && forall|k: int|
                0 <= k < names@.len() ==> (#[trigger] names@[k])@ != wanted@,
        },
{
    let mut i: usize = 0;
    while i < names.len()
        invariant
            i <= names@.len(),
            forall|k: int| 0 <= k < i ==> (#[trigger] names@[k])@ != wanted@,
        decreases names.len() - i,
    {
        if names[i] == *wanted {
            return Ok(i);
        }
        i = i + 1;
    }
    Err(ConfigError::InterfaceNotFound)
}

fn is_target(targets: &Vec<NetworkAddress>, address: NetworkAddress) -> (r: bool)
    ensures
        r == targets@.contains(address),
{
    let mut i: usize = 0;
    while i < targets.len()
        invariant
            i <= targets@.len(),
            forall|k: int| 0 <= k < i ==> targets@[k] != address,
        decreases targets.len() - i,
    {
        if targets[i] == address {
            return true;
        }
        i = i + 1;
    }
    false
}

fn record(
    found: &mut Vec<(NetworkAddress, HardwareAddress)>,
    address: NetworkAddress,
    hardware: HardwareAddress,
)
    requires
        spec_distinct(old(found)@),
    ensures
        final(found)@ == spec_record(old(found)@, address, hardware),
{
    let mut i: usize = 0;
    while i < found.len()
        invariant
            i <= found@.len(),
            found@ == old(found)@,
            spec_distinct(found@),
            forall|k: int| 0 <= k < i ==> (#[trigger] found@[k]).0 != address,
        decreases found.len() - i,
    {
        if found[i].0 == address {
            let ghost chosen = choose|k: int|
                0 <= k < found@.len() && (#[trigger] found@[k]).0 == address;
            assert(chosen == i) by {
                if chosen < i {
                    assert(found@[chosen].0 != found@[i as int].0);
                }
                if chosen > i {
                    assert(found@[i as int].0 != found@[chosen].0);
                }
            }
            found.set(i, (address, hardware));
            return ;
        }
        i = i + 1;
    }
    found.push((address, hardware));
}

impl ArpScanner {
    #[verifier::type_invariant]
    spec fn records_agree(self) -> bool {
        &&& spec_valid(self@)
        &&& self.discovered@ == spec_collect(self.targets@, self.heard@)
        &&& self.responses as nat == if spec_responses(self.targets@, self.heard@) <= u64::MAX {
            spec_responses(self.targets@, self.heard@)
        } else {
            u64::MAX as nat
        }
    }

    fn idle(identity: InterfaceIdentity) -> (scanner: ArpScanner)
        ensures
            scanner@ == spec_begin(identity, Seq::empty()),
    {
        ArpScanner {
            identity,
            targets: Vec::new(),
            phase: ArpPhase::Done,
            sent: 0,
            burst: 0,
            discovered: Vec::new(),
            responses: 0,
            heard: Ghost(Seq::empty()),
        }
    }

    /// A prober for the interface, given how opening the raw channel on it
    /// ended. Without an Ethernet channel and a hardware address to send
    /// from there is no prober. An interface without an IPv4 address asks
    /// from `0.0.0.0`.
    pub fn new(interface: LinkInterface, channel: ChannelOutcome) -> (made: Result<
        ArpScanner,
        ConfigError,
    >)
        ensures
            match made {
                Ok(scanner) => spec_init(interface, channel) is Ok && scanner@ == spec_begin(
                    spec_init(interface, channel)->Ok_0,
                    Seq::empty(),
                ),
                Err(e) => spec_init(interface, channel) == Err::<InterfaceIdentity, ConfigError>(e),
            },
    {
        match channel {
            ChannelOutcome::Failed => Err(ConfigError::ChannelUnavailable),
            ChannelOutcome::Unsupported => Err(ConfigError::UnsupportedChannel),
            ChannelOutcome::Ethernet => match interface.hardware {
                None => Err(ConfigError::NoHardwareAddress),
                Some(hardware) => {
                    let address = match interface.address {
                        Some(address) => address,
                        None => NetworkAddress(0),
                    };
                    Ok(ArpScanner::idle(InterfaceIdentity { address, hardware }))
                },
            },
        }
    }

    /// The broadcast request frame that asks for `target_ip` from the
    /// prober's interface.
    pub fn create_arp_request(&self, target_ip: NetworkAddress) -> (frame: Vec<u8>)
        ensures
            frame@ == spec_request_frame(
                ProbeRequest {
                    target: target_ip,
                    own_address: self@.identity.address,
                    own_hardware: self@.identity.hardware,
                },
            ),
            frame@.len() == FRAME_LEN,
    {
        let request = ProbeRequest {
            target: target_ip,
            own_address: self.identity.address,
            own_hardware: self.identity.hardware,
        };
        request.encode()
    }

    /// What the caller is to do now.
    pub fn pending(&self) -> (action: ArpAction)
        ensures
            spec_pending(self@, action),
            spec_valid(self@),
    {
        proof {
            use_type_invariant(self);
        }
        match self.phase {
            ArpPhase::Sending => {
                let index = self.sent - 1;
                ArpAction::Transmit {
                    frame: self.create_arp_request(self.targets[index]),
                    batch: index / BATCH_SIZE,
                    pause_micros: BURST_DELAY_MICROS,
                }
            },
            ArpPhase::Opening => ArpAction::OpenWindow { window_millis: RESPONSE_WINDOW_MILLIS },
            ArpPhase::Listening => ArpAction::Receive,
            ArpPhase::Resting => ArpAction::Rest { millis: REST_MILLIS },
            ArpPhase::Done => {
                let mut hosts: Vec<(NetworkAddress, HardwareAddress)> = Vec::new();
                let mut i: usize = 0;
                while i < self.discovered.len()
                    invariant
                        i <= self.discovered@.len(),
                        hosts@ == self.discovered@.take(i as int),
                    decreases self.discovered.len() - i,
                {
                    hosts.push(self.discovered[i]);
                    i = i + 1;
                    assert(self.discovered@.take(i as int) == self.discovered@.take(i - 1).push(
                        self.discovered@[i - 1],
                    ));
                }
                assert(self.discovered@.take(i as int) == self.discovered@);
                ArpAction::Finish { hosts, responses: self.responses }
            },
        }
    }

    /// Begins a pass over the targets and says what to do first. What an
    /// earlier pass found is forgotten. With no target the pass is over at
    /// once and nothing is sent.
    pub fn fast_arp_sweep(&mut self, ip_addresses: Vec<NetworkAddress>) -> (action: ArpAction)
        ensures
            final(self)@ == spec_begin(old(self)@.identity, ip_addresses@),
            spec_pending(final(self)@, action),
            spec_valid(final(self)@),
    {
        let none = ip_addresses.len() == 0;
        let identity = self.identity;
        *self = ArpScanner {
            identity,
            targets: ip_addresses,
            phase: if none {
                ArpPhase::Done
            } else {
                ArpPhase::Sending
            },
            sent: if none {
                0
            } else {
                1
            },
            burst: 0,
            discovered: Vec::new(),
            responses: 0,
            heard: Ghost(Seq::empty()),
        };
        self.pending()
    }

    /// Begins a pass over the targets: the same as
    /// [`ArpScanner::fast_arp_sweep`].
    pub fn sweep(&mut self, ip_addresses: Vec<NetworkAddress>) -> (action: ArpAction)
        ensures
            final(self)@ == spec_begin(old(self)@.identity, ip_addresses@),
            spec_pending(final(self)@, action),
            spec_valid(final(self)@),
    {
        self.fast_arp_sweep(ip_addresses)
    }

    fn hear(self, bytes: &[u8]) -> (next: ArpScanner)
        requires
            self@.phase == ArpPhase::Listening,
        ensures
            next@ == spec_step(self@, ArpEvent::Frame(bytes)),
    {
        proof {
            use_type_invariant(&self);
        }
        let ArpScanner { identity, targets, phase, sent, burst, discovered, responses, heard } =
            self;
        let mut discovered = discovered;
        let mut responses = responses;
        proof {
            lemma_collect_distinct(targets@, heard@);
        }
        let ghost after = heard@.push(bytes@);
        assert(after.drop_last() =~= heard@);
        match decode(bytes) {
            Some(reply) => {
                if reply.operation == OperationKind::Reply && is_target(&targets, reply.sender) {
                    record(&mut discovered, reply.sender, reply.sender_hardware);
                    if responses < u64::MAX {
                        responses = responses + 1;
                    }
                }
            },
            None => {},
        }
        ArpScanner {
            identity,
            targets,
            phase: if burst + 1 < BURST_LIMIT {
                ArpPhase::Listening
            } else {
                ArpPhase::Resting
            },
            sent,
            burst: burst + 1,
            discovered,
            responses,
            heard: Ghost(after),
        }
    }

    /// Takes in what happened and says what to do next. An event that does
    /// not answer the action that was handed out changes nothing, and the
    /// same action is handed out again.
    pub fn step(&mut self, event: ArpEvent) -> (action: ArpAction)
        ensures
            final(self)@ == spec_step(old(self)@, event),
            spec_pending(final(self)@, action),
            spec_valid(final(self)@),
    {
        proof {
            use_type_invariant(&*self);
        }
        match (self.phase, event) {
            (ArpPhase::Sending, ArpEvent::Sent) => {
                if self.sent < self.targets.len() {
                    self.sent = self.sent + 1;
                } else {
                    self.phase = ArpPhase::Opening;
                }
            },
            (ArpPhase::Opening, ArpEvent::WindowOpened) => {
                self.burst = 0;
                self.phase = ArpPhase::Listening;
            },
            (ArpPhase::Listening, ArpEvent::Frame(bytes)) => {
                let mut current = ArpScanner::idle(self.identity);
                core::mem::swap(self, &mut current);
                *self = current.hear(bytes);
            },
            (ArpPhase::Listening, ArpEvent::Quiet) => {
                self.phase = ArpPhase::Resting;
            },
            (ArpPhase::Resting, ArpEvent::Rested { elapsed_millis }) => {
                if elapsed_millis < RESPONSE_WINDOW_MILLIS {
                    self.burst = 0;
                    self.phase = ArpPhase::Listening;
                } else {
                    self.phase = ArpPhase::Done;
                }
            },
            _ => {},
        }
        self.pending()
    }
}

/// Recording keeps addresses distinct.
pub proof fn lemma_record_distinct(
    found: Seq<(NetworkAddress, HardwareAddress)>,
    address: NetworkAddress,
    hardware: HardwareAddress,
)
    requires
        spec_distinct(found),
    ensures
        spec_distinct(spec_record(found, address, hardware)),
        spec_knows(spec_record(found, address, hardware), address),
        forall|other: NetworkAddress|
            other != address ==> (spec_knows(spec_record(found, address, hardware), other)
                <==> spec_knows(found, other)),
{
    let after = spec_record(found, address, hardware);
    if spec_knows(found, address) {
        let i = choose|i: int| 0 <= i < found.len() && (#[trigger] found[i]).0 == address;
        assert(after[i].0 == address);
        assert forall|other: NetworkAddress| other != address implies (spec_knows(after, other)
            <==> spec_knows(found, other)) by {
            if spec_knows(found, other) {
                let k = choose|k: int| 0 <= k < found.len() && (#[trigger] found[k]).0 == other;
                assert(after[k].0 == other);
            }
            if spec_knows(after, other) {
                let k = choose|k: int| 0 <= k < after.len() && (#[trigger] after[k]).0 == other;
                assert(found[k].0 == other);
            }
        }
    } else {
        assert(after[found.len() as int].0 == address);
        assert forall|i: int, j: int| 0 <= i < j < after.len() implies (#[trigger] after[i]).0
            != (#[trigger] after[j]).0 by {
            if j == found.len() {
                assert(found[i].0 != address);
            }
        }
        assert forall|other: NetworkAddress| other != address implies (spec_knows(after, other)
            <==> spec_knows(found, other)) by {
            if spec_knows(found, other) {
                let k = choose|k: int| 0 <= k < found.len() && (#[trigger] found[k]).0 == other;
                assert(after[k].0 == other);
            }
            if spec_knows(after, other) {
                let k = choose|k: int| 0 <= k < after.len() && (#[trigger] after[k]).0 == other;
                assert(found[k].0 == other);
            }
        }
    }
}

/// Whatever comes in, no address is ever reported twice, and every address
/// reported is one of the targets.
pub proof fn lemma_collect_distinct(targets: Seq<NetworkAddress>, heard: Seq<Seq<u8>>)
    ensures
        spec_distinct(spec_collect(targets, heard)),
        forall|i: int|
            0 <= i < spec_collect(targets, heard).len() ==> targets.contains(
                (#[trigger] spec_collect(targets, heard)[i]).0,
            ),
    decreases heard.len(),
{
    if heard.len() > 0 {
        lemma_collect_distinct(targets, heard.drop_last());
        let before = spec_collect(targets, heard.drop_last());
        match spec_accepted(targets, heard.last()) {
            Some((address, hardware)) => {
                lemma_record_distinct(before, address, hardware);
            },
            None => {},
        }
    }
}

/// The hardware address that a list of pairs gives for an address.
pub open spec fn spec_lookup(
    found: Seq<(NetworkAddress, HardwareAddress)>,
    address: NetworkAddress,
) -> Option<HardwareAddress> {
    if spec_knows(found, address) {
        Some(found[choose|i: int| 0 <= i < found.len() && (#[trigger] found[i]).0 == address].1)
    } else {
        None
    }
}

/// In a list without repetitions the pair of an address is found at its
/// place.
pub proof fn lemma_lookup_at(found: Seq<(NetworkAddress, HardwareAddress)>, i: int)
    requires
        spec_distinct(found),
        0 <= i < found.len(),
    ensures
        spec_lookup(found, found[i].0) == Some(found[i].1),
{
    let j = choose|j: int| 0 <= j < found.len() && (#[trigger] found[j]).0 == found[i].0;
    if j < i {
        assert(found[j].0 != found[i].0);
    }
    if i < j {
        assert(found[i].0 != found[j].0);
    }
}

/// The last reply wins: once a reply of an address is taken in, the result
/// gives that address the hardware address of this reply, whatever it gave
/// before, and what it gives for every other address stays as it was. A
/// frame that is not accepted changes nothing.
pub proof fn lemma_last_reply_wins(
    targets: Seq<NetworkAddress>,
    heard: Seq<Seq<u8>>,
    frame: Seq<u8>,
    other: NetworkAddress,
)
    ensures
        match spec_accepted(targets, frame) {
            Some((address, hardware)) => spec_lookup(
                spec_collect(targets, heard.push(frame)),
                address,
            ) == Some(hardware) && (other != address ==> spec_lookup(
                spec_collect(targets, heard.push(frame)),
                other,
            ) == spec_lookup(spec_collect(targets, heard), other)),
            None => spec_collect(targets, heard.push(frame)) == spec_collect(targets, heard),
        },
{
    let before = spec_collect(targets, heard);
    let after = spec_collect(targets, heard.push(frame));
    assert(heard.push(frame).drop_last() =~= heard);
    lemma_collect_distinct(targets, heard);
    lemma_collect_distinct(targets, heard.push(frame));
    match spec_accepted(targets, frame) {
        Some((address, hardware)) => {
            assert(after == spec_record(before, address, hardware));
            lemma_record_distinct(before, address, hardware);
            if spec_knows(before, address) {
                let i = choose|i: int| 0 <= i < before.len() && (#[trigger] before[i]).0 == address;
                assert(after[i] == (address, hardware));
                lemma_lookup_at(after, i);
                if other != address && spec_knows(before, other) {
                    let k = choose|k: int| 0 <= k < before.len() && (#[trigger] before[k]).0 == other;
                    assert(after[k] == before[k]);
                    lemma_lookup_at(after, k);
                    lemma_lookup_at(before, k);
                }
            } else {
                assert(after[before.len() as int] == (address, hardware));
                lemma_lookup_at(after, before.len() as int);
                if other != address && spec_knows(before, other) {
                    let k = choose|k: int| 0 <= k < before.len() && (#[trigger] before[k]).0 == other;
                    assert(after[k] == before[k]);
                    lemma_lookup_at(after, k);
                    lemma_lookup_at(before, k);
                }
            }
        },
        None => {},
    }
}

/// Whatever happens, a pass stays in order: its targets and its interface
/// stay the same, no request is taken back, and nothing that came in is
/// forgotten.
pub proof fn lemma_step_keeps_order(state: ArpScanState, event: ArpEvent)
    requires
        spec_valid(state),
    ensures
        spec_valid(spec_step(state, event)),
        spec_step(state, event).targets == state.targets,
        spec_step(state, event).identity == state.identity,
        spec_step(state, event).sent >= state.sent,
        state.heard.is_prefix_of(spec_step(state, event).heard),
        spec_valid(spec_begin(state.identity, state.targets)),
{
}

/// Every target is asked for once, in the order of the list: while requests
/// go out, the request in hand is that of the target whose turn it is, and
/// after the last one the window opens.
pub proof fn lemma_requests_in_order(state: ArpScanState)
    requires
        spec_valid(state),
        state.phase == ArpPhase::Sending,
    ensures
        spec_step(state, ArpEvent::Sent).phase == if state.sent < state.targets.len() {
            ArpPhase::Sending
        } else {
            ArpPhase::Opening
        },
        spec_step(state, ArpEvent::Sent).sent == if state.sent < state.targets.len() {
            state.sent + 1
        } else {
            state.sent
        },
        spec_request(state, state.sent - 1).target == state.targets[state.sent - 1],
{
}

/// A reply that names the target of a request as its sender is kept, with
/// exactly that address, while the request itself, should it come back from
/// the wire, is not.
pub proof fn lemma_reply_correlates(
    request: ProbeRequest,
    targets: Seq<NetworkAddress>,
    responder: HardwareAddress,
    destination: HardwareAddress,
    source: HardwareAddress,
    asked_hardware: HardwareAddress,
    asked: NetworkAddress,
)
    requires
        targets.contains(request.target),
    ensures
        spec_accepted(
            targets,
            spec_frame(
                destination,
                source,
                OPERATION_REPLY,
                responder,
                request.target,
                asked_hardware,
                asked,
            ),
        ) == Some((request.target, responder)),
        spec_accepted(targets, spec_request_frame(request)) is None,
{
    lemma_frame_roundtrip(
        destination,
        source,
        OPERATION_REPLY,
        responder,
        request.target,
        asked_hardware,
        asked,
    );
    lemma_frame_roundtrip(
        HardwareAddress(0xff, 0xff, 0xff, 0xff, 0xff, 0xff),
        request.own_hardware,
        OPERATION_REQUEST,
        request.own_hardware,
        request.own_address,
        HardwareAddress(0, 0, 0, 0, 0, 0),
        request.target,
    );
}

} // verus!
