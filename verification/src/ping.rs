//! The reachability prober: is a host alive?
//!
//! A host is first asked with echo requests. Where those bring nothing, a
//! fixed list of ports that are often open is tried: a connection that
//! opens is evidence of life, and so is one that is actively refused, since
//! only a live network stack refuses. A timeout says nothing.
//!
//! The prober does no I/O. [`HostProbe`] hands out one [`ProbeAction`] at a
//! time and takes the outcome as a [`ProbeEvent`]; [`Sweep`] lets a
//! bounded number of probes run at a time.

use vstd::prelude::*;
use crate::address::NetworkAddress;

verus! {

/// How many echo requests a host is sent at most.
pub const ECHO_ATTEMPTS: u8 = 2;

/// How many octets of payload an echo request carries.
pub const ECHO_PAYLOAD_LEN: usize = 56;

/// How many ports the fallback tries.
pub const FALLBACK_PORT_COUNT: usize = 7;

/// How many hosts are probed at the same time.
pub const CONCURRENT_LIMIT: usize = 50;

/// The ports that the fallback tries, in this order.
pub open spec fn spec_fallback_ports() -> Seq<u16> {
    seq![80u16, 443, 22, 21, 23, 53, 25]
}

/// The time allotted to one echo request: half the budget.
pub open spec fn spec_echo_budget(timeout_ms: u64) -> u64 {
    timeout_ms / 2
}

/// The time allotted to one connection attempt: the budget divided by the
/// number of ports.
pub open spec fn spec_connect_budget(timeout_ms: u64) -> u64 {
    timeout_ms / 7
}

/// Where the probe of one host stands.
#[derive(Clone, Copy, Debug, PartialEq, Eq, Structural)]
pub enum ProbeStage {
    /// An echo request is out; `attempt` counts from zero.
    Echo { attempt: u8 },
    /// A connection attempt to the fallback port at `index` is out.
    Connect { index: usize },
    /// The verdict is in.
    Done { reachable: bool },
}

/// What the caller is to do next for the host.
#[derive(Clone, Copy, Debug, PartialEq, Eq, Structural)]
pub enum ProbeAction {
    /// Send an echo request and wait for the reply, `timeout_ms` at most.
    /// Report [`ProbeEvent::Answered`] for an echo reply, anything else as
    /// [`ProbeEvent::Silent`].
    Echo {
        /// The host to ask.
        target: NetworkAddress,
        /// The identifier of the request.
        identifier: u16,
        /// The sequence number of the request.
        sequence: u16,
        /// How many zero octets the request carries.
        payload_len: usize,
        /// How long to wait.
        timeout_ms: u64,
    },
    /// Try to connect, `timeout_ms` at most. Report
    /// [`ProbeEvent::Answered`] for an open connection,
    /// [`ProbeEvent::Refused`] for a refusal, and a timeout as
    /// [`ProbeEvent::Silent`].
    Connect {
        /// The host to connect to.
        target: NetworkAddress,
        /// The port to connect to.
        port: u16,
        /// How long to wait.
        timeout_ms: u64,
    },
    /// Nothing is left to do: this is the verdict.
    Verdict {
        /// Whether the host is alive.
        reachable: bool,
    },
}

/// How a probe ended.
#[derive(Clone, Copy, Debug, PartialEq, Eq, Structural)]
pub enum ProbeEvent {
    /// The host answered: an echo reply came, or the connection opened.
    Answered,
    /// The host refused the connection.
    Refused,
    /// Nothing came back in time, or the attempt failed on this side.
    Silent,
}

/// The state of the probe of one host, as contracts see it.
#[derive(Clone, Copy, Debug, PartialEq, Eq, Structural)]
pub struct ProbeState {
    /// The host.
    pub target: NetworkAddress,
    /// The budget of the whole probe, in milliseconds.
    pub timeout_ms: u64,
    /// Where the probe stands.
    pub stage: ProbeStage,
    /// The identifier of the echo request that is out.
    pub identifier: u16,
}

/// Where a probe goes when the echo requests brought nothing. A probe that
/// is allotted no time is not made: its deadline has passed before it
/// starts.
pub open spec fn spec_fallback_stage(timeout_ms: u64) -> ProbeStage {
    if spec_connect_budget(timeout_ms) > 0 {
        ProbeStage::Connect { index: 0 }
    } else {
        ProbeStage::Done { reachable: false }
    }
}

/// Where a probe begins.
pub open spec fn spec_first_stage(timeout_ms: u64) -> ProbeStage {
    if spec_echo_budget(timeout_ms) > 0 {
        ProbeStage::Echo { attempt: 0 }
    } else {
        spec_fallback_stage(timeout_ms)
    }
}

/// The number of the echo request that follows the one numbered `attempt`.
pub open spec fn spec_following(attempt: u8) -> u8 {
    (attempt + 1) as u8
}

/// Where a probe goes after the outcome of an echo request: to its verdict
/// where the host answered, else to the next request while there is one,
/// else to the fallback.
pub open spec fn spec_icmp_ping(attempt: u8, timeout_ms: u64, event: ProbeEvent) -> ProbeStage {
    if event == ProbeEvent::Answered {
        ProbeStage::Done { reachable: true }
    } else if attempt + 1 < ECHO_ATTEMPTS {
        ProbeStage::Echo { attempt: spec_following(attempt) }
    } else {
        spec_fallback_stage(timeout_ms)
    }
}

/// Where a probe goes after the outcome of a connection attempt: to its
/// verdict where the host answered or refused, else to the next port while
/// there is one, else to the verdict "not reachable".
pub open spec fn spec_tcp_ping(index: usize, event: ProbeEvent) -> ProbeStage {
    if event == ProbeEvent::Answered || event == ProbeEvent::Refused {
        ProbeStage::Done { reachable: true }
    } else if index + 1 < FALLBACK_PORT_COUNT {
        ProbeStage::Connect { index: (index + 1) as usize }
    } else {
        ProbeStage::Done { reachable: false }
    }
}

/// Where a probe goes from `stage` on `event`.
pub open spec fn spec_next_stage(stage: ProbeStage, timeout_ms: u64, event: ProbeEvent) -> ProbeStage {
    match stage {
        ProbeStage::Echo { attempt } => spec_icmp_ping(attempt, timeout_ms, event),
        ProbeStage::Connect { index } => spec_tcp_ping(index, event),
        ProbeStage::Done { reachable } => stage,
    }
}

/// Whether a stage is one that a probe with the given budget can be in.
pub open spec fn spec_stage_valid(stage: ProbeStage, timeout_ms: u64) -> bool {
    match stage {
        ProbeStage::Echo { attempt } => attempt < ECHO_ATTEMPTS && spec_echo_budget(timeout_ms)
            > 0,
        ProbeStage::Connect { index } => index < FALLBACK_PORT_COUNT && spec_connect_budget(
            timeout_ms,
        ) > 0,
        ProbeStage::Done { reachable } => true,
    }
}

/// What the caller is to do for a probe.
pub open spec fn spec_action(probe: ProbeState) -> ProbeAction {
    match probe.stage {
        ProbeStage::Echo { attempt } => ProbeAction::Echo {
            target: probe.target,
            identifier: probe.identifier,
            sequence: 0,
            payload_len: ECHO_PAYLOAD_LEN,
            timeout_ms: spec_echo_budget(probe.timeout_ms),
        },
        ProbeStage::Connect { index } => ProbeAction::Connect {
            target: probe.target,
            port: spec_fallback_ports()[index as int],
            timeout_ms: spec_connect_budget(probe.timeout_ms),
        },
        ProbeStage::Done { reachable } => ProbeAction::Verdict { reachable },
    }
}

/// Where a probe stands after a run of events.
pub open spec fn spec_run(stage: ProbeStage, timeout_ms: u64, events: Seq<ProbeEvent>) -> ProbeStage
    decreases events.len(),
{
    if events.len() == 0 {
        stage
    } else {
        spec_next_stage(spec_run(stage, timeout_ms, events.drop_last()), timeout_ms, events.last())
    }
}

/// How many outcomes a stage is away from a verdict at most.
pub open spec fn spec_steps_left(stage: ProbeStage) -> nat {
    match stage {
        ProbeStage::Echo { attempt } => (ECHO_ATTEMPTS - attempt + FALLBACK_PORT_COUNT) as nat,
        ProbeStage::Connect { index } => (FALLBACK_PORT_COUNT - index) as nat,
        ProbeStage::Done { reachable } => 0,
    }
}

/// `rand::random::<u16>()` of the `rand` crate: a number drawn from the
/// generator of the calling thread. It differs from call to call, so the
/// contract says nothing of it. The generator is seeded by the system the
/// first time a thread draws from it, and the crate panics where the
/// system cannot do that.
#[verifier::external_body]
fn fresh_identifier() -> u16 {
    rand::random::<u16>()
}

fn fallback_port(index: usize) -> (port: u16)
    requires
        index < FALLBACK_PORT_COUNT,
    ensures
        port == spec_fallback_ports()[index as int],
{
    let ports: [u16; 7] = [80, 443, 22, 21, 23, 53, 25];
    assert(ports@ =~= spec_fallback_ports());
    ports[index]
}

fn fallback_stage(timeout_ms: u64) -> (stage: ProbeStage)
    ensures
        stage == spec_fallback_stage(timeout_ms),
{
    if timeout_ms / 7 > 0 {
        ProbeStage::Connect { index: 0 }
    } else {
        ProbeStage::Done { reachable: false }
    }
}

/// Decides what follows an echo request: one answer settles that the host
/// is alive; silence leads to the second request and then to the fallback.
pub fn icmp_ping(attempt: u8, timeout_ms: u64, event: ProbeEvent) -> (stage: ProbeStage)
    ensures
        stage == spec_icmp_ping(attempt, timeout_ms, event),
{
    if event == ProbeEvent::Answered {
        ProbeStage::Done { reachable: true }
    } else if attempt < ECHO_ATTEMPTS - 1 {
        ProbeStage::Echo { attempt: attempt + 1 }
    } else {
        fallback_stage(timeout_ms)
    }
}

/// Decides what follows a connection attempt to a fallback port: a
/// connection that opens settles that the host is alive, and so does one
/// that is refused; a timeout leads to the next port.
pub fn tcp_ping(index: usize, event: ProbeEvent) -> (stage: ProbeStage)
    ensures
        stage == spec_tcp_ping(index, event),
{
    if event == ProbeEvent::Answered || event == ProbeEvent::Refused {
        ProbeStage::Done { reachable: true }
    } else if index < FALLBACK_PORT_COUNT - 1 {
        ProbeStage::Connect { index: index + 1 }
    } else {
        ProbeStage::Done { reachable: false }
    }
}

/// The probe of one host.
#[derive(Clone, Copy, Debug)]
pub struct HostProbe {
    state: ProbeState,
}

impl View for HostProbe {
    type V = ProbeState;

    closed spec fn view(&self) -> ProbeState {
        self.state
    }
}

impl HostProbe {
    #[verifier::type_invariant]
    spec fn reachable_state(self) -> bool {
        spec_stage_valid(self.state.stage, self.state.timeout_ms)
    }

    /// The probe of `target` at its start. Each echo request draws a fresh
    /// identifier.
    pub fn begin(target: NetworkAddress, timeout_ms: u64) -> (probe: HostProbe)
        ensures
            probe@.target == target,
            probe@.timeout_ms == timeout_ms,
            probe@.stage == spec_first_stage(timeout_ms),
            spec_stage_valid(probe@.stage, timeout_ms),
    {
        let stage = if timeout_ms / 2 > 0 {
            ProbeStage::Echo { attempt: 0 }
        } else {
            fallback_stage(timeout_ms)
        };
        HostProbe {
            state: ProbeState { target, timeout_ms, stage, identifier: fresh_identifier() },
        }
    }

    /// What the caller is to do now.
    pub fn pending(&self) -> (action: ProbeAction)
        ensures
            action == spec_action(self@),
            spec_stage_valid(self@.stage, self@.timeout_ms),
    {
        proof {
            use_type_invariant(self);
        }
        match self.state.stage {
            ProbeStage::Echo { attempt } => ProbeAction::Echo {
                target: self.state.target,
                identifier: self.state.identifier,
                sequence: 0,
                payload_len: ECHO_PAYLOAD_LEN,
                timeout_ms: self.state.timeout_ms / 2,
            },
            ProbeStage::Connect { index } => ProbeAction::Connect {
                target: self.state.target,
                port: fallback_port(index),
                timeout_ms: self.state.timeout_ms / 7,
            },
            ProbeStage::Done { reachable } => ProbeAction::Verdict { reachable },
        }
    }

    /// Takes in how the last action ended and says what to do next. Once
    /// the verdict is in, nothing changes it.
    pub fn step(&mut self, event: ProbeEvent) -> (action: ProbeAction)
        ensures
            final(self)@.target == old(self)@.target,
            final(self)@.timeout_ms == old(self)@.timeout_ms,
            final(self)@.stage == spec_next_stage(old(self)@.stage, old(self)@.timeout_ms, event),
            !(final(self)@.stage is Echo) ==> final(self)@.identifier == old(self)@.identifier,
            action == spec_action(final(self)@),
    {
        proof {
            use_type_invariant(&*self);
        }
        match self.state.stage {
            ProbeStage::Echo { attempt } => {
                let next = icmp_ping(attempt, self.state.timeout_ms, event);
                self.state.stage = next;
                if let ProbeStage::Echo { .. } = next {
                    self.state.identifier = fresh_identifier();
                }
            },
            ProbeStage::Connect { index } => {
                self.state.stage = tcp_ping(index, event);
            },
            ProbeStage::Done { reachable } => {},
        }
        self.pending()
    }

    /// The verdict, once it is in.
    pub fn verdict(&self) -> (verdict: Option<bool>)
        ensures
            verdict == match self@.stage {
                ProbeStage::Done { reachable } => Some(reachable),
                _ => None::<bool>,
            },
    {
        match self.state.stage {
            ProbeStage::Done { reachable } => Some(reachable),
            _ => None,
        }
    }
}

/// Every outcome brings a probe nearer to its verdict, and validity is
/// kept.
pub proof fn lemma_step_progress(stage: ProbeStage, timeout_ms: u64, event: ProbeEvent)
    requires
        spec_stage_valid(stage, timeout_ms),
    ensures
        spec_stage_valid(spec_next_stage(stage, timeout_ms, event), timeout_ms),
        !(stage is Done) ==> spec_steps_left(spec_next_stage(stage, timeout_ms, event))
            < spec_steps_left(stage),
        stage is Done ==> spec_next_stage(stage, timeout_ms, event) == stage,
{
}

/// A probe has its verdict after nine outcomes at the latest, whatever they
/// are: two echo requests and seven connection attempts.
pub proof fn lemma_probe_terminates(timeout_ms: u64, events: Seq<ProbeEvent>)
    ensures
        spec_stage_valid(spec_run(spec_first_stage(timeout_ms), timeout_ms, events), timeout_ms),
        spec_steps_left(spec_run(spec_first_stage(timeout_ms), timeout_ms, events))
            + events.len() <= 9 || spec_run(spec_first_stage(timeout_ms), timeout_ms, events)
            is Done,
        events.len() >= 9 ==> spec_run(spec_first_stage(timeout_ms), timeout_ms, events) is Done,
    decreases events.len(),
{
    if events.len() > 0 {
        lemma_probe_terminates(timeout_ms, events.drop_last());
        lemma_step_progress(
            spec_run(spec_first_stage(timeout_ms), timeout_ms, events.drop_last()),
            timeout_ms,
            events.last(),
        );
    }
}

/// Whether an outcome is evidence of life at a stage: an answer always, a
/// refusal where a connection was tried.
pub open spec fn spec_is_evidence(stage: ProbeStage, event: ProbeEvent) -> bool {
    match stage {
        ProbeStage::Echo { attempt } => event == ProbeEvent::Answered,
        ProbeStage::Connect { index } => event == ProbeEvent::Answered || event
            == ProbeEvent::Refused,
        ProbeStage::Done { reachable } => false,
    }
}

/// A host is found alive only on evidence: where no outcome of a run was
/// evidence of life at its stage, the run does not end in "reachable".
pub proof fn lemma_no_evidence_no_life(timeout_ms: u64, events: Seq<ProbeEvent>)
    requires
        forall|k: int|
            0 <= k < events.len() ==> !spec_is_evidence(
                spec_run(spec_first_stage(timeout_ms), timeout_ms, #[trigger] events.take(k)),
                events[k],
            ),
    ensures
        spec_run(spec_first_stage(timeout_ms), timeout_ms, events) != (ProbeStage::Done {
            reachable: true,
        }),
    decreases events.len(),
{
    if events.len() > 0 {
        let before = events.drop_last();
        assert forall|k: int| 0 <= k < before.len() implies !spec_is_evidence(
            spec_run(spec_first_stage(timeout_ms), timeout_ms, #[trigger] before.take(k)),
            before[k],
        ) by {
            assert(before.take(k) == events.take(k));
        }
        lemma_no_evidence_no_life(timeout_ms, before);
        assert(events.take(events.len() - 1) == before);
    }
}

/// One piece of evidence settles it: once an outcome of a run was evidence
/// of life at its stage, the run ends in "reachable", whatever follows.
pub proof fn lemma_evidence_is_life(timeout_ms: u64, events: Seq<ProbeEvent>, k: int)
    requires
        0 <= k < events.len(),
        spec_is_evidence(
            spec_run(spec_first_stage(timeout_ms), timeout_ms, events.take(k)),
            events[k],
        ),
    ensures
        spec_run(spec_first_stage(timeout_ms), timeout_ms, events) == (ProbeStage::Done {
            reachable: true,
        }),
    decreases events.len(),
{
    let before = events.drop_last();
    if k == events.len() - 1 {
        assert(events.take(k) == before);
    } else {
        assert(before.take(k) == events.take(k));
        lemma_evidence_is_life(timeout_ms, before, k);
    }
}

/// With no time at all a probe has its verdict before anything is sent:
/// the host counts as not reachable.
pub proof fn lemma_zero_budget_unreachable(target: NetworkAddress)
    ensures
        spec_first_stage(0) == (ProbeStage::Done { reachable: false }),
{
}

/// What the sweep knows of one target.
#[derive(Clone, Copy, Debug, PartialEq, Eq, Structural)]
pub enum Slot {
    /// Its probe has not begun.
    Waiting,
    /// Its probe is under way.
    Running,
    /// Its probe has ended.
    Settled { reachable: bool },
}

/// What the caller of a sweep is to do next.
#[derive(Debug)]
pub enum SweepAction {
    /// Begin the probe of the target at `index` and go on asking the sweep
    /// while that probe runs. Report its verdict with [`Sweep::settle`].
    Launch {
        /// Where the target stands in the list.
        index: usize,
        /// The host to probe.
        target: NetworkAddress,
        /// The budget of the probe, in milliseconds.
        timeout_ms: u64,
    },
    /// As many probes run as may run at a time, or none is left to begin:
    /// wait until one ends.
    Wait,
    /// Every probe has ended: these hosts are alive.
    Finish {
        /// The reachable targets, in the order of the list.
        hosts: Vec<NetworkAddress>,
    },
}

/// The state of a sweep, as contracts see it.
pub struct SweepState {
    /// The hosts to probe.
    pub targets: Seq<NetworkAddress>,
    /// The budget of each probe, in milliseconds.
    pub timeout_ms: u64,
    /// How many probes may run at a time.
    pub limit: nat,
    /// What is known of each target.
    pub slots: Seq<Slot>,
    /// How many probes have begun. Probes begin in the order of the list.
    pub launched: nat,
}

/// How many probes are under way.
pub open spec fn spec_running(slots: Seq<Slot>) -> nat
    decreases slots.len(),
{
    if slots.len() == 0 {
        0
    } else if slots.last() == Slot::Running {
        spec_running(slots.drop_last()) + 1
    } else {
        spec_running(slots.drop_last())
    }
}

/// The targets among the first `upto` whose probes ended in "reachable", in
/// the order of the list.
pub open spec fn spec_reachable(targets: Seq<NetworkAddress>, slots: Seq<Slot>, upto: nat) -> Seq<
    NetworkAddress,
>
    decreases upto,
{
    if upto == 0 {
        Seq::empty()
    } else if slots[upto - 1] == (Slot::Settled { reachable: true }) {
        spec_reachable(targets, slots, (upto - 1) as nat).push(targets[upto - 1])
    } else {
        spec_reachable(targets, slots, (upto - 1) as nat)
    }
}

/// Whether a state is one that a sweep can be in. In particular, no more
/// probes run than the limit allows.
pub open spec fn spec_sweep_valid(state: SweepState) -> bool {
    &&& state.slots.len() == state.targets.len()
    &&& state.launched <= state.targets.len()
    &&& state.limit >= 1
    &&& spec_running(state.slots) <= state.limit
    &&& forall|i: int| 0 <= i < state.launched ==> #[trigger] state.slots[i] != Slot::Waiting
    &&& forall|i: int|
        state.launched <= i < state.slots.len() ==> #[trigger] state.slots[i] == Slot::Waiting
}

/// The state in which a sweep begins.
pub open spec fn spec_sweep_begin(targets: Seq<NetworkAddress>, timeout_ms: u64, limit: nat) -> SweepState {
    SweepState {
        targets,
        timeout_ms,
        limit,
        slots: Seq::new(targets.len(), |i: int| Slot::Waiting),
        launched: 0,
    }
}

/// Whether another probe may begin.
pub open spec fn spec_has_room(state: SweepState) -> bool {
    state.launched < state.targets.len() && spec_running(state.slots) < state.limit
}

/// The state after the sweep was asked what to do: where another probe may
/// begin, that of the next target runs.
pub open spec fn spec_launch(state: SweepState) -> SweepState {
    if spec_has_room(state) {
        SweepState {
            slots: state.slots.update(state.launched as int, Slot::Running),
            launched: state.launched + 1,
            ..state
        }
    } else {
        state
    }
}

/// Whether `action` is what a sweep in `state` tells its caller.
pub open spec fn spec_sweep_action(state: SweepState, action: SweepAction) -> bool {
    if spec_has_room(state) {
        action matches SweepAction::Launch { index, target, timeout_ms } && index
            == state.launched && target == state.targets[state.launched as int] && timeout_ms
            == state.timeout_ms
    } else if spec_running(state.slots) > 0 {
        action is Wait
    } else {
        action matches SweepAction::Finish { hosts } && hosts@ == spec_reachable(
            state.targets,
            state.slots,
            state.slots.len(),
        )
    }
}

/// The state after the probe of the target at `index` ended. A verdict for
/// a probe that does not run changes nothing.
pub open spec fn spec_settle(state: SweepState, index: int, reachable: bool) -> SweepState {
    if 0 <= index < state.slots.len() && state.slots[index] == Slot::Running {
        SweepState { slots: state.slots.update(index, Slot::Settled { reachable }), ..state }
    } else {
        state
    }
}

/// Changing one slot changes the number of running probes by that slot
/// alone.
pub proof fn lemma_running_update(slots: Seq<Slot>, index: int, slot: Slot)
    requires
        0 <= index < slots.len(),
    ensures
        spec_running(slots.update(index, slot)) + (if slots[index] == Slot::Running {
            1nat
        } else {
            0nat
        }) == spec_running(slots) + (if slot == Slot::Running {
            1nat
        } else {
            0nat
        }),
    decreases slots.len(),
{
    let after = slots.update(index, slot);
    if index == slots.len() - 1 {
        assert(after.drop_last() == slots.drop_last());
    } else {
        assert(after.drop_last() == slots.drop_last().update(index, slot));
        lemma_running_update(slots.drop_last(), index, slot);
    }
}

/// Where no slot runs, the count is zero; where one does, it is not.
pub proof fn lemma_running_zero(slots: Seq<Slot>)
    ensures
        spec_running(slots) == 0 <==> forall|i: int|
            0 <= i < slots.len() ==> #[trigger] slots[i] != Slot::Running,
        spec_running(slots) <= slots.len(),
    decreases slots.len(),
{
    if slots.len() > 0 {
        lemma_running_zero(slots.drop_last());
        if spec_running(slots) == 0 {
            assert forall|i: int| 0 <= i < slots.len() implies #[trigger] slots[i]
                != Slot::Running by {
                if i < slots.len() - 1 {
                    assert(slots.drop_last()[i] == slots[i]);
                }
            }
        }
        if forall|i: int| 0 <= i < slots.len() ==> #[trigger] slots[i] != Slot::Running {
            assert forall|i: int| 0 <= i < slots.drop_last().len() implies #[trigger] slots.drop_last()[i]
                != Slot::Running by {
                assert(slots.drop_last()[i] == slots[i]);
            }
            assert(slots.last() == slots[slots.len() - 1]);
        }
    }
}

/// A sweep of hosts: at most a fixed number of probes at a time.
pub struct Sweep {
    targets: Vec<NetworkAddress>,
    timeout_ms: u64,
    limit: usize,
    slots: Vec<Slot>,
    launched: usize,
    running: usize,
}

impl View for Sweep {
    type V = SweepState;

    closed spec fn view(&self) -> SweepState {
        SweepState {
            targets: self.targets@,
            timeout_ms: self.timeout_ms,
            limit: self.limit as nat,
            slots: self.slots@,
            launched: self.launched as nat,
        }
    }
}

impl Sweep {
    #[verifier::type_invariant]
    spec fn counts_agree(self) -> bool {
        &&& spec_sweep_valid(self@)
        &&& self.running == spec_running(self.slots@)
    }

    /// The sweep of no host at all, one probe at a time: it has nothing to
    /// begin and nothing to wait for. It stands in for a sweep while that
    /// sweep is being rebuilt.
    fn idle() -> (sweep: Sweep)
        ensures
            sweep@ == spec_sweep_begin(Seq::empty(), 0, 1),
            !spec_has_room(sweep@),
            spec_running(sweep@.slots) == 0,
    {
        let sweep = Sweep {
            targets: Vec::new(),
            timeout_ms: 0,
            limit: 1,
            slots: Vec::new(),
            launched: 0,
            running: 0,
        };
        assert(sweep@.slots =~= spec_sweep_begin(Seq::empty(), 0, 1).slots);
        sweep
    }

    fn launch(self) -> (next: (Sweep, usize, NetworkAddress))
        requires
            spec_has_room(self@),
        ensures
            next.0@ == spec_launch(self@),
            next.1 == self@.launched,
            next.2 == self@.targets[self@.launched as int],
    {
        proof {
            use_type_invariant(&self);
        }
        let Sweep { targets, timeout_ms, limit, slots, launched, running } = self;
        let mut slots = slots;
        proof {
            lemma_running_update(slots@, launched as int, Slot::Running);
        }
        slots.set(launched, Slot::Running);
        assert(launched < targets.len());
        let target = targets[launched];
        (
            Sweep { targets, timeout_ms, limit, slots, launched: launched + 1, running: running + 1 },
            launched,
            target,
        )
    }

    fn settled(self, index: usize, reachable: bool) -> (next: Sweep)
        ensures
            next@ == spec_settle(self@, index as int, reachable),
    {
        proof {
            use_type_invariant(&self);
        }
        let Sweep { targets, timeout_ms, limit, slots, launched, running } = self;
        let mut slots = slots;
        if index < slots.len() && slots[index] == Slot::Running {
            proof {
                lemma_running_update(slots@, index as int, Slot::Settled { reachable });
            }
            slots.set(index, Slot::Settled { reachable });
            Sweep { targets, timeout_ms, limit, slots, launched, running: running - 1 }
        } else {
            Sweep { targets, timeout_ms, limit, slots, launched, running }
        }
    }

    /// Says what to do next, and counts the probe that it tells the caller
    /// to begin as running. At no time do more probes run than the limit
    /// allows.
    pub fn next(&mut self) -> (action: SweepAction)
        ensures
            final(self)@ == spec_launch(old(self)@),
            spec_sweep_action(old(self)@, action),
            spec_sweep_valid(old(self)@),
            spec_sweep_valid(final(self)@),
    {
        proof {
            use_type_invariant(&*self);
            lemma_sweep_stays_valid(self@, 0, false);
        }
        if self.launched < self.targets.len() && self.running < self.limit {
            let mut current = Sweep::idle();
            core::mem::swap(self, &mut current);
            let (next, index, target) = current.launch();
            *self = next;
            SweepAction::Launch { index, target, timeout_ms: self.timeout_ms }
        } else if self.running > 0 {
            SweepAction::Wait
        } else {
            let mut hosts: Vec<NetworkAddress> = Vec::new();
            let mut i: usize = 0;
            while i < self.slots.len()
                invariant
                    i <= self.slots@.len() == self.targets@.len(),
                    hosts@ == spec_reachable(self.targets@, self.slots@, i as nat),
                decreases self.slots.len() - i,
            {
                if self.slots[i] == (Slot::Settled { reachable: true }) {
                    hosts.push(self.targets[i]);
                }
                i = i + 1;
            }
            SweepAction::Finish { hosts }
        }
    }

    /// Takes in the verdict of the probe of the target at `index`. A
    /// verdict for a probe that does not run is ignored.
    pub fn settle(&mut self, index: usize, reachable: bool)
        ensures
            final(self)@ == spec_settle(old(self)@, index as int, reachable),
            spec_sweep_valid(final(self)@),
    {
        proof {
            use_type_invariant(&*self);
            lemma_sweep_stays_valid(self@, index as int, reachable);
        }
        let mut current = Sweep::idle();
        core::mem::swap(self, &mut current);
        *self = current.settled(index, reachable);
    }
}

/// The reachability prober.
#[derive(Clone, Copy, Debug)]
pub struct PingScanner {
    limit: usize,
}

impl PingScanner {
    /// How many hosts the prober probes at the same time.
    pub closed spec fn limit(&self) -> nat {
        self.limit as nat
    }

    #[verifier::type_invariant]
    spec fn room_for_one(self) -> bool {
        self.limit >= 1
    }

    /// A prober that probes `limit` hosts at a time, and one at a time
    /// where `limit` is zero.
    pub fn with_limit(limit: usize) -> (scanner: PingScanner)
        ensures
            scanner.limit() == if limit == 0 {
                1
            } else {
                limit as nat
            },
    {
        PingScanner {
            limit: if limit == 0 {
                1
            } else {
                limit
            },
        }
    }

    /// A prober that probes fifty hosts at a time.
    pub fn new() -> (scanner: PingScanner)
        ensures
            scanner.limit() == CONCURRENT_LIMIT,
    {
        PingScanner { limit: CONCURRENT_LIMIT }
    }

    /// Begins the probe of one host with a budget of `timeout_ms`
    /// milliseconds: up to two echo requests with half the budget each,
    /// then the fallback ports with a seventh of the budget each.
    pub fn ping_host(&self, ip: NetworkAddress, timeout_ms: u64) -> (probe: HostProbe)
        ensures
            probe@.target == ip,
            probe@.timeout_ms == timeout_ms,
            probe@.stage == spec_first_stage(timeout_ms),
    {
        HostProbe::begin(ip, timeout_ms)
    }

    /// Begins a sweep of the hosts, each with a budget of `timeout_ms`
    /// milliseconds.
    pub fn sweep(&self, ip_addresses: Vec<NetworkAddress>, timeout_ms: u64) -> (sweep: Sweep)
        ensures
            sweep@ == spec_sweep_begin(ip_addresses@, timeout_ms, self.limit()),
            spec_sweep_valid(sweep@),
    {
        proof {
            use_type_invariant(self);
        }
        let mut slots: Vec<Slot> = Vec::new();
        let mut i: usize = 0;
        while i < ip_addresses.len()
            invariant
                i <= ip_addresses@.len(),
                slots@ == Seq::new(i as nat, |k: int| Slot::Waiting),
            decreases ip_addresses.len() - i,
        {
            slots.push(Slot::Waiting);
            i = i + 1;
        }
        proof {
            lemma_running_zero(slots@);
        }
        Sweep {
            targets: ip_addresses,
            timeout_ms,
            limit: self.limit,
            slots,
            launched: 0,
            running: 0,
        }
    }
}

/// A sweep tells its caller to finish only when every probe has ended, and
/// it never lets more probes run than its limit allows.
pub proof fn lemma_finish_when_settled(state: SweepState)
    requires
        spec_sweep_valid(state),
        !spec_has_room(state),
        spec_running(state.slots) == 0,
    ensures
        state.launched == state.targets.len(),
        forall|i: int| 0 <= i < state.slots.len() ==> (#[trigger] state.slots[i]) is Settled,
{
    lemma_running_zero(state.slots);
}

/// Beginning a probe and taking in a verdict keep a sweep valid: at any
/// time at most `limit` probes run.
pub proof fn lemma_sweep_stays_valid(state: SweepState, index: int, reachable: bool)
    requires
        spec_sweep_valid(state),
    ensures
        spec_sweep_valid(spec_launch(state)),
        spec_sweep_valid(spec_settle(state, index, reachable)),
        spec_sweep_valid(spec_sweep_begin(state.targets, state.timeout_ms, state.limit)),
{
    if spec_has_room(state) {
        lemma_running_update(state.slots, state.launched as int, Slot::Running);
    }
    if 0 <= index < state.slots.len() && state.slots[index] == Slot::Running {
        lemma_running_update(state.slots, index, Slot::Settled { reachable });
    }
    lemma_running_zero(spec_sweep_begin(state.targets, state.timeout_ms, state.limit).slots);
}

} // verus!
