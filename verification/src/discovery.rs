//! The discovery coordinator: it unites what the reachability prober and
//! the address-resolution prober found into one set of active hosts.
//!
//! The set is a set: a host that both probers found stands in it once, and
//! is marked as found by both. Nothing is ever taken out of it.

use vstd::prelude::*;
use crate::address::{HardwareAddress, NetworkAddress};
use crate::error::ConfigError;

verus! {

/// How a host was found.
#[derive(Clone, Copy, Debug, PartialEq, Eq, Structural)]
pub enum DiscoveryMethod {
    /// It answered an address-resolution request.
    AddressResolution,
    /// The reachability prober found it alive.
    Reachability,
    /// Both of the above.
    Both,
}

/// Which probers a run uses.
#[derive(Clone, Copy, Debug, PartialEq, Eq, Structural)]
pub enum DiscoveryMode {
    /// The reachability prober alone.
    ReachabilityOnly,
    /// The reachability prober, and address resolution in addition.
    ReachabilityAndResolution,
    /// Address resolution alone.
    ResolutionOnly,
}

/// A host that is alive.
#[derive(Clone, Copy, Debug, PartialEq, Eq, Structural)]
pub struct ActiveHost {
    /// Its address.
    pub address: NetworkAddress,
    /// How it was found.
    pub method: DiscoveryMethod,
}

/// How a host was found that was found in two ways.
pub open spec fn spec_merge(a: DiscoveryMethod, b: DiscoveryMethod) -> DiscoveryMethod {
    if a == b {
        a
    } else {
        DiscoveryMethod::Both
    }
}

/// Whether a list names `address`.
pub open spec fn spec_lists(hosts: Seq<ActiveHost>, address: NetworkAddress) -> bool {
    exists|i: int| 0 <= i < hosts.len() && (#[trigger] hosts[i]).address == address
}

/// Whether no address stands twice in a list.
pub open spec fn spec_unique(hosts: Seq<ActiveHost>) -> bool {
    forall|i: int, j: int|
        0 <= i < j < hosts.len() ==> (#[trigger] hosts[i]).address != (#[trigger] hosts[j]).address
}

/// A list of hosts as a set: each address with how it was found.
pub open spec fn spec_as_map(hosts: Seq<ActiveHost>) -> Map<NetworkAddress, DiscoveryMethod> {
    Map::new(
        |a: NetworkAddress| spec_lists(hosts, a),
        |a: NetworkAddress|
            hosts[choose|i: int| 0 <= i < hosts.len() && (#[trigger] hosts[i]).address == a].method,
    )
}

/// A set with one more finding: the host is added where it is new, and its
/// mark is merged where it is known.
pub open spec fn spec_found(
    set: Map<NetworkAddress, DiscoveryMethod>,
    address: NetworkAddress,
    method: DiscoveryMethod,
) -> Map<NetworkAddress, DiscoveryMethod> {
    if set.contains_key(address) {
        set.insert(address, spec_merge(set[address], method))
    } else {
        set.insert(address, method)
    }
}

/// The union of two sets: every host of either, with the marks of a host of
/// both merged.
pub open spec fn spec_union(
    a: Map<NetworkAddress, DiscoveryMethod>,
    b: Map<NetworkAddress, DiscoveryMethod>,
) -> Map<NetworkAddress, DiscoveryMethod> {
    Map::new(
        |k: NetworkAddress| a.contains_key(k) || b.contains_key(k),
        |k: NetworkAddress|
            if a.contains_key(k) && b.contains_key(k) {
                spec_merge(a[k], b[k])
            } else if a.contains_key(k) {
                a[k]
            } else {
                b[k]
            },
    )
}

/// The set of the given addresses, all found in the same way.
pub open spec fn spec_tagged(addresses: Set<NetworkAddress>, method: DiscoveryMethod) -> Map<
    NetworkAddress,
    DiscoveryMethod,
> {
    Map::new(|k: NetworkAddress| addresses.contains(k), |k: NetworkAddress| method)
}

/// Every host of a duplicate-free list stands in its set with its own mark.
pub proof fn lemma_as_map_at(hosts: Seq<ActiveHost>, i: int)
    requires
        spec_unique(hosts),
        0 <= i < hosts.len(),
    ensures
        spec_as_map(hosts).contains_key(hosts[i].address),
        spec_as_map(hosts)[hosts[i].address] == hosts[i].method,
{
    let a = hosts[i].address;
    let j = choose|j: int| 0 <= j < hosts.len() && (#[trigger] hosts[j]).address == a;
    if j < i {
        assert(hosts[j].address != hosts[i].address);
    }
    if i < j {
        assert(hosts[i].address != hosts[j].address);
    }
}

/// A duplicate-free list holds as many hosts as its set: the set is finite
/// and has one member for each entry of the list.
pub proof fn lemma_as_map_len(hosts: Seq<ActiveHost>)
    requires
        spec_unique(hosts),
    ensures
        spec_as_map(hosts).dom().finite(),
        spec_as_map(hosts).dom().len() == hosts.len(),
    decreases hosts.len(),
{
    if hosts.len() == 0 {
        assert(spec_as_map(hosts).dom() =~= Set::<NetworkAddress>::empty());
    } else {
        let shorter = hosts.drop_last();
        let last = hosts.last();
        assert forall|i: int, j: int| 0 <= i < j < shorter.len() implies (
        #[trigger] shorter[i]).address != (#[trigger] shorter[j]).address by {
            assert(shorter[i] == hosts[i]);
            assert(shorter[j] == hosts[j]);
        }
        lemma_as_map_len(shorter);
        assert(!spec_lists(shorter, last.address)) by {
            if spec_lists(shorter, last.address) {
                let w = choose|w: int|
                    0 <= w < shorter.len() && (#[trigger] shorter[w]).address == last.address;
                assert(hosts[w].address != hosts[hosts.len() - 1].address);
            }
        }
        assert forall|a: NetworkAddress| spec_lists(hosts, a) == (spec_lists(shorter, a) || a
            == last.address) by {
            if spec_lists(hosts, a) {
                let w = choose|w: int| 0 <= w < hosts.len() && (#[trigger] hosts[w]).address == a;
                if w < shorter.len() {
                    assert(shorter[w].address == a);
                }
            }
            if spec_lists(shorter, a) {
                let w = choose|w: int|
                    0 <= w < shorter.len() && (#[trigger] shorter[w]).address == a;
                assert(hosts[w].address == a);
            }
            if a == last.address {
                assert(hosts[hosts.len() - 1].address == a);
            }
        }
        assert(spec_as_map(hosts).dom() =~= spec_as_map(shorter).dom().insert(last.address));
    }
}

/// A host of the set stands exactly once in a duplicate-free list of the
/// set, with the mark that the set gives it.
pub proof fn lemma_listed_once(hosts: Seq<ActiveHost>, address: NetworkAddress)
    requires
        spec_unique(hosts),
        spec_as_map(hosts).contains_key(address),
    ensures
        exists|i: int|
            0 <= i < hosts.len() && #[trigger] hosts[i] == (ActiveHost {
                address,
                method: spec_as_map(hosts)[address],
            }) && forall|j: int|
                0 <= j < hosts.len() && j != i ==> (#[trigger] hosts[j]).address != address,
{
    let i = choose|i: int| 0 <= i < hosts.len() && (#[trigger] hosts[i]).address == address;
    lemma_as_map_at(hosts, i);
    assert forall|j: int| 0 <= j < hosts.len() && j != i implies (#[trigger] hosts[j]).address
        != address by {
        if j < i {
            assert(hosts[j].address != hosts[i].address);
        } else {
            assert(hosts[i].address != hosts[j].address);
        }
    }
    assert(hosts[i] == (ActiveHost { address, method: spec_as_map(hosts)[address] }));
}

/// The set of active hosts.
pub struct ActiveHostSet {
    hosts: Vec<ActiveHost>,
}

impl View for ActiveHostSet {
    type V = Map<NetworkAddress, DiscoveryMethod>;

    closed spec fn view(&self) -> Map<NetworkAddress, DiscoveryMethod> {
        spec_as_map(self.hosts@)
    }
}

fn merge(a: DiscoveryMethod, b: DiscoveryMethod) -> (m: DiscoveryMethod)
    ensures
        m == spec_merge(a, b),
{
    if a == b {
        a
    } else {
        DiscoveryMethod::Both
    }
}

impl ActiveHostSet {
    #[verifier::type_invariant]
    spec fn each_once(self) -> bool {
        spec_unique(self.hosts@)
    }

    /// The empty set.
    pub fn new() -> (set: ActiveHostSet)
        ensures
            set@ == Map::<NetworkAddress, DiscoveryMethod>::empty(),
    {
        let set = ActiveHostSet { hosts: Vec::new() };
        assert(set@ =~= Map::<NetworkAddress, DiscoveryMethod>::empty());
        set
    }

    /// How many hosts the set holds.
    pub fn len(&self) -> (n: usize)
        ensures
            self@.dom().finite(),
            n == self@.dom().len(),
    {
        proof {
            use_type_invariant(self);
            lemma_as_map_len(self.hosts@);
        }
        self.hosts.len()
    }

    /// How the host of the given address was found, if it is in the set.
    pub fn method_of(&self, address: NetworkAddress) -> (method: Option<DiscoveryMethod>)
        ensures
            method == if self@.contains_key(address) {
                Some(self@[address])
            } else {
                None
            },
    {
        proof {
            use_type_invariant(self);
        }
        let mut i: usize = 0;
        while i < self.hosts.len()
            invariant
                i <= self.hosts@.len(),
                spec_unique(self.hosts@),
                forall|k: int| 0 <= k < i ==> (#[trigger] self.hosts@[k]).address != address,
            decreases self.hosts.len() - i,
        {
            if self.hosts[i].address == address {
                proof {
                    lemma_as_map_at(self.hosts@, i as int);
                }
                return Some(self.hosts[i].method);
            }
            i = i + 1;
        }
        None
    }

    /// Whether the host of the given address is in the set.
    pub fn contains(&self, address: NetworkAddress) -> (r: bool)
        ensures
            r == self@.contains_key(address),
    {
        self.method_of(address).is_some()
    }

    fn with(self, address: NetworkAddress, method: DiscoveryMethod) -> (next: (ActiveHostSet, bool))
        ensures
            next.0@ == spec_found(self@, address, method),
            next.1 == !self@.contains_key(address),
    {
        proof {
            use_type_invariant(&self);
        }
        let ActiveHostSet { hosts } = self;
        let mut hosts = hosts;
        let ghost before = hosts@;
        let mut i: usize = 0;
        while i < hosts.len()
            invariant
                i <= hosts@.len(),
                hosts@ == before,
                before == self.hosts@,
                spec_unique(before),
                forall|k: int| 0 <= k < i ==> (#[trigger] before[k]).address != address,
            decreases hosts.len() - i,
        {
            if hosts[i].address == address {
                let merged = merge(hosts[i].method, method);
                hosts.set(i, ActiveHost { address, method: merged });
                proof {
                    let after = hosts@;
                    lemma_as_map_at(before, i as int);
                    assert(spec_unique(after)) by {
                        assert forall|x: int, y: int| 0 <= x < y < after.len() implies (
                        #[trigger] after[x]).address != (#[trigger] after[y]).address by {
                            assert(after[x].address == before[x].address);
                            assert(after[y].address == before[y].address);
                        }
                    }
                    assert forall|k: NetworkAddress| spec_lists(after, k) == spec_lists(
                        before,
                        k,
                    ) by {
                        if spec_lists(after, k) {
                            let w = choose|w: int|
                                0 <= w < after.len() && (#[trigger] after[w]).address == k;
                            assert(before[w].address == k);
                        }
                        if spec_lists(before, k) {
                            let w = choose|w: int|
                                0 <= w < before.len() && (#[trigger] before[w]).address == k;
                            assert(after[w].address == k);
                        }
                    }
                    assert forall|k: NetworkAddress| spec_lists(after, k) implies #[trigger] spec_as_map(
                        after,
                    )[k] == spec_found(spec_as_map(before), address, method)[k] by {
                        let w = choose|w: int|
                            0 <= w < after.len() && (#[trigger] after[w]).address == k;
                        lemma_as_map_at(after, w);
                        lemma_as_map_at(before, w);
                    }
                    assert(spec_as_map(after) =~= spec_found(spec_as_map(before), address, method));
                }
                return (ActiveHostSet { hosts }, false);
            }
            i = i + 1;
        }
        hosts.push(ActiveHost { address, method });
        proof {
            let after = hosts@;
            assert(!spec_lists(before, address));
            assert(spec_unique(after)) by {
                assert forall|x: int, y: int| 0 <= x < y < after.len() implies (
                #[trigger] after[x]).address != (#[trigger] after[y]).address by {
                    if y == before.len() {
                        assert(before[x].address != address);
                    } else {
                        assert(after[x] == before[x]);
                        assert(after[y] == before[y]);
                    }
                }
            }
            assert forall|k: NetworkAddress| spec_lists(after, k) == (spec_lists(before, k) || k
                == address) by {
                if spec_lists(after, k) {
                    let w = choose|w: int|
                        0 <= w < after.len() && (#[trigger] after[w]).address == k;
                    if w < before.len() {
                        assert(before[w].address == k);
                    }
                }
                if spec_lists(before, k) {
                    let w = choose|w: int|
                        0 <= w < before.len() && (#[trigger] before[w]).address == k;
                    assert(after[w].address == k);
                }
                if k == address {
                    assert(after[before.len() as int].address == k);
                }
            }
            assert forall|k: NetworkAddress| spec_lists(after, k) implies #[trigger] spec_as_map(
                after,
            )[k] == spec_found(spec_as_map(before), address, method)[k] by {
                let w = choose|w: int| 0 <= w < after.len() && (#[trigger] after[w]).address == k;
                lemma_as_map_at(after, w);
                if w < before.len() {
                    assert(after[w] == before[w]);
                    lemma_as_map_at(before, w);
                }
            }
            assert(spec_as_map(after) =~= spec_found(spec_as_map(before), address, method));
        }
        (ActiveHostSet { hosts }, true)
    }

    /// Puts a finding into the set. A host that is new is added; a host
    /// that is known stays where it is, and is marked as found by both
    /// methods if it was found by another one before. Says whether the
    /// host was new. Nothing is ever taken out of the set.
    pub fn insert(&mut self, address: NetworkAddress, method: DiscoveryMethod) -> (added: bool)
        ensures
            final(self)@ == spec_found(old(self)@, address, method),
            added == !old(self)@.contains_key(address),
    {
        let mut current = ActiveHostSet { hosts: Vec::new() };
        core::mem::swap(self, &mut current);
        let (next, added) = current.with(address, method);
        *self = next;
        added
    }

    /// The hosts of the set, each once.
    pub fn hosts(&self) -> (list: Vec<ActiveHost>)
        ensures
            spec_unique(list@),
            spec_as_map(list@) == self@,
            list@.len() == self@.dom().len(),
    {
        proof {
            use_type_invariant(self);
            lemma_as_map_len(self.hosts@);
        }
        let mut list: Vec<ActiveHost> = Vec::new();
        let mut i: usize = 0;
        while i < self.hosts.len()
            invariant
                i <= self.hosts@.len(),
                list@ == self.hosts@.take(i as int),
            decreases self.hosts.len() - i,
        {
            list.push(self.hosts[i]);
            i = i + 1;
            assert(self.hosts@.take(i as int) == self.hosts@.take(i - 1).push(
                self.hosts@[i - 1],
            ));
        }
        assert(self.hosts@.take(i as int) == self.hosts@);
        list
    }
}

/// The addresses that answered an address-resolution pass.
pub open spec fn spec_senders(resolved: Seq<(NetworkAddress, HardwareAddress)>) -> Seq<
    NetworkAddress,
> {
    resolved.map_values(|pair: (NetworkAddress, HardwareAddress)| pair.0)
}

/// A set after the reachability prober reported: what it found alive is in
/// the set, marked accordingly. Order and repetitions in the report do not
/// matter.
pub open spec fn spec_after_reached(
    hosts: Map<NetworkAddress, DiscoveryMethod>,
    reached: Seq<NetworkAddress>,
) -> Map<NetworkAddress, DiscoveryMethod> {
    spec_union(hosts, spec_tagged(reached.to_set(), DiscoveryMethod::Reachability))
}

/// A set after the address-resolution prober reported.
pub open spec fn spec_after_resolved(
    hosts: Map<NetworkAddress, DiscoveryMethod>,
    resolved: Seq<(NetworkAddress, HardwareAddress)>,
) -> Map<NetworkAddress, DiscoveryMethod> {
    spec_union(
        hosts,
        spec_tagged(spec_senders(resolved).to_set(), DiscoveryMethod::AddressResolution),
    )
}

/// What a run with both probers finds: every host that either prober found,
/// marked by who found it.
pub open spec fn spec_discovered(
    reached: Set<NetworkAddress>,
    resolved: Set<NetworkAddress>,
) -> Map<NetworkAddress, DiscoveryMethod> {
    Map::new(
        |a: NetworkAddress| reached.contains(a) || resolved.contains(a),
        |a: NetworkAddress|
            if reached.contains(a) && resolved.contains(a) {
                DiscoveryMethod::Both
            } else if reached.contains(a) {
                DiscoveryMethod::Reachability
            } else {
                DiscoveryMethod::AddressResolution
            },
    )
}

/// What happened when the caller ran a prober.
pub enum CoordinatorEvent<'a> {
    /// The reachability prober found these hosts alive.
    Reached(&'a [NetworkAddress]),
    /// These hosts answered the address-resolution prober.
    Resolved(&'a [(NetworkAddress, HardwareAddress)]),
    /// The address-resolution prober could not be set up.
    Unavailable(ConfigError),
}

/// What the caller is to do next.
#[derive(Debug)]
pub enum CoordinatorAction {
    /// Run the probers named, over all targets, and report what each found.
    Probe {
        /// Whether the reachability prober is to run.
        reachability: bool,
        /// Whether the address-resolution prober is to run.
        resolution: bool,
    },
    /// The run is over: these are the active hosts.
    Finish {
        /// The active hosts, each once.
        hosts: Vec<ActiveHost>,
        /// Whether address resolution was asked for and could not be had.
        degraded: bool,
    },
    /// The run failed: its only prober could not be set up. Nothing more
    /// is to be sent.
    Fail {
        /// Why.
        error: ConfigError,
    },
}

/// The state of a run, as contracts see it.
pub struct CoordinatorState {
    /// Which probers the run uses.
    pub mode: DiscoveryMode,
    /// Whether the report of the reachability prober is still to come.
    pub awaits_reachability: bool,
    /// Whether the report of the address-resolution prober is still to come.
    pub awaits_resolution: bool,
    /// The active hosts so far.
    pub hosts: Map<NetworkAddress, DiscoveryMethod>,
    /// Why the run failed, if it did.
    pub failure: Option<ConfigError>,
    /// Whether address resolution was asked for and could not be had.
    pub degraded: bool,
}

/// The state in which a run begins.
pub open spec fn spec_run_begin(mode: DiscoveryMode) -> CoordinatorState {
    CoordinatorState {
        mode,
        awaits_reachability: mode != DiscoveryMode::ResolutionOnly,
        awaits_resolution: mode != DiscoveryMode::ReachabilityOnly,
        hosts: Map::empty(),
        failure: None,
        degraded: false,
    }
}

/// The state after an event. A report that is not awaited changes nothing.
/// Where address resolution cannot be had, a run that has another prober
/// goes on without it, and a run that has none fails.
pub open spec fn spec_run_step(state: CoordinatorState, event: CoordinatorEvent) -> CoordinatorState {
    match event {
        CoordinatorEvent::Reached(reached) => if state.awaits_reachability {
            CoordinatorState {
                awaits_reachability: false,
                hosts: spec_after_reached(state.hosts, reached@),
                ..state
            }
        } else {
            state
        },
        CoordinatorEvent::Resolved(resolved) => if state.awaits_resolution {
            CoordinatorState {
                awaits_resolution: false,
                hosts: spec_after_resolved(state.hosts, resolved@),
                ..state
            }
        } else {
            state
        },
        CoordinatorEvent::Unavailable(error) => if state.awaits_resolution {
            if state.mode == DiscoveryMode::ResolutionOnly {
                CoordinatorState { awaits_resolution: false, failure: Some(error), ..state }
            } else {
                CoordinatorState { awaits_resolution: false, degraded: true, ..state }
            }
        } else {
            state
        },
    }
}

/// Whether `action` is what the caller is to do in `state`.
pub open spec fn spec_run_pending(state: CoordinatorState, action: CoordinatorAction) -> bool {
    match state.failure {
        Some(e) => action matches CoordinatorAction::Fail { error } && error == e,
        None => if state.awaits_reachability || state.awaits_resolution {
            action matches CoordinatorAction::Probe { reachability, resolution } && reachability
                == state.awaits_reachability && resolution == state.awaits_resolution
        } else {
            action matches CoordinatorAction::Finish { hosts, degraded } && spec_unique(hosts@)
                && spec_as_map(hosts@) == state.hosts && degraded == state.degraded
        },
    }
}

/// Adding a host to the set of those found by one method is the same as
/// putting one more finding of that method into the union.
pub proof fn lemma_found_is_union(
    hosts: Map<NetworkAddress, DiscoveryMethod>,
    addresses: Set<NetworkAddress>,
    address: NetworkAddress,
    method: DiscoveryMethod,
)
    ensures
        spec_found(spec_union(hosts, spec_tagged(addresses, method)), address, method)
            == spec_union(hosts, spec_tagged(addresses.insert(address), method)),
{
    assert(spec_found(spec_union(hosts, spec_tagged(addresses, method)), address, method)
        =~= spec_union(hosts, spec_tagged(addresses.insert(address), method)));
}

/// The union of two sets does not depend on which is named first.
pub proof fn lemma_union_commutes(
    a: Map<NetworkAddress, DiscoveryMethod>,
    b: Map<NetworkAddress, DiscoveryMethod>,
)
    ensures
        spec_union(a, b) == spec_union(b, a),
{
    assert(spec_union(a, b) =~= spec_union(b, a));
}

/// Uniting a set with itself, or with something that was united into it
/// before, changes nothing.
pub proof fn lemma_union_idempotent(
    a: Map<NetworkAddress, DiscoveryMethod>,
    b: Map<NetworkAddress, DiscoveryMethod>,
)
    ensures
        spec_union(a, a) == a,
        spec_union(spec_union(a, b), b) == spec_union(a, b),
{
    assert(spec_union(a, a) =~= a);
    assert(spec_union(spec_union(a, b), b) =~= spec_union(a, b));
}

/// Uniting takes nothing out: every host of either set is in the union.
pub proof fn lemma_union_keeps(
    a: Map<NetworkAddress, DiscoveryMethod>,
    b: Map<NetworkAddress, DiscoveryMethod>,
)
    ensures
        a.dom().subset_of(spec_union(a, b).dom()),
        b.dom().subset_of(spec_union(a, b).dom()),
{
}

/// The two reports of a run may come in either order. Either way the run
/// ends with every host that either prober found, each once; a host that
/// both found is marked as found by both.
pub proof fn lemma_reports_commute(
    hosts: Map<NetworkAddress, DiscoveryMethod>,
    reached: Seq<NetworkAddress>,
    resolved: Seq<(NetworkAddress, HardwareAddress)>,
)
    ensures
        spec_after_resolved(spec_after_reached(hosts, reached), resolved) == spec_after_reached(
            spec_after_resolved(hosts, resolved),
            reached,
        ),
        spec_after_resolved(spec_after_reached(Map::empty(), reached), resolved)
            == spec_discovered(reached.to_set(), spec_senders(resolved).to_set()),
        forall|a: NetworkAddress|
            reached.contains(a) && spec_senders(resolved).contains(a) ==> #[trigger] spec_discovered(
                reached.to_set(),
                spec_senders(resolved).to_set(),
            )[a] == DiscoveryMethod::Both,
{
    assert(spec_after_resolved(spec_after_reached(hosts, reached), resolved)
        =~= spec_after_reached(spec_after_resolved(hosts, resolved), reached));
    assert(spec_after_resolved(spec_after_reached(Map::empty(), reached), resolved)
        =~= spec_discovered(reached.to_set(), spec_senders(resolved).to_set()));
}

/// Two runs over targets that did not change end with the same set of
/// hosts: what a report adds depends on which hosts it names, not on their
/// order or on how often it names them.
pub proof fn lemma_same_hosts_same_set(
    hosts: Map<NetworkAddress, DiscoveryMethod>,
    reached_once: Seq<NetworkAddress>,
    reached_again: Seq<NetworkAddress>,
    resolved_once: Seq<(NetworkAddress, HardwareAddress)>,
    resolved_again: Seq<(NetworkAddress, HardwareAddress)>,
)
    requires
        reached_once.to_set() == reached_again.to_set(),
        spec_senders(resolved_once).to_set() == spec_senders(resolved_again).to_set(),
    ensures
        spec_after_reached(hosts, reached_once) == spec_after_reached(hosts, reached_again),
        spec_after_resolved(hosts, resolved_once) == spec_after_resolved(hosts, resolved_again),
        spec_after_reached(spec_after_reached(hosts, reached_once), reached_again)
            == spec_after_reached(hosts, reached_once),
{
    lemma_union_idempotent(
        hosts,
        spec_tagged(reached_once.to_set(), DiscoveryMethod::Reachability),
    );
}

/// Whether a state is one that a run can be in: it awaits only probers of
/// its mode, and it has failed only where it had address resolution alone
/// and is not waiting for it any more.
pub open spec fn spec_run_valid(state: CoordinatorState) -> bool {
    &&& state.awaits_reachability ==> state.mode != DiscoveryMode::ResolutionOnly
    &&& state.awaits_resolution ==> state.mode != DiscoveryMode::ReachabilityOnly
    &&& state.failure is Some ==> state.mode == DiscoveryMode::ResolutionOnly
        && !state.awaits_resolution
    &&& state.degraded ==> state.mode == DiscoveryMode::ReachabilityAndResolution
        && !state.awaits_resolution
}

/// No event takes a host out of the set of a run, and a run that failed
/// stays failed.
pub proof fn lemma_step_keeps_hosts(state: CoordinatorState, event: CoordinatorEvent)
    requires
        spec_run_valid(state),
    ensures
        spec_run_valid(spec_run_step(state, event)),
        state.hosts.dom().subset_of(spec_run_step(state, event).hosts.dom()),
        spec_run_step(state, event).mode == state.mode,
        state.failure is Some ==> spec_run_step(state, event) == state,
        spec_run_valid(spec_run_begin(state.mode)),
{
}

/// The discovery coordinator of one run.
pub struct Coordinator {
    mode: DiscoveryMode,
    awaits_reachability: bool,
    awaits_resolution: bool,
    set: ActiveHostSet,
    failure: Option<ConfigError>,
    degraded: bool,
}

impl View for Coordinator {
    type V = CoordinatorState;

    closed spec fn view(&self) -> CoordinatorState {
        CoordinatorState {
            mode: self.mode,
            awaits_reachability: self.awaits_reachability,
            awaits_resolution: self.awaits_resolution,
            hosts: self.set@,
            failure: self.failure,
            degraded: self.degraded,
        }
    }
}

fn add_all(set: &mut ActiveHostSet, addresses: &[NetworkAddress], method: DiscoveryMethod)
    ensures
        final(set)@ == spec_union(old(set)@, spec_tagged(addresses@.to_set(), method)),
{
    let ghost before = set@;
    let mut i: usize = 0;
    assert(set@ =~= spec_union(before, spec_tagged(addresses@.take(0).to_set(), method)));
    while i < addresses.len()
        invariant
            i <= addresses@.len(),
            set@ == spec_union(before, spec_tagged(addresses@.take(i as int).to_set(), method)),
        decreases addresses.len() - i,
    {
        proof {
            lemma_found_is_union(
                before,
                addresses@.take(i as int).to_set(),
                addresses@[i as int],
                method,
            );
            let shorter = addresses@.take(i as int);
            let longer = addresses@.take(i + 1);
            assert(longer == shorter.push(addresses@[i as int]));
            assert forall|a: NetworkAddress| longer.to_set().contains(a) == shorter.to_set().insert(
                addresses@[i as int],
            ).contains(a) by {
                if longer.contains(a) {
                    let w = choose|w: int| 0 <= w < longer.len() && longer[w] == a;
                    if w < i {
                        assert(shorter[w] == a);
                    }
                }
                if shorter.contains(a) {
                    let w = choose|w: int| 0 <= w < shorter.len() && shorter[w] == a;
                    assert(longer[w] == a);
                }
                if a == addresses@[i as int] {
                    assert(longer[i as int] == a);
                }
            }
            assert(longer.to_set() =~= shorter.to_set().insert(addresses@[i as int]));
        }
        set.insert(addresses[i], method);
        i = i + 1;
    }
    assert(addresses@.take(i as int) == addresses@);
}

fn senders(resolved: &[(NetworkAddress, HardwareAddress)]) -> (addresses: Vec<NetworkAddress>)
    ensures
        addresses@ == spec_senders(resolved@),
{
    let mut addresses: Vec<NetworkAddress> = Vec::new();
    let mut i: usize = 0;
    while i < resolved.len()
        invariant
            i <= resolved@.len(),
            addresses@ == spec_senders(resolved@.take(i as int)),
        decreases resolved.len() - i,
    {
        addresses.push(resolved[i].0);
        i = i + 1;
        assert(spec_senders(resolved@.take(i as int)) =~= spec_senders(
            resolved@.take(i - 1),
        ).push(resolved@[i - 1].0));
    }
    assert(resolved@.take(i as int) == resolved@);
    addresses
}

impl Coordinator {
    #[verifier::type_invariant]
    spec fn in_order(self) -> bool {
        spec_run_valid(self@)
    }

    /// The coordinator of a run that uses the probers of `mode`.
    pub fn new(mode: DiscoveryMode) -> (coordinator: Coordinator)
        ensures
            coordinator@ == spec_run_begin(mode),
            spec_run_valid(coordinator@),
    {
        Coordinator {
            mode,
            awaits_reachability: mode != DiscoveryMode::ResolutionOnly,
            awaits_resolution: mode != DiscoveryMode::ReachabilityOnly,
            set: ActiveHostSet::new(),
            failure: None,
            degraded: false,
        }
    }

    /// What the caller is to do now. The hosts of a finished run are listed
    /// once each.
    pub fn pending(&self) -> (action: CoordinatorAction)
        ensures
            spec_run_pending(self@, action),
            spec_run_valid(self@),
    {
        proof {
            use_type_invariant(self);
        }
        match self.failure {
            Some(error) => CoordinatorAction::Fail { error },
            None => {
                if self.awaits_reachability || self.awaits_resolution {
                    CoordinatorAction::Probe {
                        reachability: self.awaits_reachability,
                        resolution: self.awaits_resolution,
                    }
                } else {
                    CoordinatorAction::Finish { hosts: self.set.hosts(), degraded: self.degraded }
                }
            },
        }
    }

    fn advance(self, event: CoordinatorEvent) -> (next: Coordinator)
        ensures
            next@ == spec_run_step(self@, event),
    {
        proof {
            use_type_invariant(&self);
            lemma_step_keeps_hosts(self@, event);
        }
        let Coordinator { mode, awaits_reachability, awaits_resolution, set, failure, degraded } =
            self;
        let mut set = set;
        match event {
            CoordinatorEvent::Reached(reached) => {
                if awaits_reachability {
                    add_all(&mut set, reached, DiscoveryMethod::Reachability);
                    Coordinator {
                        mode,
                        awaits_reachability: false,
                        awaits_resolution,
                        set,
                        failure,
                        degraded,
                    }
                } else {
                    Coordinator {
                        mode,
                        awaits_reachability,
                        awaits_resolution,
                        set,
                        failure,
                        degraded,
                    }
                }
            },
            CoordinatorEvent::Resolved(resolved) => {
                if awaits_resolution {
                    let addresses = senders(resolved);
                    add_all(&mut set, addresses.as_slice(), DiscoveryMethod::AddressResolution);
                    Coordinator {
                        mode,
                        awaits_reachability,
                        awaits_resolution: false,
                        set,
                        failure,
                        degraded,
                    }
                } else {
                    Coordinator {
                        mode,
                        awaits_reachability,
                        awaits_resolution,
                        set,
                        failure,
                        degraded,
                    }
                }
            },
            CoordinatorEvent::Unavailable(error) => {
                if awaits_resolution {
                    if mode == DiscoveryMode::ResolutionOnly {
                        Coordinator {
                            mode,
                            awaits_reachability,
                            awaits_resolution: false,
                            set,
                            failure: Some(error),
                            degraded,
                        }
                    } else {
                        Coordinator {
                            mode,
                            awaits_reachability,
                            awaits_resolution: false,
                            set,
                            failure,
                            degraded: true,
                        }
                    }
                } else {
                    Coordinator {
                        mode,
                        awaits_reachability,
                        awaits_resolution,
                        set,
                        failure,
                        degraded,
                    }
                }
            },
        }
    }

    /// Takes in the report of a prober and says what to do next.
    pub fn step(&mut self, event: CoordinatorEvent) -> (action: CoordinatorAction)
        ensures
            final(self)@ == spec_run_step(old(self)@, event),
            spec_run_pending(final(self)@, action),
            spec_run_valid(final(self)@),
    {
        let mut current = Coordinator::new(DiscoveryMode::ReachabilityOnly);
        core::mem::swap(self, &mut current);
        *self = current.advance(event);
        self.pending()
    }
}

} // verus!
