//! Subnets: which one an interface lies in, and which addresses it holds.

use vstd::prelude::*;
use crate::address::NetworkAddress;
use vstd::arithmetic::power2::{pow2, lemma_pow2_unfold, lemma2_to64};
use crate::error::ConfigError;

verus! {

/// How many bits an IPv4 address has.
pub const ADDRESS_BITS: u8 = 32;

/// The mask that keeps the first `prefix` bits of an address.
pub open spec fn spec_mask(prefix: u8) -> u32 {
    if prefix == 0 {
        0
    } else {
        0xffff_ffffu32 << ((32 - prefix) as u32)
    }
}

/// How many bits of `x` are set.
pub open spec fn spec_count_ones(x: u32) -> nat
    decreases x,
{
    if x == 0 {
        0
    } else {
        (x % 2) as nat + spec_count_ones(x / 2)
    }
}

/// A subnet: an address and the number of its leading bits that all
/// addresses of the subnet share.
#[derive(Clone, Copy, Debug)]
pub struct Subnet {
    address: NetworkAddress,
    prefix: u8,
}

/// A subnet as contracts see it.
pub struct SubnetSpec {
    /// The address that the subnet was made with.
    pub address: NetworkAddress,
    /// The length of the prefix, in bits.
    pub prefix: u8,
}

impl SubnetSpec {
    /// The lowest address of the subnet.
    pub open spec fn network(self) -> u32 {
        self.address.0 & spec_mask(self.prefix)
    }

    /// The highest address of the subnet.
    pub open spec fn broadcast(self) -> u32 {
        self.address.0 | !spec_mask(self.prefix)
    }

    /// How many addresses the subnet holds.
    pub open spec fn size(self) -> nat {
        (self.broadcast() - self.network() + 1) as nat
    }

    /// Whether the subnet holds the address.
    pub open spec fn contains(self, address: NetworkAddress) -> bool {
        self.network() <= address.0 <= self.broadcast()
    }
}

impl View for Subnet {
    type V = SubnetSpec;

    closed spec fn view(&self) -> SubnetSpec {
        SubnetSpec { address: self.address, prefix: self.prefix }
    }
}

/// The lowest address of a subnet is not above its highest, and the two
/// are as far apart as the prefix leaves room: a prefix of `p` bits leaves
/// `2^(32 - p)` addresses.
pub proof fn lemma_subnet_span(subnet: SubnetSpec)
    requires
        subnet.prefix <= 32,
    ensures
        subnet.network() <= subnet.broadcast(),
        subnet.size() == (1u64 << ((32 - subnet.prefix) as u64)),
        subnet.contains(subnet.address),
{
    let a = subnet.address.0;
    let p = subnet.prefix;
    if p == 0 {
        assert(a & 0u32 == 0u32 && a | !0u32 == 0xffff_ffffu32) by (bit_vector);
        assert(1u64 << 32u64 == 0x1_0000_0000u64) by (bit_vector);
    } else {
        let m = spec_mask(p);
        let shift = (32 - p) as u32;
        assert(m == 0xffff_ffffu32 << shift);
        assert((a & m) <= a && a <= (a | !m) && (a | !m) - (a & m) + 1 == (1u64 << (shift as u64)))
            by (bit_vector)
            requires
                m == 0xffff_ffffu32 << shift,
                shift < 32,
        ;
    }
}

impl Subnet {
    #[verifier::type_invariant]
    spec fn prefix_fits(self) -> bool {
        self.prefix <= 32
    }

    /// The subnet of `address` with a prefix of `prefix` bits. There is no
    /// subnet with a prefix of more than 32 bits.
    pub fn new(address: NetworkAddress, prefix: u8) -> (made: Result<Subnet, ConfigError>)
        ensures
            match made {
                Ok(subnet) => prefix <= 32 && subnet@.address == address && subnet@.prefix
                    == prefix,
                Err(e) => prefix > 32 && e == ConfigError::InvalidPrefix,
            },
    {
        if prefix > ADDRESS_BITS {
            Err(ConfigError::InvalidPrefix)
        } else {
            Ok(Subnet { address, prefix })
        }
    }

    /// The address that the subnet was made with.
    pub fn address(&self) -> (address: NetworkAddress)
        ensures
            address == self@.address,
    {
        self.address
    }

    /// The length of the prefix, in bits.
    pub fn prefix(&self) -> (prefix: u8)
        ensures
            prefix == self@.prefix,
            prefix <= 32,
    {
        proof {
            use_type_invariant(self);
        }
        self.prefix
    }

    /// The mask that keeps the prefix of an address.
    pub fn mask(&self) -> (mask: u32)
        ensures
            mask == spec_mask(self@.prefix),
    {
        proof {
            use_type_invariant(self);
        }
        if self.prefix == 0 {
            0
        } else {
            0xffff_ffffu32 << ((32 - self.prefix) as u32)
        }
    }

    /// The lowest address of the subnet.
    pub fn network(&self) -> (address: NetworkAddress)
        ensures
            address.0 == self@.network(),
    {
        NetworkAddress(self.address.0 & self.mask())
    }

    /// The highest address of the subnet.
    pub fn broadcast(&self) -> (address: NetworkAddress)
        ensures
            address.0 == self@.broadcast(),
    {
        NetworkAddress(self.address.0 | !self.mask())
    }

    /// How many addresses the subnet holds.
    pub fn size(&self) -> (size: u64)
        ensures
            size == self@.size(),
            size == (1u64 << ((32 - self@.prefix) as u64)),
    {
        proof {
            use_type_invariant(self);
            lemma_subnet_span(self@);
        }
        let first = self.network().0 as u64;
        let last = self.broadcast().0 as u64;
        last - first + 1
    }
}

/// An address of an interface.
#[derive(Clone, Copy, Debug, PartialEq, Eq, Structural)]
pub enum InterfaceAddress {
    /// An IPv4 address with its netmask.
    V4 { ip: NetworkAddress, netmask: NetworkAddress },
    /// An address of another family.
    Other,
}

/// One address of one interface, as the system lists it.
#[derive(Debug)]
pub struct InterfaceEntry {
    /// The name of the interface.
    pub name: String,
    /// The address.
    pub address: InterfaceAddress,
}

/// A number below `2^k` has at most `k` bits set.
pub proof fn lemma_count_ones_bound(x: u32, k: nat)
    requires
        x < pow2(k),
    ensures
        spec_count_ones(x) <= k,
    decreases k,
{
    if x != 0 {
        if k == 0 {
            lemma2_to64();
        } else {
            lemma_pow2_unfold(k);
            lemma_count_ones_bound(x / 2, (k - 1) as nat);
        }
    }
}

/// How many bits of `x` are set.
pub fn count_ones(x: u32) -> (n: u8)
    ensures
        n == spec_count_ones(x),
        n <= 32,
{
    proof {
        lemma2_to64();
        lemma_count_ones_bound(x, 32);
    }
    let mut rest: u32 = x;
    let mut n: u8 = 0;
    while rest != 0
        invariant
            n + spec_count_ones(rest) == spec_count_ones(x),
            spec_count_ones(x) <= 32,
        decreases rest,
    {
        if rest % 2 == 1 {
            n = n + 1;
        }
        rest = rest / 2;
    }
    n
}

/// The subnet that an interface with the given address and netmask lies
/// in: its prefix has as many bits as the netmask has bits set.
pub open spec fn spec_subnet_of(ip: NetworkAddress, netmask: NetworkAddress) -> SubnetSpec {
    SubnetSpec {
        address: NetworkAddress(ip.0 & netmask.0),
        prefix: spec_count_ones(netmask.0) as u8,
    }
}

/// Whether an entry is an IPv4 address of the interface of the given name.
pub open spec fn spec_is_ipv4_of(entry: InterfaceEntry, name: Seq<char>) -> bool {
    entry.name@ == name && entry.address is V4
}

/// The subnet of an interface: that of the first IPv4 address listed under
/// its name.
pub fn get_local_subnet(interfaces: &Vec<InterfaceEntry>, interface_name: &String) -> (found:
    Result<Subnet, ConfigError>)
    ensures
        match found {
            Ok(subnet) => exists|i: int|
                0 <= i < interfaces@.len() && spec_is_ipv4_of(
                    #[trigger] interfaces@[i],
                    interface_name@,
                ) && (forall|k: int|
                    0 <= k < i ==> !spec_is_ipv4_of(#[trigger] interfaces@[k], interface_name@))
                    && subnet@ == spec_subnet_of(
                    interfaces@[i].address->ip,
                    interfaces@[i].address->netmask,
                ),
            Err(e) => e == ConfigError::NoIpv4Address && forall|k: int|
                0 <= k < interfaces@.len() ==> !spec_is_ipv4_of(
                    #[trigger] interfaces@[k],
                    interface_name@,
                ),
        },
{
    let mut i: usize = 0;
    while i < interfaces.len()
        invariant
            i <= interfaces@.len(),
            forall|k: int|
                0 <= k < i ==> !spec_is_ipv4_of(#[trigger] interfaces@[k], interface_name@),
        decreases interfaces.len() - i,
    {
        if interfaces[i].name == *interface_name {
            match interfaces[i].address {
                InterfaceAddress::V4 { ip, netmask } => {
                    let prefix = count_ones(netmask.0);
                    let made = Subnet::new(NetworkAddress(ip.0 & netmask.0), prefix);
                    match made {
                        Ok(subnet) => {
                            assert(spec_is_ipv4_of(interfaces@[i as int], interface_name@));
                            return Ok(subnet);
                        },
                        Err(_) => {},
                    }
                },
                InterfaceAddress::Other => {},
            }
        }
        i = i + 1;
    }
    Err(ConfigError::NoIpv4Address)
}

/// Every address of the subnet, from the lowest to the highest.
pub fn get_network_hosts(network: Subnet) -> (hosts: Vec<NetworkAddress>)
    ensures
        hosts@.len() == network@.size(),
        forall|i: int| 0 <= i < hosts@.len() ==> (#[trigger] hosts@[i]).0 == network@.network() + i,
{
    proof {
        use_type_invariant(&network);
        lemma_subnet_span(network@);
    }
    let first = network.network().0 as u64;
    let last = network.broadcast().0 as u64;
    let mut hosts: Vec<NetworkAddress> = Vec::new();
    let mut next: u64 = first;
    while next <= last
        invariant
            first <= next <= last + 1,
            last <= 0xffff_ffff,
            hosts@.len() == next - first,
            forall|i: int| 0 <= i < hosts@.len() ==> (#[trigger] hosts@[i]).0 == first + i,
        decreases last + 1 - next,
    {
        hosts.push(NetworkAddress(next as u32));
        next = next + 1;
    }
    hosts
}

/// One line of the listing of interfaces.
#[derive(Clone, Copy, Debug)]
pub struct InterfaceLine {
    /// Which entry of the system's list the line is for.
    pub index: usize,
    /// Whether the line is the first of its interface, so that the name of
    /// the interface stands above it.
    pub heads_group: bool,
    /// The subnet of the entry, where it is an IPv4 address.
    pub network: Option<Subnet>,
}

/// The names of the interfaces of a list of entries.
pub open spec fn spec_names(interfaces: Seq<InterfaceEntry>) -> Seq<Seq<char>> {
    interfaces.map_values(|entry: InterfaceEntry| entry.name@)
}

/// Whether no earlier entry has the name of the entry at `i`.
pub open spec fn spec_is_first(names: Seq<Seq<char>>, i: int) -> bool {
    forall|k: int| 0 <= k < i ==> #[trigger] names[k] != names[i]
}

/// The entries among the first `upto` that have the name of the entry at
/// `i`, in the order of the list.
pub open spec fn spec_members(names: Seq<Seq<char>>, i: int, upto: nat) -> Seq<int>
    decreases upto,
{
    if upto == 0 {
        Seq::empty()
    } else if names[upto - 1] == names[i] {
        spec_members(names, i, (upto - 1) as nat).push(upto - 1)
    } else {
        spec_members(names, i, (upto - 1) as nat)
    }
}

/// The order in which the entries are listed: interface by interface, the
/// interfaces in the order in which the list names them first, and the
/// entries of one interface in the order of the list. `upto` says how many
/// entries have been looked at for a name that is new.
pub open spec fn spec_listing(names: Seq<Seq<char>>, upto: nat) -> Seq<int>
    decreases upto,
{
    if upto == 0 {
        Seq::empty()
    } else if spec_is_first(names, upto - 1) {
        spec_listing(names, (upto - 1) as nat) + spec_members(names, upto - 1, names.len())
    } else {
        spec_listing(names, (upto - 1) as nat)
    }
}

/// Whether a line says of the entry that it is for what the listing is to
/// say of it.
pub open spec fn spec_line_for(interfaces: Seq<InterfaceEntry>, line: InterfaceLine) -> bool {
    &&& 0 <= line.index < interfaces.len()
    &&& line.heads_group == spec_is_first(spec_names(interfaces), line.index as int)
    &&& match interfaces[line.index as int].address {
        InterfaceAddress::V4 { ip, netmask } => line.network matches Some(subnet) && subnet@
            == spec_subnet_of(ip, netmask),
        InterfaceAddress::Other => line.network is None,
    }
}

fn is_first(interfaces: &Vec<InterfaceEntry>, i: usize) -> (first: bool)
    requires
        i < interfaces@.len(),
    ensures
        first == spec_is_first(spec_names(interfaces@), i as int),
{
    let mut k: usize = 0;
    while k < i
        invariant
            k <= i < interfaces@.len(),
            forall|w: int| 0 <= w < k ==> #[trigger] spec_names(interfaces@)[w] != spec_names(
                interfaces@,
            )[i as int],
        decreases i - k,
    {
        if interfaces[k].name == interfaces[i].name {
            assert(spec_names(interfaces@)[k as int] == spec_names(interfaces@)[i as int]);
            return false;
        }
        k = k + 1;
    }
    true
}

fn line_for(interfaces: &Vec<InterfaceEntry>, index: usize) -> (line: InterfaceLine)
    requires
        index < interfaces@.len(),
    ensures
        line.index == index,
        spec_line_for(interfaces@, line),
{
    let network = match interfaces[index].address {
        InterfaceAddress::V4 { ip, netmask } => {
            match Subnet::new(NetworkAddress(ip.0 & netmask.0), count_ones(netmask.0)) {
                Ok(subnet) => Some(subnet),
                Err(_) => None,
            }
        },
        InterfaceAddress::Other => None,
    };
    InterfaceLine { index, heads_group: is_first(interfaces, index), network }
}

/// Lists the addresses of all interfaces, interface by interface, each
/// IPv4 address with the subnet that it lies in.
pub fn list_interfaces(interfaces: &Vec<InterfaceEntry>) -> (lines: Vec<InterfaceLine>)
    ensures
        lines@.len() == spec_listing(spec_names(interfaces@), interfaces@.len()).len(),
        forall|k: int|
            0 <= k < lines@.len() ==> (#[trigger] lines@[k]).index == spec_listing(
                spec_names(interfaces@),
                interfaces@.len(),
            )[k] && spec_line_for(interfaces@, lines@[k]),
{
    let n = interfaces.len();
    let ghost names = spec_names(interfaces@);
    let mut lines: Vec<InterfaceLine> = Vec::new();
    let mut i: usize = 0;
    while i < n
        invariant
            i <= n == interfaces@.len(),
            names == spec_names(interfaces@),
            lines@.len() == spec_listing(names, i as nat).len(),
            forall|k: int|
                0 <= k < lines@.len() ==> (#[trigger] lines@[k]).index == spec_listing(
                    names,
                    i as nat,
                )[k] && spec_line_for(interfaces@, lines@[k]),
        decreases n - i,
    {
        if is_first(interfaces, i) {
            let ghost before = lines@;
            let mut j: usize = 0;
            while j < n
                invariant
                    j <= n == interfaces@.len(),
                    i < n,
                    names == spec_names(interfaces@),
                    lines@.len() == before.len() + spec_members(names, i as int, j as nat).len(),
                    forall|k: int| 0 <= k < before.len() ==> lines@[k] == before[k],
                    forall|k: int|
                        before.len() <= k < lines@.len() ==> (#[trigger] lines@[k]).index
                            == spec_members(names, i as int, j as nat)[k - before.len()]
                            && spec_line_for(interfaces@, lines@[k]),
                decreases n - j,
            {
                if interfaces[j].name == interfaces[i].name {
                    assert(names[j as int] == names[i as int]);
                    lines.push(line_for(interfaces, j));
                } else {
                    assert(names[j as int] != names[i as int]);
                }
                j = j + 1;
            }
            proof {
                let added = spec_members(names, i as int, n as nat);
                let listing = spec_listing(names, (i + 1) as nat);
                assert(listing == spec_listing(names, i as nat) + added);
                assert forall|k: int| 0 <= k < lines@.len() implies (#[trigger] lines@[k]).index
                    == listing[k] && spec_line_for(interfaces@, lines@[k]) by {
                    if k < before.len() {
                        assert(lines@[k] == before[k]);
                        assert(before[k].index == spec_listing(names, i as nat)[k]);
                    } else {
                        assert(lines@[k].index == added[k - before.len()]);
                    }
                }
            }
        }
        i = i + 1;
    }
    lines
}

} // verus!
