//! The wire format of address-resolution probes: an Ethernet II header
//! followed by an address-resolution payload for IPv4 over Ethernet.
//!
//! | octets | field                         |
//! |--------|-------------------------------|
//! | 0..6   | destination hardware address  |
//! | 6..12  | source hardware address       |
//! | 12..14 | EtherType                     |
//! | 14..16 | hardware type                 |
//! | 16..18 | protocol type                 |
//! | 18     | hardware address length       |
//! | 19     | protocol address length       |
//! | 20..22 | operation                     |
//! | 22..28 | sender hardware address       |
//! | 28..32 | sender protocol address       |
//! | 32..38 | target hardware address       |
//! | 38..42 | target protocol address       |
//!
//! Every multi-octet number is sent most significant octet first.

use vstd::prelude::*;
use crate::address::{
    lemma_octets_roundtrip, spec_from_octets, spec_octet, HardwareAddress, NetworkAddress,
};

verus! {

/// Length of an Ethernet II header.
pub const ETHERNET_HEADER_LEN: usize = 14;

/// Length of an address-resolution payload for IPv4 over Ethernet.
pub const PAYLOAD_LEN: usize = 28;

/// Length of a whole probe frame.
pub const FRAME_LEN: usize = 42;

/// EtherType of an address-resolution payload.
pub const ETHERTYPE_ARP: u16 = 0x0806;

/// EtherType of IPv4, used as the payload's protocol type.
pub const ETHERTYPE_IPV4: u16 = 0x0800;

/// Hardware type of Ethernet.
pub const HARDWARE_ETHERNET: u16 = 1;

/// Operation code of a request.
pub const OPERATION_REQUEST: u16 = 1;

/// Operation code of a reply.
pub const OPERATION_REPLY: u16 = 2;

/// What an address-resolution payload asks or tells.
#[derive(Clone, Copy, Debug, PartialEq, Eq, Structural)]
pub enum OperationKind {
    /// "Who has this address?"
    Request,
    /// "I have it, at this hardware address."
    Reply,
    /// Any other operation code.
    Other(u16),
}

/// A probe for one target, as sent from one interface.
#[derive(Clone, Copy, Debug, PartialEq, Eq, Structural)]
pub struct ProbeRequest {
    /// The address asked for.
    pub target: NetworkAddress,
    /// The network address of the interface that asks.
    pub own_address: NetworkAddress,
    /// The hardware address of the interface that asks.
    pub own_hardware: HardwareAddress,
}

/// What an inbound frame says about its sender.
#[derive(Clone, Copy, Debug, PartialEq, Eq, Structural)]
pub struct ProbeReply {
    /// The sender's network address.
    pub sender: NetworkAddress,
    /// The sender's hardware address.
    pub sender_hardware: HardwareAddress,
    /// The operation that the payload declares.
    pub operation: OperationKind,
}

/// The two octets of a 16-bit number, most significant first.
pub open spec fn spec_be16(x: u16) -> Seq<u8> {
    seq![(x >> 8) as u8, (x & 0xff) as u8]
}

/// The 16-bit number that two octets denote, most significant first.
pub open spec fn spec_read_be16(hi: u8, lo: u8) -> u16 {
    ((hi as u16) << 8) | (lo as u16)
}

/// The operation that a code stands for.
pub open spec fn spec_operation(code: u16) -> OperationKind {
    if code == OPERATION_REQUEST {
        OperationKind::Request
    } else if code == OPERATION_REPLY {
        OperationKind::Reply
    } else {
        OperationKind::Other(code)
    }
}

/// The frame with the given header and payload fields.
pub open spec fn spec_frame(
    destination: HardwareAddress,
    source: HardwareAddress,
    operation: u16,
    sender_hardware: HardwareAddress,
    sender: NetworkAddress,
    target_hardware: HardwareAddress,
    target: NetworkAddress,
) -> Seq<u8> {
    destination.spec_octets() + source.spec_octets() + spec_be16(ETHERTYPE_ARP) + spec_be16(
        HARDWARE_ETHERNET,
    ) + spec_be16(ETHERTYPE_IPV4) + seq![6u8, 4u8] + spec_be16(operation)
        + sender_hardware.spec_octets() + sender.spec_octets() + target_hardware.spec_octets()
        + target.spec_octets()
}

/// The broadcast request that a probe puts on the wire: addressed to every
/// station, from the asking interface, naming the target with an unknown
/// (all-zero) hardware address.
pub open spec fn spec_request_frame(request: ProbeRequest) -> Seq<u8> {
    spec_frame(
        HardwareAddress(0xff, 0xff, 0xff, 0xff, 0xff, 0xff),
        request.own_hardware,
        OPERATION_REQUEST,
        request.own_hardware,
        request.own_address,
        HardwareAddress(0, 0, 0, 0, 0, 0),
        request.target,
    )
}

/// What a frame says about its sender, if it is long enough to hold an
/// address-resolution payload and its EtherType announces one.
pub open spec fn spec_decode(bytes: Seq<u8>) -> Option<ProbeReply> {
    if bytes.len() >= FRAME_LEN && spec_read_be16(bytes[12], bytes[13]) == ETHERTYPE_ARP {
        Some(
            ProbeReply {
                sender: NetworkAddress(
                    spec_from_octets(bytes[28], bytes[29], bytes[30], bytes[31]),
                ),
                sender_hardware: HardwareAddress(
                    bytes[22],
                    bytes[23],
                    bytes[24],
                    bytes[25],
                    bytes[26],
                    bytes[27],
                ),
                operation: spec_operation(spec_read_be16(bytes[20], bytes[21])),
            },
        )
    } else {
        None
    }
}

/// Splitting a 16-bit number into octets and joining them again changes
/// nothing.
pub proof fn lemma_be16_roundtrip(x: u16)
    ensures
        spec_read_be16(spec_be16(x)[0], spec_be16(x)[1]) == x,
{
    assert((((x >> 8) as u8) as u16) << 8 | (((x & 0xff) as u8) as u16) == x) by (bit_vector);
}

fn push_be16(out: &mut Vec<u8>, x: u16)
    ensures
        final(out)@ == old(out)@ + spec_be16(x),
{
    out.push((x >> 8) as u8);
    out.push((x & 0xff) as u8);
}

fn push_hardware(out: &mut Vec<u8>, address: HardwareAddress)
    ensures
        final(out)@ == old(out)@ + address.spec_octets(),
{
    out.push(address.0);
    out.push(address.1);
    out.push(address.2);
    out.push(address.3);
    out.push(address.4);
    out.push(address.5);
}

fn push_network(out: &mut Vec<u8>, address: NetworkAddress)
    ensures
        final(out)@ == old(out)@ + address.spec_octets(),
{
    let o = address.octets();
    out.push(o[0]);
    out.push(o[1]);
    out.push(o[2]);
    out.push(o[3]);
}

/// Lays out a frame with the given header and payload fields.
pub fn encode_frame(
    destination: HardwareAddress,
    source: HardwareAddress,
    operation: u16,
    sender_hardware: HardwareAddress,
    sender: NetworkAddress,
    target_hardware: HardwareAddress,
    target: NetworkAddress,
) -> (frame: Vec<u8>)
    ensures
        frame@ == spec_frame(
            destination,
            source,
            operation,
            sender_hardware,
            sender,
            target_hardware,
            target,
        ),
        frame@.len() == FRAME_LEN,
{
    let mut out: Vec<u8> = Vec::new();
    push_hardware(&mut out, destination);
    push_hardware(&mut out, source);
    push_be16(&mut out, ETHERTYPE_ARP);
    push_be16(&mut out, HARDWARE_ETHERNET);
    push_be16(&mut out, ETHERTYPE_IPV4);
    out.push(6);
    out.push(4);
    push_be16(&mut out, operation);
    push_hardware(&mut out, sender_hardware);
    push_network(&mut out, sender);
    push_hardware(&mut out, target_hardware);
    push_network(&mut out, target);
    out
}

impl ProbeRequest {
    /// The broadcast request frame of this probe.
    pub fn encode(&self) -> (frame: Vec<u8>)
        ensures
            frame@ == spec_request_frame(*self),
            frame@.len() == FRAME_LEN,
    {
        encode_frame(
            HardwareAddress::broadcast(),
            self.own_hardware,
            OPERATION_REQUEST,
            self.own_hardware,
            self.own_address,
            HardwareAddress::zero(),
            self.target,
        )
    }
}

fn read_be16(hi: u8, lo: u8) -> (x: u16)
    ensures
        x == spec_read_be16(hi, lo),
{
    ((hi as u16) << 8) | (lo as u16)
}

fn operation_of(code: u16) -> (kind: OperationKind)
    ensures
        kind == spec_operation(code),
{
    if code == OPERATION_REQUEST {
        OperationKind::Request
    } else if code == OPERATION_REPLY {
        OperationKind::Reply
    } else {
        OperationKind::Other(code)
    }
}

/// Reads what an inbound frame says about its sender. Frames that are too
/// short or carry another EtherType give `None`.
pub fn decode(bytes: &[u8]) -> (reply: Option<ProbeReply>)
    ensures
        reply == spec_decode(bytes@),
{
    if bytes.len() < FRAME_LEN {
        return None;
    }
    if read_be16(bytes[12], bytes[13]) != ETHERTYPE_ARP {
        return None;
    }
    Some(
        ProbeReply {
            sender: NetworkAddress::from_octets(bytes[28], bytes[29], bytes[30], bytes[31]),
            sender_hardware: HardwareAddress(
                bytes[22],
                bytes[23],
                bytes[24],
                bytes[25],
                bytes[26],
                bytes[27],
            ),
            operation: operation_of(read_be16(bytes[20], bytes[21])),
        },
    )
}

/// A frame laid out from fields decodes to the sender fields and the
/// operation that went in: whoever answers for address `sender` is read back
/// as exactly that address.
pub proof fn lemma_frame_roundtrip(
    destination: HardwareAddress,
    source: HardwareAddress,
    operation: u16,
    sender_hardware: HardwareAddress,
    sender: NetworkAddress,
    target_hardware: HardwareAddress,
    target: NetworkAddress,
)
    ensures
        spec_decode(
            spec_frame(
                destination,
                source,
                operation,
                sender_hardware,
                sender,
                target_hardware,
                target,
            ),
        ) == Some(
            ProbeReply { sender, sender_hardware, operation: spec_operation(operation) },
        ),
{
    let f = spec_frame(
        destination,
        source,
        operation,
        sender_hardware,
        sender,
        target_hardware,
        target,
    );
    assert(f.len() == 42);
    lemma_be16_roundtrip(ETHERTYPE_ARP);
    lemma_be16_roundtrip(operation);
    lemma_octets_roundtrip(sender.0, 0, 0, 0, 0);
    assert(f[12] == spec_be16(ETHERTYPE_ARP)[0]);
    assert(f[13] == spec_be16(ETHERTYPE_ARP)[1]);
    assert(f[20] == spec_be16(operation)[0]);
    assert(f[21] == spec_be16(operation)[1]);
    assert(f[22] == sender_hardware.0);
    assert(f[27] == sender_hardware.5);
    assert(f[28] == spec_octet(sender.0, 0));
    assert(f[31] == spec_octet(sender.0, 3));
}

} // verus!
