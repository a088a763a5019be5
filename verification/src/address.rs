//! Network-layer and link-layer addresses.

use vstd::prelude::*;

verus! {

/// A 32-bit IPv4 address, most significant octet first.
#[derive(Clone, Copy, Debug, PartialEq, Eq, Structural, Hash)]
pub struct NetworkAddress(pub u32);

/// A 48-bit link-layer address, in transmission order.
#[derive(Clone, Copy, Debug, PartialEq, Eq, Structural, Hash)]
pub struct HardwareAddress(pub u8, pub u8, pub u8, pub u8, pub u8, pub u8);

/// The number that four octets denote when read most significant first.
pub open spec fn spec_from_octets(a: u8, b: u8, c: u8, d: u8) -> u32 {
    ((a as u32) << 24) | ((b as u32) << 16) | ((c as u32) << 8) | (d as u32)
}

/// Octet `k` (0 is the most significant) of a 32-bit number.
pub open spec fn spec_octet(bits: u32, k: int) -> u8 {
    if k == 0 {
        (bits >> 24) as u8
    } else if k == 1 {
        ((bits >> 16) & 0xff) as u8
    } else if k == 2 {
        ((bits >> 8) & 0xff) as u8
    } else {
        (bits & 0xff) as u8
    }
}

/// Splitting a number into octets and joining them again changes nothing,
/// and neither does joining octets and splitting the result.
pub proof fn lemma_octets_roundtrip(bits: u32, a: u8, b: u8, c: u8, d: u8)
    ensures
        spec_from_octets(
            spec_octet(bits, 0),
            spec_octet(bits, 1),
            spec_octet(bits, 2),
            spec_octet(bits, 3),
        ) == bits,
        spec_octet(spec_from_octets(a, b, c, d), 0) == a,
        spec_octet(spec_from_octets(a, b, c, d), 1) == b,
        spec_octet(spec_from_octets(a, b, c, d), 2) == c,
        spec_octet(spec_from_octets(a, b, c, d), 3) == d,
{
    assert(((((bits >> 24) as u8) as u32) << 24) | (((((bits >> 16) & 0xff) as u8) as u32) << 16)
        | (((((bits >> 8) & 0xff) as u8) as u32) << 8) | (((bits & 0xff) as u8) as u32) == bits)
        by (bit_vector);
    let x = spec_from_octets(a, b, c, d);
    assert((x >> 24) as u8 == a && ((x >> 16) & 0xff) as u8 == b && ((x >> 8) & 0xff) as u8 == c
        && (x & 0xff) as u8 == d) by (bit_vector)
        requires
            x == ((a as u32) << 24) | ((b as u32) << 16) | ((c as u32) << 8) | (d as u32),
    ;
}

impl NetworkAddress {
    /// The address as a number.
    pub open spec fn bits(self) -> u32 {
        self.0
    }

    /// The four octets of the address, most significant first.
    pub open spec fn spec_octets(self) -> Seq<u8> {
        seq![
            spec_octet(self.0, 0),
            spec_octet(self.0, 1),
            spec_octet(self.0, 2),
            spec_octet(self.0, 3),
        ]
    }

    /// The address `a.b.c.d`.
    pub fn from_octets(a: u8, b: u8, c: u8, d: u8) -> (r: NetworkAddress)
        ensures
            r.0 == spec_from_octets(a, b, c, d),
            r.spec_octets() == seq![a, b, c, d],
    {
        proof {
            lemma_octets_roundtrip(0, a, b, c, d);
        }
        NetworkAddress(((a as u32) << 24) | ((b as u32) << 16) | ((c as u32) << 8) | (d as u32))
    }

    /// The four octets of the address, most significant first.
    pub fn octets(&self) -> (r: [u8; 4])
        ensures
            r@ == self.spec_octets(),
    {
        let bits: u32 = self.0;
        [
            (bits >> 24) as u8,
            ((bits >> 16) & 0xff) as u8,
            ((bits >> 8) & 0xff) as u8,
            (bits & 0xff) as u8,
        ]
    }
}

impl HardwareAddress {
    /// The six octets of the address, in transmission order.
    pub open spec fn spec_octets(self) -> Seq<u8> {
        seq![self.0, self.1, self.2, self.3, self.4, self.5]
    }

    /// The address with every bit set, which every station receives.
    pub fn broadcast() -> (r: HardwareAddress)
        ensures
            r == HardwareAddress(0xff, 0xff, 0xff, 0xff, 0xff, 0xff),
    {
        HardwareAddress(0xff, 0xff, 0xff, 0xff, 0xff, 0xff)
    }

    /// The address with no bit set, which stands for "not known".
    pub fn zero() -> (r: HardwareAddress)
        ensures
            r == HardwareAddress(0, 0, 0, 0, 0, 0),
    {
        HardwareAddress(0, 0, 0, 0, 0, 0)
    }

    /// The six octets of the address, in transmission order.
    pub fn octets(&self) -> (r: [u8; 6])
        ensures
            r@ == self.spec_octets(),
    {
        [self.0, self.1, self.2, self.3, self.4, self.5]
    }
}

} // verus!
