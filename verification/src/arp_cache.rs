//! The address-resolution cache of the system, as the kernel prints it:
//! one header line, then one line for each neighbour with its network
//! address in the first column and its hardware address in the fourth.

use std::collections::HashMap;
use vstd::prelude::*;
use crate::address::{NetworkAddress, spec_from_octets};
use crate::text::{
    spec_fields, spec_lines, spec_parse_decimal, spec_text, spec_words, parse_decimal,
    split_fields, split_lines, split_words, text_of,
};

verus! {

/// A full stop, which stands between the numbers of an address.
pub const FULL_STOP: u8 = 0x2e;

/// A colon, which stands between the octets of a hardware address.
pub const COLON: u8 = 0x3a;

/// The digit zero.
pub const ZERO: u8 = 0x30;

/// How many characters a hardware address has in print.
pub const HARDWARE_TEXT_LEN: usize = 17;

/// The number between 0 and 255 that a text denotes: one to three decimal
/// digits, without a zero in front of another digit.
pub open spec fn spec_parse_octet(text: Seq<u8>) -> Option<u8> {
    if text.len() > 3 || (text.len() > 1 && text.first() == ZERO) {
        None
    } else {
        match spec_parse_decimal(text, 255) {
            Some(n) => Some(n as u8),
            None => None,
        }
    }
}

/// The address that a text denotes: four numbers with full stops between
/// them.
pub open spec fn spec_parse_address(text: Seq<u8>) -> Option<NetworkAddress> {
    let parts = spec_fields(text, FULL_STOP);
    if parts.len() == 4 && spec_parse_octet(parts[0]) is Some && spec_parse_octet(parts[1])
        is Some && spec_parse_octet(parts[2]) is Some && spec_parse_octet(parts[3]) is Some {
        Some(
            NetworkAddress(
                spec_from_octets(
                    spec_parse_octet(parts[0])->Some_0,
                    spec_parse_octet(parts[1])->Some_0,
                    spec_parse_octet(parts[2])->Some_0,
                    spec_parse_octet(parts[3])->Some_0,
                ),
            ),
        )
    } else {
        None
    }
}

/// `"00:00:00:00:00:00"`: what stands in the place of a hardware address
/// that is not known yet.
pub open spec fn spec_incomplete() -> Seq<u8> {
    seq![
        0x30u8, 0x30, 0x3a, 0x30, 0x30, 0x3a, 0x30, 0x30, 0x3a, 0x30, 0x30, 0x3a, 0x30, 0x30,
        0x3a, 0x30, 0x30,
    ]
}

/// Whether a text has the looks of a known hardware address: seventeen
/// characters, a colon among them, and not the all-zero address.
pub open spec fn spec_is_hardware_text(text: Seq<u8>) -> bool {
    text.len() == HARDWARE_TEXT_LEN && text.contains(COLON) && text != spec_incomplete()
}

/// What a line of the cache tells: the address in its first column and the
/// hardware address in its fourth, where it has four columns and both can
/// be read.
pub open spec fn spec_cache_entry(line: Seq<u8>) -> Option<(u32, Seq<u8>)> {
    let words = spec_words(line);
    if words.len() >= 4 && spec_parse_address(words[0]) is Some && spec_is_hardware_text(
        words[3],
    ) {
        Some((spec_parse_address(words[0])->Some_0.0, words[3]))
    } else {
        None
    }
}

/// What the first `upto` lines tell, the header aside. Of two lines for one
/// address the later counts.
pub open spec fn spec_cache(lines: Seq<Seq<u8>>, upto: nat) -> Map<u32, Seq<u8>>
    decreases upto,
{
    if upto <= 1 {
        Map::empty()
    } else {
        match spec_cache_entry(lines[upto - 1]) {
            Some((address, hardware)) => spec_cache(lines, (upto - 1) as nat).insert(
                address,
                hardware,
            ),
            None => spec_cache(lines, (upto - 1) as nat),
        }
    }
}

/// What the text of the cache tells.
pub open spec fn spec_arp_cache(content: Seq<u8>) -> Map<u32, Seq<u8>> {
    spec_cache(spec_lines(content), spec_lines(content).len())
}

fn parse_octet(text: &[u8]) -> (octet: Option<u8>)
    ensures
        octet == spec_parse_octet(text@),
{
    if text.len() > 3 || (text.len() > 1 && text[0] == ZERO) {
        return None;
    }
    match parse_decimal(text, 255) {
        Some(n) => Some(n as u8),
        None => None,
    }
}

/// The address that a text denotes: four numbers between 0 and 255 with
/// full stops between them.
pub fn parse_address(text: &[u8]) -> (address: Option<NetworkAddress>)
    ensures
        address == spec_parse_address(text@),
{
    let parts = split_fields(text, FULL_STOP);
    if parts.len() != 4 {
        return None;
    }
    let a = parse_octet(parts[0].as_slice());
    let b = parse_octet(parts[1].as_slice());
    let c = parse_octet(parts[2].as_slice());
    let d = parse_octet(parts[3].as_slice());
    match (a, b, c, d) {
        (Some(a), Some(b), Some(c), Some(d)) => Some(NetworkAddress::from_octets(a, b, c, d)),
        _ => None,
    }
}

fn is_hardware_text(text: &[u8]) -> (r: bool)
    ensures
        r == spec_is_hardware_text(text@),
{
    if text.len() != HARDWARE_TEXT_LEN {
        return false;
    }
    let incomplete = [
        0x30u8, 0x30, 0x3a, 0x30, 0x30, 0x3a, 0x30, 0x30, 0x3a, 0x30, 0x30, 0x3a, 0x30, 0x30,
        0x3a, 0x30, 0x30,
    ];
    assert(incomplete@ =~= spec_incomplete());
    let mut colon = false;
    let mut same = true;
    let mut i: usize = 0;
    while i < HARDWARE_TEXT_LEN
        invariant
            i <= HARDWARE_TEXT_LEN == text@.len(),
            incomplete@ == spec_incomplete(),
            colon == text@.take(i as int).contains(COLON),
            same == (text@.take(i as int) =~= spec_incomplete().take(i as int)),
        decreases HARDWARE_TEXT_LEN - i,
    {
        let ghost before = text@.take(i as int);
        let ghost after = text@.take(i + 1);
        assert(after == before.push(text@[i as int]));
        proof {
            if before.contains(COLON) {
                let w = choose|w: int| 0 <= w < before.len() && before[w] == COLON;
                assert(after[w] == COLON);
            }
            if after.contains(COLON) && text@[i as int] != COLON {
                let w = choose|w: int| 0 <= w < after.len() && after[w] == COLON;
                assert(before[w] == COLON);
            }
            if text@[i as int] == COLON {
                assert(after[i as int] == COLON);
            }
            let zeros = spec_incomplete();
            assert(zeros.take(i + 1) == zeros.take(i as int).push(zeros[i as int]));
            if after == zeros.take(i + 1) {
                assert(before =~= after.drop_last());
                assert(zeros.take(i as int) =~= zeros.take(i + 1).drop_last());
                assert(after[i as int] == zeros.take(i + 1)[i as int]);
            }
        }
        if text[i] == COLON {
            colon = true;
        }
        if text[i] != incomplete[i] {
            same = false;
        }
        i = i + 1;
    }
    assert(text@.take(i as int) == text@);
    assert(spec_incomplete().take(i as int) == spec_incomplete());
    colon && !same
}

/// Reads the address-resolution cache of the system from its text. Lines
/// that do not tell of a neighbour with a known hardware address are
/// passed over.
pub fn read_system_arp_cache(content: &[u8]) -> (cache: HashMap<u32, String>)
    ensures
        cache@.dom() == spec_arp_cache(content@).dom(),
        forall|address: u32| #[trigger]
            cache@.contains_key(address) ==> cache@[address]@ == spec_text(
                spec_arp_cache(content@)[address],
            ),
{
    let lines = split_lines(content);
    let ghost all = spec_lines(content@);
    let mut cache: HashMap<u32, String> = HashMap::new();
    let mut i: usize = 1;
    if lines.len() <= 1 {
        assert(cache@.dom() =~= spec_arp_cache(content@).dom());
        return cache;
    }
    while i < lines.len()
        invariant
            1 <= i <= lines@.len() == all.len(),
            all == spec_lines(content@),
            forall|k: int| 0 <= k < lines@.len() ==> (#[trigger] lines@[k])@ == all[k],
            cache@.dom() == spec_cache(all, i as nat).dom(),
            forall|address: u32| #[trigger]
                cache@.contains_key(address) ==> cache@[address]@ == spec_text(
                    spec_cache(all, i as nat)[address],
                ),
        decreases lines.len() - i,
    {
        let words = split_words(lines[i].as_slice());
        if words.len() >= 4 {
            match parse_address(words[0].as_slice()) {
                Some(address) => {
                    if is_hardware_text(words[3].as_slice()) {
                        let hardware = text_of(words[3].as_slice());
                        cache.insert(address.0, hardware);
                        assert(cache@.dom() =~= spec_cache(all, (i + 1) as nat).dom());
                    }
                },
                None => {},
            }
        }
        i = i + 1;
    }
    cache
}

} // verus!
