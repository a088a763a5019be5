//! The list of candidate ports: how its text is read, and where its file is
//! looked for.

use vstd::prelude::*;
use vstd::string::StringExecFns;
use crate::error::ConfigError;
use crate::text::{
    spec_fields, spec_trim, spec_parse_decimal, split_fields, trim, parse_decimal,
    LINE_FEED, CARRIAGE_RETURN,
};

verus! {

/// A comma, which stands between two ports of the list.
pub const COMMA: u8 = 0x2c;

/// A plus sign, which may stand before a number.
pub const PLUS: u8 = 0x2b;

/// Whether the octet at `i` belongs to a line ending: it is a line feed, or
/// a carriage return right before one.
pub open spec fn spec_ends_line(s: Seq<u8>, i: int) -> bool {
    s[i] == LINE_FEED || (s[i] == CARRIAGE_RETURN && i + 1 < s.len() && s[i + 1] == LINE_FEED)
}

/// The first `upto` octets of `s` with the line endings taken out, so that
/// what stood on several lines stands on one.
pub open spec fn spec_joined(s: Seq<u8>, upto: nat) -> Seq<u8>
    decreases upto,
{
    if upto == 0 {
        Seq::empty()
    } else if spec_ends_line(s, upto - 1) {
        spec_joined(s, (upto - 1) as nat)
    } else {
        spec_joined(s, (upto - 1) as nat).push(s[upto - 1])
    }
}

/// The port that an entry of the list denotes: decimal digits, a plus sign
/// before them if one likes, and no more than 65535.
pub open spec fn spec_parse_port(entry: Seq<u8>) -> Option<u16> {
    let digits = if entry.len() > 0 && entry.first() == PLUS {
        entry.drop_first()
    } else {
        entry
    };
    match spec_parse_decimal(digits, 65535) {
        Some(n) => Some(n as u16),
        None => None,
    }
}

/// The entries of the list: what stands between the commas, without the
/// white space around it.
pub open spec fn spec_entries(content: Seq<u8>) -> Seq<Seq<u8>> {
    spec_fields(spec_joined(content, content.len()), COMMA).map_values(
        |field: Seq<u8>| spec_trim(field),
    )
}

/// The ports that the text of a list denotes, in its order and with its
/// repetitions; `None` where an entry is no port.
pub open spec fn spec_port_list(content: Seq<u8>) -> Option<Seq<u16>> {
    let entries = spec_entries(content);
    if forall|i: int| 0 <= i < entries.len() ==> spec_parse_port(#[trigger] entries[i]) is Some {
        Some(Seq::new(entries.len(), |i: int| spec_parse_port(entries[i])->Some_0))
    } else {
        None
    }
}

fn join_lines(content: &[u8]) -> (joined: Vec<u8>)
    ensures
        joined@ == spec_joined(content@, content@.len()),
{
    let n = content.len();
    let mut joined: Vec<u8> = Vec::new();
    let mut i: usize = 0;
    while i < n
        invariant
            i <= n == content.len(),
            joined@ == spec_joined(content@, i as nat),
        decreases n - i,
    {
        let b = content[i];
        let ends = b == LINE_FEED || (b == CARRIAGE_RETURN && i + 1 < n && content[i + 1]
            == LINE_FEED);
        if !ends {
            joined.push(b);
        }
        i = i + 1;
    }
    joined
}

fn parse_port(entry: &[u8]) -> (port: Option<u16>)
    ensures
        port == spec_parse_port(entry@),
{
    let digits = if entry.len() > 0 && entry[0] == PLUS {
        let rest = &entry[1..entry.len()];
        assert(rest@ == entry@.drop_first());
        rest
    } else {
        entry
    };
    match parse_decimal(digits, 65535) {
        Some(n) => Some(n as u16),
        None => None,
    }
}

/// Reads the text of a list of ports: numbers with commas between them,
/// white space around them as one likes, on one line or on several (line
/// endings are taken out before anything else is looked at, so a number
/// may even run on from one line to the next). One entry that is no port
/// makes the whole list malformed.
pub fn read_ports_from_file(content: &[u8]) -> (ports: Result<Vec<u16>, ConfigError>)
    ensures
        match ports {
            Ok(list) => spec_port_list(content@) == Some(list@),
            Err(e) => e == ConfigError::MalformedPortList && spec_port_list(content@) is None,
        },
{
    let joined = join_lines(content);
    let fields = split_fields(joined.as_slice(), COMMA);
    let ghost entries = spec_entries(content@);
    let mut list: Vec<u16> = Vec::new();
    let mut i: usize = 0;
    while i < fields.len()
        invariant
            i <= fields@.len() == entries.len(),
            entries == spec_entries(content@),
            forall|k: int| 0 <= k < fields@.len() ==> spec_trim((#[trigger] fields@[k])@) == entries[k],
            list@.len() == i,
            forall|k: int| 0 <= k < i ==> spec_parse_port(#[trigger] entries[k]) == Some(list@[k]),
        decreases fields.len() - i,
    {
        let entry = trim(fields[i].as_slice());
        match parse_port(entry.as_slice()) {
            Some(port) => {
                list.push(port);
            },
            None => {
                assert(spec_parse_port(entries[i as int]) is None);
                return Err(ConfigError::MalformedPortList);
            },
        }
        i = i + 1;
    }
    assert(list@ =~= Seq::new(entries.len(), |i: int| spec_parse_port(entries[i])->Some_0));
    Ok(list)
}

/// `"ports/10000.txt"`: where the list of ports lies beside the program.
pub open spec fn spec_local_ports_file() -> Seq<char> {
    "ports/10000.txt"@
}

/// The places where an installed list of ports of the given file name may
/// lie, in the order in which they are tried.
pub open spec fn spec_system_ports_files(file_name: Seq<char>) -> Seq<Seq<char>> {
    seq![
        "/usr/local/share/angryether/ports/"@ + file_name,
        "/usr/share/angryether/ports/"@ + file_name,
        "/opt/angryether/ports/"@ + file_name,
    ]
}

/// The places where an installed list of ports of the given file name may
/// lie, in the order in which they are tried.
pub fn system_ports_files(file_name: &str) -> (paths: Vec<String>)
    ensures
        paths@.len() == 3,
        forall|i: int| 0 <= i < 3 ==> (#[trigger] paths@[i])@ == spec_system_ports_files(file_name@)[i],
{
    let mut paths: Vec<String> = Vec::new();
    paths.push(String::from_str("/usr/local/share/angryether/ports/").concat(file_name));
    paths.push(String::from_str("/usr/share/angryether/ports/").concat(file_name));
    paths.push(String::from_str("/opt/angryether/ports/").concat(file_name));
    paths
}

/// The places where the list of ports is looked for when none is named:
/// beside the program first, then where an installation puts it.
pub fn default_ports_files() -> (paths: Vec<String>)
    ensures
        paths@.len() == 4,
        paths@[0]@ == spec_local_ports_file(),
        forall|i: int|
            0 <= i < 3 ==> (#[trigger] paths@[i + 1])@ == spec_system_ports_files("10000.txt"@)[i],
{
    let mut paths: Vec<String> = Vec::new();
    paths.push(String::from_str("ports/10000.txt"));
    let mut system = system_ports_files("10000.txt");
    let third = system.pop().unwrap();
    let second = system.pop().unwrap();
    let first = system.pop().unwrap();
    paths.push(first);
    paths.push(second);
    paths.push(third);
    paths
}

/// The least index at which `exists` holds `true`.
pub open spec fn spec_first_existing(exists: Seq<bool>) -> Option<int>
    decreases exists.len(),
{
    if exists.len() == 0 {
        None
    } else if exists.first() {
        Some(0)
    } else {
        match spec_first_existing(exists.drop_first()) {
            Some(i) => Some(i + 1),
            None => None,
        }
    }
}

/// Which of the places that were looked at is the first where a file
/// exists.
pub fn first_existing(exists: &[bool]) -> (found: Option<usize>)
    ensures
        match found {
            Some(i) => spec_first_existing(exists@) == Some(i as int) && i < exists@.len(),
            None => spec_first_existing(exists@) is None,
        },
{
    let mut i: usize = 0;
    while i < exists.len()
        invariant
            i <= exists@.len(),
            forall|k: int| 0 <= k < i ==> !exists@[k],
        decreases exists.len() - i,
    {
        if exists[i] {
            proof {
                lemma_first_existing(exists@, i as int);
            }
            return Some(i);
        }
        i = i + 1;
    }
    proof {
        lemma_none_existing(exists@);
    }
    None
}

/// Which of the default places to read the list of ports from: the first
/// where a file exists, and the place beside the program where none does,
/// so that reading fails there with a message that names it.
pub fn get_default_ports_file(exists: &[bool]) -> (choice: usize)
    ensures
        choice == match spec_first_existing(exists@) {
            Some(i) => i,
            None => 0,
        },
        exists@.len() > 0 ==> choice < exists@.len(),
{
    match first_existing(exists) {
        Some(i) => i,
        None => 0,
    }
}

/// Where an installed list of ports lies: the first of the system places
/// where a file exists.
pub fn find_system_ports_file(exists: &[bool]) -> (choice: Result<usize, ConfigError>)
    ensures
        match choice {
            Ok(i) => spec_first_existing(exists@) == Some(i as int),
            Err(e) => e == ConfigError::PortsFileNotFound && spec_first_existing(exists@)
                is None,
        },
{
    match first_existing(exists) {
        Some(i) => Ok(i),
        None => Err(ConfigError::PortsFileNotFound),
    }
}

/// The first `true` stands where a scan from the start meets one, within
/// the list.
proof fn lemma_first_existing(exists: Seq<bool>, i: int)
    requires
        0 <= i < exists.len(),
        exists[i],
        forall|k: int| 0 <= k < i ==> !exists[k],
    ensures
        spec_first_existing(exists) == Some(i),
    decreases exists.len(),
{
    if i > 0 {
        assert(!exists[0]);
        let rest = exists.drop_first();
        assert forall|k: int| 0 <= k < i - 1 implies !rest[k] by {
            assert(rest[k] == exists[k + 1]);
        }
        lemma_first_existing(rest, i - 1);
    }
}

proof fn lemma_none_existing(exists: Seq<bool>)
    requires
        forall|k: int| 0 <= k < exists.len() ==> !exists[k],
    ensures
        spec_first_existing(exists) is None,
    decreases exists.len(),
{
    if exists.len() > 0 {
        assert(!exists[0]);
        let rest = exists.drop_first();
        assert forall|k: int| 0 <= k < rest.len() implies !rest[k] by {
            assert(rest[k] == exists[k + 1]);
        }
        lemma_none_existing(rest);
    }
}

} // verus!
