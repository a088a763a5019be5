//! Why a capability of the scanner cannot be had.

use vstd::prelude::*;

verus! {

/// A fault in how the scan was set up. Nothing that happens on the network
/// is an error of this kind: timeouts, refusals and unreadable frames are
/// results.
#[derive(Clone, Copy, Debug, PartialEq, Eq, Structural)]
pub enum ConfigError {
    /// No interface has the name that was asked for.
    InterfaceNotFound,
    /// The interface has no hardware address to send from.
    NoHardwareAddress,
    /// The interface has no IPv4 address.
    NoIpv4Address,
    /// A subnet was given a prefix of more than 32 bits.
    InvalidPrefix,
    /// The raw channel that the system offers is not an Ethernet channel.
    UnsupportedChannel,
    /// The raw channel could not be opened.
    ChannelUnavailable,
    /// The list of ports holds something that is no port number.
    MalformedPortList,
    /// No file with the list of ports was found.
    PortsFileNotFound,
}

} // verus!
