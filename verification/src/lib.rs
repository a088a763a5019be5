//! Discovery-and-enumeration engine for a local IPv4 subnet.
//!
//! The engine finds the hosts of a subnet that are alive, by two methods
//! that work at different layers, and looks at the ports of each of them:
//!
//! - [`arp`] asks every target for its hardware address with a broadcast
//!   request and keeps the replies that come in during a fixed window;
//!   [`frame`] is the wire format of those requests and replies.
//! - [`ping`] probes one host with echo requests and falls back to
//!   connection attempts on ports that are often open, and sweeps many
//!   hosts with a bounded number of probes at a time.
//! - [`discovery`] unites what both methods found into one set of active
//!   hosts.
//! - [`portscan`] probes the candidate ports of an active host and lists
//!   the open ones in the order of the candidates; [`banner`] reads what
//!   the services behind them say.
//! - [`session`] holds what one run was asked to do and what it found.
//! - [`network`], [`ports`] and [`arp_cache`] read what the run is given:
//!   the addresses of the interfaces, the list of candidate ports, the
//!   neighbour cache of the system.
//!
//! The engine holds the decisions of a scan and none of its I/O. Each
//! prober is a state machine: it hands out one action at a time, the
//! caller performs it on the sockets and channels that it owns, and reports
//! the outcome as an event. A timeout, a refusal or a frame that cannot be
//! read is such an outcome, never an error; only faults in how the scan
//! was set up are errors ([`error::ConfigError`]).

pub mod address;
pub mod error;
pub mod text;
pub mod frame;
pub mod arp;
pub mod arp_cache;
pub mod ping;
pub mod discovery;
pub mod banner;
pub mod portscan;
pub mod ports;
pub mod network;
pub mod session;
