//! Pre-decoded gossip values handed to the update operations.
//!
//! Contact-info and version messages arrive already parsed; these types hold
//! exactly what the update logic reads from them: the node's address and the
//! advertised client release.

use vstd::prelude::*;

verus! {

/// A node address as it appears in a gossip message. Only IPv4 addresses can
/// be recorded in a history entry.
#[derive(Clone, Copy)]
pub enum IpAddress {
    V4([u8; 4]),
    V6([u8; 16]),
}

impl IpAddress {
    /// The four octets of an IPv4 address.
    pub open spec fn v4_octets(self) -> [u8; 4]
        recommends
            self is V4,
    {
        self->V4_0
    }
}

/// A socket address carried by a legacy gossip message.
#[derive(Clone, Copy)]
pub struct SocketAddress {
    pub ip: IpAddress,
    pub port: u16,
}

impl SocketAddress {
    /// The address part of the socket address.
    pub fn ip(&self) -> (r: IpAddress)
        ensures
            r == self.ip,
    {
        self.ip
    }
}

/// The client release advertised over gossip: which client is running and
/// its semantic version.
#[derive(Clone, Copy)]
pub struct GossipVersion {
    /// 0 for the reference client, 1 for the MEV client, greater for others.
    pub client: u16,
    pub major: u16,
    pub minor: u16,
    pub patch: u16,
}

/// A current-format contact-info message: the node's addresses and the
/// advertised client release.
pub struct ContactInfo {
    /// The node's addresses; the first one is the address of record.
    pub addrs: Vec<IpAddress>,
    pub version: GossipVersion,
}

/// A legacy contact-info message: only the gossip socket address is read.
#[derive(Clone, Copy)]
pub struct LegacyContactInfo {
    pub gossip: SocketAddress,
}

/// A semantic version triple as carried by version gossip messages.
#[derive(Clone, Copy)]
pub struct SemanticVersion {
    pub major: u16,
    pub minor: u16,
    pub patch: u16,
}

/// A current-format version message.
#[derive(Clone, Copy)]
pub struct Version2 {
    pub version: SemanticVersion,
}

/// A legacy version message.
#[derive(Clone, Copy)]
pub struct LegacyVersion {
    pub version: SemanticVersion,
}

} // verus!
