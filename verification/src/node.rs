//! The agents that a host knows of.

use vstd::prelude::*;

verus! {

/// A moment in time, as tokio measures it.
#[verifier::external_type_specification]
#[verifier::external_body]
pub struct ExInstant(tokio::time::Instant);

/// `tokio::time::Instant::now`: the current time. Nothing is stated of the
/// result; it comes from the clock.
#[verifier::external_body]
pub(crate) fn instant_now() -> tokio::time::Instant {
    tokio::time::Instant::now()
}

/// An IPv4 socket address: the address as a 32-bit number (most significant
/// byte first in dotted notation) and the port. Nodes are identified by it.
#[derive(Debug, Clone, Copy, PartialEq, Eq, Structural)]
pub struct NodeAddr {
    pub ip: u32,
    pub port: u16,
}

/// Provide infrastructure for communication over Frame.
#[derive(Debug)]
pub struct Node {
    /// Node id.
    pub id: i32,
    /// Node's unique name.
    pub name: String,
    /// Peer address. Used to identify nodes.
    pub node_addr: NodeAddr,
    /// Last communication time. Updated by the discovery service.
    pub last_update: tokio::time::Instant,
    /// Count of sent frames.
    pub frame_sent: usize,
    /// Count of received frames.
    pub frame_recvd: usize,
}

impl Node {
    /// A node named `name` at `addr`, last heard of at `now`, with id 0 and no
    /// frames counted.
    pub fn new_at(name: String, addr: NodeAddr, now: tokio::time::Instant) -> (n: Node)
        ensures
            n.id == 0,
            n.name == name,
            n.node_addr == addr,
            n.last_update == now,
            n.frame_sent == 0,
            n.frame_recvd == 0,
    {
        Node { id: 0, name, node_addr: addr, last_update: now, frame_sent: 0, frame_recvd: 0 }
    }

    /// A node named `name` at `addr`, last heard of now, with id 0 and no
    /// frames counted.
    pub fn new(name: String, addr: NodeAddr) -> (n: Node)
        ensures
            n.id == 0,
            n.name == name,
            n.node_addr == addr,
            n.frame_sent == 0,
            n.frame_recvd == 0,
    {
        Self::new_at(name, addr, instant_now())
    }
}

} // verus!
