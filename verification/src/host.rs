//! The host's bookkeeping of its agents: which ones it has heard of, when,
//! and which one takes the next request.

use crate::node::{instant_now, Node, NodeAddr};
use crate::protocol::{lemma_ack_returns_seq, read_back, Frame};
use std::collections::HashMap;
use vstd::prelude::*;

verus! {

/// Why a request of the host failed.
#[derive(Debug, Clone, Copy, PartialEq, Eq, Structural)]
pub enum HostError {
    /// No agent is known, or the host was not started.
    NoCarawler,
    /// The host must be started first.
    InitNeeded,
    /// No response came in time.
    Timeout,
}

/// No two nodes of `nodes` share an address.
pub open spec fn distinct_addrs(nodes: Seq<Node>) -> bool {
    forall|i: int, j: int|
        0 <= i < j < nodes.len() ==> #[trigger] nodes[i].node_addr != #[trigger] nodes[j].node_addr
}

/// Some node of `nodes` is at `addr`.
pub open spec fn has_addr(nodes: Seq<Node>, addr: NodeAddr) -> bool {
    exists|i: int| 0 <= i < nodes.len() && #[trigger] nodes[i].node_addr == addr
}

/// Whether `i` is the first position in `nodes` of a node at `addr`.
pub open spec fn first_at(nodes: Seq<Node>, addr: NodeAddr, i: int) -> bool {
    &&& 0 <= i < nodes.len()
    &&& nodes[i].node_addr == addr
    &&& forall|j: int| 0 <= j < i ==> #[trigger] nodes[j].node_addr != addr
}

/// `n`, last heard of at `now`.
pub open spec fn touched(n: Node, now: tokio::time::Instant) -> Node {
    Node {
        id: n.id,
        name: n.name,
        node_addr: n.node_addr,
        last_update: now,
        frame_sent: n.frame_sent,
        frame_recvd: n.frame_recvd,
    }
}

/// Whether `after` is `before` with the agent at `addr` recorded as heard of
/// at `now`: the first node at `addr` gets `now` as its last update, and
/// nothing else changes; where there is none, a new node for `addr` (empty
/// name, id 0, no frames counted, last heard of at `now`) goes in front of the
/// others.
pub open spec fn updated_at(
    before: Seq<Node>,
    after: Seq<Node>,
    addr: NodeAddr,
    now: tokio::time::Instant,
) -> bool {
    &&& forall|i: int|
        first_at(before, addr, i) ==> after == before.update(i, touched(before[i], now))
    &&& !has_addr(before, addr) ==> {
        &&& after.len() == before.len() + 1
        &&& after.subrange(1, after.len() as int) == before
        &&& after[0].node_addr == addr
        &&& after[0].last_update == now
        &&& after[0].id == 0
        &&& after[0].name@ == Seq::<char>::empty()
        &&& after[0].frame_sent == 0
        &&& after[0].frame_recvd == 0
    }
}

/// Records that the agent at `addr` was heard of at `now` (see `updated_at`).
/// Afterwards a node is at `addr`, and nodes with distinct addresses keep
/// distinct addresses.
pub fn update_node_at(nodes: &mut Vec<Node>, addr: &NodeAddr, now: tokio::time::Instant)
    ensures
        has_addr(final(nodes)@, *addr),
        distinct_addrs(old(nodes)@) ==> distinct_addrs(final(nodes)@),
        final(nodes)@.len() == old(nodes)@.len() + if has_addr(old(nodes)@, *addr) {
            0int
        } else {
            1int
        },
        updated_at(old(nodes)@, final(nodes)@, *addr, now),
{
    let mut i: usize = 0;
    while i < nodes.len()
        invariant
            i <= nodes.len(),
            nodes@ == old(nodes)@,
            forall|j: int| 0 <= j < i ==> #[trigger] nodes@[j].node_addr != *addr,
        decreases nodes.len() - i,
    {
        if nodes[i].node_addr == *addr {
            nodes[i].last_update = now;
            proof {
                assert(first_at(old(nodes)@, *addr, i as int));
                assert(nodes@ =~= old(nodes)@.update(i as int, touched(old(nodes)@[i as int], now)));
                assert(nodes@[i as int].node_addr == *addr);
                assert forall|a: int, b: int| distinct_addrs(old(nodes)@) && 0 <= a < b < nodes@.len()
                    implies #[trigger] nodes@[a].node_addr != #[trigger] nodes@[b].node_addr by {
                    assert(nodes@[a].node_addr == old(nodes)@[a].node_addr);
                    assert(nodes@[b].node_addr == old(nodes)@[b].node_addr);
                }
                assert forall|k: int| first_at(old(nodes)@, *addr, k) implies k == i by {
                    if k < i {
                    } else if k > i {
                        assert(old(nodes)@[i as int].node_addr == *addr);
                    }
                }
            }
            return;
        }
        i = i + 1;
    }
    // The insertion at the front is costly, but insertion does not happen often.
    nodes.insert(0, Node::new_at(String::new(), *addr, now));
    proof {
        assert(nodes@[0].node_addr == *addr);
        assert(nodes@.subrange(1, nodes@.len() as int) =~= old(nodes)@);
        assert forall|k: int| !first_at(old(nodes)@, *addr, k) by {
            if 0 <= k < old(nodes)@.len() {
                assert(old(nodes)@[k].node_addr != *addr);
            }
        }
        assert forall|a: int, b: int| distinct_addrs(old(nodes)@) && 0 <= a < b < nodes@.len()
            implies #[trigger] nodes@[a].node_addr != #[trigger] nodes@[b].node_addr by {
            if a == 0 {
                assert(nodes@[b] == old(nodes)@[b - 1]);
            } else {
                assert(nodes@[a] == old(nodes)@[a - 1]);
                assert(nodes@[b] == old(nodes)@[b - 1]);
            }
        }
    }
}

/// Records that the agent at `addr` was heard of just now (see
/// `update_node_at`).
pub fn update_node(nodes: &mut Vec<Node>, addr: &NodeAddr)
    ensures
        has_addr(final(nodes)@, *addr),
        distinct_addrs(old(nodes)@) ==> distinct_addrs(final(nodes)@),
        final(nodes)@.len() == old(nodes)@.len() + if has_addr(old(nodes)@, *addr) {
            0int
        } else {
            1int
        },
        exists|now: tokio::time::Instant| updated_at(old(nodes)@, final(nodes)@, *addr, now),
{
    let now = instant_now();
    update_node_at(nodes, addr, now);
    assert(updated_at(old(nodes)@, nodes@, *addr, now));
}

/// Chooses the node that takes the next request, the first one, and records
/// `now` as its last update; `None` where there is no node.
pub fn choose_node_at(nodes: &mut Vec<Node>, now: tokio::time::Instant) -> (r: Option<NodeAddr>)
    ensures
        old(nodes)@.len() == 0 ==> r is None && final(nodes)@ == old(nodes)@,
        old(nodes)@.len() > 0 ==> r == Some(old(nodes)@[0].node_addr) && final(nodes)@
            == old(nodes)@.update(0, touched(old(nodes)@[0], now)),
{
    if nodes.len() != 0 {
        nodes[0].last_update = now;
        proof {
            assert(nodes@ =~= old(nodes)@.update(0, touched(old(nodes)@[0], now)));
        }
        return Some(nodes[0].node_addr);
    }
    None
}

/// Chooses the node that takes the next request, the first one, and records
/// that it was used just now; `None` where there is no node.
pub fn choose_node(nodes: &mut Vec<Node>) -> (r: Option<NodeAddr>)
    ensures
        old(nodes)@.len() == 0 ==> r is None && final(nodes)@ == old(nodes)@,
        old(nodes)@.len() > 0 ==> r == Some(old(nodes)@[0].node_addr) && exists|
            now: tokio::time::Instant,
        | final(nodes)@ == old(nodes)@.update(0, touched(old(nodes)@[0], now)),
{
    let now = instant_now();
    let r = choose_node_at(nodes, now);
    assert(old(nodes)@.len() > 0 ==> nodes@ == old(nodes)@.update(0, touched(old(nodes)@[0], now)));
    r
}

/// The requests that wait for their responses, each under its sequence
/// number, so that the receive loop can find the requester of a response and
/// post the response to it.
pub struct WaitQueue<T> {
    waiters: HashMap<u32, T>,
}

impl<T> View for WaitQueue<T> {
    type V = Map<u32, T>;

    /// The waiter of each request, by the request's sequence number.
    closed spec fn view(&self) -> Map<u32, T> {
        self.waiters@
    }
}

/// The waiter that the response `ack` answers, in `waiters`.
pub open spec fn requester<T>(waiters: Map<u32, T>, ack: u32) -> Option<T> {
    if waiters.contains_key(ack) {
        Some(waiters[ack])
    } else {
        None
    }
}

impl<T> WaitQueue<T> {
    /// A queue with no waiters.
    pub fn new() -> (q: Self)
        ensures
            q@ == Map::<u32, T>::empty(),
    {
        WaitQueue { waiters: HashMap::new() }
    }

    /// Registers `waiter` as the requester of the request numbered `seq`.
    pub fn insert(&mut self, seq: u32, waiter: T)
        ensures
            final(self)@ == old(self)@.insert(seq, waiter),
    {
        broadcast use vstd::std_specs::hash::group_hash_axioms;
        self.waiters.insert(seq, waiter);
    }

    /// Takes out the requester of the request that `response` answers: the
    /// waiter registered under the response's acknowledgement number, if any.
    pub fn take_requester<B>(&mut self, response: &Frame<B>) -> (r: Option<T>)
        ensures
            r == requester(old(self)@, response.ack),
            final(self)@ == old(self)@.remove(response.ack),
    {
        broadcast use vstd::std_specs::hash::group_hash_axioms;
        self.waiters.remove(&response.ack)
    }
}

/// A response reaches the requester of the request it answers, once: after
/// `waiter` was registered under `seq`, the response whose acknowledgement
/// number is `seq` takes out `waiter`, and no waiter is left under `seq`.
pub proof fn lemma_response_reaches_requester<T>(waiters: Map<u32, T>, seq: u32, waiter: T)
    ensures
        requester(waiters.insert(seq, waiter), seq) == Some(waiter),
        requester(waiters.insert(seq, waiter).remove(seq), seq) is None,
{
}

/// A response finds its requester across the wire: where the requester of
/// request `f` waits under `f`'s sequence number, and the receiver answers
/// with a response `g` that acknowledges the number it read from `f`, the
/// host that reads `g` back finds that requester.
pub proof fn lemma_requester_found_over_wire<T>(
    waiters: Map<u32, T>,
    waiter: T,
    f: Frame<Seq<u8>>,
    fc: Option<Seq<u8>>,
    g: Frame<Seq<u8>>,
    gc: Option<Seq<u8>>,
)
    requires
        g.ack == read_back(f, fc).seq,
    ensures
        requester(waiters.insert(f.seq, waiter), read_back(g, gc).ack) == Some(waiter),
{
    lemma_ack_returns_seq(f, fc, g, gc);
}

} // verus!
