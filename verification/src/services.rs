//! The payloads that travel in frames between the host and its agents.

use rand::{thread_rng, RngCore};
use vstd::prelude::*;

verus! {

/// Agent basic information, sent to the host by discovery regularly. No
/// response is expected.
#[derive(Debug, Clone, PartialEq, Eq)]
pub struct AgentBasic {
    /// Unique name set by the agent's user.
    pub name: String,
    /// Address of the agent's network interface.
    pub local_addr: String,
}

/// A heartbeat: a ping carries some bytes, and its pong carries them back.
#[derive(Debug, Clone, PartialEq, Eq)]
pub enum Heartbeat {
    Ping(Vec<u8>),
    Pong(Vec<u8>),
}

/// Packet payload.
#[derive(Debug, Clone, PartialEq, Eq)]
pub enum Body {
    /// Empty.
    Empty,
    /// Sent by an agent to the host; no response expected.
    Discovery(AgentBasic),
    /// Heartbeat frame: a ping is answered by a pong.
    Heartbeat(Heartbeat),
}

/// The largest payload of a ping.
pub const MAX_PING_SIZE: usize = 255;

/// `RngCore::fill_bytes` of `rand` on the thread-local generator: overwrites
/// the bytes of `buf` with random ones and keeps its length. What the bytes
/// are is left unsaid: they come from a random generator.
#[verifier::external_body]
fn fill_random(buf: &mut Vec<u8>)
    ensures
        final(buf)@.len() == old(buf)@.len(),
{
    thread_rng().fill_bytes(buf.as_mut_slice())
}

impl Heartbeat {
    /// The bytes that the heartbeat carries.
    pub open spec fn payload(self) -> Seq<u8> {
        match self {
            Heartbeat::Ping(p) => p@,
            Heartbeat::Pong(p) => p@,
        }
    }

    /// The answer to a heartbeat: a pong that carries the same bytes.
    pub open spec fn answered(self) -> Heartbeat {
        match self {
            Heartbeat::Ping(p) => Heartbeat::Pong(p),
            Heartbeat::Pong(p) => Heartbeat::Pong(p),
        }
    }

    /// A ping of `size` random bytes, at most `MAX_PING_SIZE` of them.
    pub fn ping(size: usize) -> (h: Self)
        ensures
            h is Ping,
            h.payload().len() == if size > MAX_PING_SIZE {
                MAX_PING_SIZE
            } else {
                size
            },
    {
        // Limit the size of ping packets no more than 255
        let size = if size > MAX_PING_SIZE {
            MAX_PING_SIZE
        } else {
            size
        };
        let mut buffer: Vec<u8> = vec![0u8; size];
        fill_random(&mut buffer);
        Heartbeat::Ping(buffer)
    }

    /// The pong that answers this heartbeat, carrying the same bytes.
    pub fn pong(self) -> (h: Self)
        ensures
            h == self.answered(),
            h is Pong,
            h.payload() == self.payload(),
    {
        match self {
            Heartbeat::Ping(payload) => Heartbeat::Pong(payload),
            Heartbeat::Pong(payload) => Heartbeat::Pong(payload),
        }
    }
}

/// Answering a heartbeat twice is answering it once: a pong answers itself.
pub proof fn lemma_answer_idempotent(h: Heartbeat)
    ensures
        h.answered().answered() == h.answered(),
        h is Pong ==> h.answered() == h,
{
}

} // verus!
