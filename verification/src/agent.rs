//! The agent, on the campus side: how it is configured, and what it makes of
//! the datagrams that reach it and of its heartbeats.

use crate::node::NodeAddr;
use crate::protocol::{Frame, ProtocolError, SequenceCounter, next_seq, read_result, readable};
use crate::services::{AgentBasic, Body};
use core::time::Duration;
use vstd::prelude::*;

verus! {

/// Default heartbeat interval in seconds.
pub const DEFAULT_HEARTBEAT_INTERVAL_SEC: u32 = 60;

/// The character of the decimal digit `d`.
pub open spec fn digit_char(d: nat) -> char {
    (48 + d) as char
}

/// The decimal digits of `n`, most significant first, without leading zeros.
pub open spec fn decimal(n: nat) -> Seq<char>
    decreases n,
{
    if n < 10 {
        seq![digit_char(n)]
    } else {
        decimal(n / 10).push(digit_char(n % 10))
    }
}

/// `format!("{}:{}", host, port)` of std: the host, a colon and the port in
/// decimal.
#[verifier::external_body]
fn join_host_port(host: &str, port: u16) -> (s: String)
    ensures
        s@ == host@ + seq![':'] + decimal(port as nat),
{
    format!("{}:{}", host, port)
}

/// What `core::time::Duration::from_secs` returns for `secs`.
pub uninterp spec fn duration_from_secs(secs: u64) -> Duration;

/// `core::time::Duration::from_secs`: the duration of `secs` seconds, named by
/// `duration_from_secs`.
#[verifier::external_body]
fn seconds(secs: u64) -> (d: Duration)
    ensures
        d == duration_from_secs(secs),
{
    Duration::from_secs(secs)
}

/// Agent builder, in builder pattern. `C` is the callback that answers the
/// host's requests, `T` the parameter that it is called with.
pub struct AgentBuilder<C, T> {
    /// Agent name.
    pub name: String,
    /// Agent local address string.
    pub local_addr: String,
    /// Host address.
    pub host_addr: Option<NodeAddr>,
    /// Callback function called when the host requests.
    pub request_callback: Option<C>,
    /// Callback parameter.
    pub parameter: Option<T>,
    /// Heartbeat interval.
    pub heartbeat_interval: Option<Duration>,
}

/// Agent node on the campus side.
pub struct Agent<C, T> {
    /// Agent name.
    pub name: String,
    /// Agent local address string.
    pub local_addr: String,
    /// Host address.
    pub host_addr: NodeAddr,
    /// Callback function called when the host requests.
    pub request_callback: C,
    /// Callback parameter.
    pub parameter: T,
    /// Heartbeat interval.
    pub heartbeat_interval: Duration,
}

impl<C, T> AgentBuilder<C, T> {
    /// An agent named `local_name` that listens on all interfaces at
    /// `local_port`; nothing else is set yet.
    pub fn new(local_name: String, local_port: u16) -> (b: Self)
        ensures
            b.name == local_name,
            b.local_addr@ == "0.0.0.0"@ + seq![':'] + decimal(local_port as nat),
            b.host_addr is None,
            b.request_callback is None,
            b.parameter is None,
            b.heartbeat_interval is None,
    {
        AgentBuilder {
            name: local_name,
            local_addr: join_host_port("0.0.0.0", local_port),
            host_addr: None,
            request_callback: None,
            parameter: None,
            heartbeat_interval: None,
        }
    }

    /// Sets the host address.
    pub fn host(self, addr: NodeAddr) -> (b: Self)
        ensures
            b.host_addr == Some(addr),
            b.name == self.name,
            b.local_addr == self.local_addr,
            b.request_callback == self.request_callback,
            b.parameter == self.parameter,
            b.heartbeat_interval == self.heartbeat_interval,
    {
        let mut b = self;
        b.host_addr = Some(addr);
        b
    }

    /// Sets the callback that answers requests, and its parameter.
    pub fn set_callback(self, callback_fn: C, parameter: T) -> (b: Self)
        ensures
            b.request_callback == Some(callback_fn),
            b.parameter == Some(parameter),
            b.name == self.name,
            b.local_addr == self.local_addr,
            b.host_addr == self.host_addr,
            b.heartbeat_interval == self.heartbeat_interval,
    {
        let mut b = self;
        b.request_callback = Some(callback_fn);
        b.parameter = Some(parameter);
        b
    }

    /// Sets the heartbeat interval.
    pub fn set_heartbeat_interval(self, duration: Duration) -> (b: Self)
        ensures
            b.heartbeat_interval == Some(duration),
            b.name == self.name,
            b.local_addr == self.local_addr,
            b.host_addr == self.host_addr,
            b.request_callback == self.request_callback,
            b.parameter == self.parameter,
    {
        let mut b = self;
        b.heartbeat_interval = Some(duration);
        b
    }

    /// Whether the host address, the callback and its parameter are all set.
    pub open spec fn is_complete(self) -> bool {
        &&& self.host_addr is Some
        &&& self.request_callback is Some
        &&& self.parameter is Some
    }

    /// Builds the agent. The host address, the callback and its parameter
    /// must be set; the heartbeat interval is 60 seconds unless it was set.
    pub fn build(self) -> (a: Agent<C, T>)
        requires
            self.is_complete(),
        ensures
            a.name == self.name,
            a.local_addr == self.local_addr,
            Some(a.host_addr) == self.host_addr,
            Some(a.request_callback) == self.request_callback,
            Some(a.parameter) == self.parameter,
            a.heartbeat_interval == match self.heartbeat_interval {
                Some(d) => d,
                None => duration_from_secs(DEFAULT_HEARTBEAT_INTERVAL_SEC as u64),
            },
    {
        let heartbeat_interval = match self.heartbeat_interval {
            Some(d) => d,
            None => seconds(DEFAULT_HEARTBEAT_INTERVAL_SEC as u64),
        };
        Agent {
            name: self.name,
            local_addr: self.local_addr,
            host_addr: self.host_addr.unwrap(),
            request_callback: self.request_callback.unwrap(),
            parameter: self.parameter.unwrap(),
            heartbeat_interval,
        }
    }
}

/// What the agent makes of a datagram that reached it.
#[derive(Debug)]
pub enum Incoming {
    /// An empty datagram, such as the "unreachable" notice that some systems
    /// send while the host is offline: ignored.
    Ignored,
    /// A request to process; its body is the serialized request.
    Request(Frame<Vec<u8>>),
    /// Not a frame.
    Malformed(ProtocolError),
    /// A frame whose payload is marked as compressed and does not decompress.
    Undecodable,
}

/// Unpacks a datagram that reached the agent. Empty datagrams are ignored;
/// others are read as frames.
pub fn unpack_datagram(datagram: &[u8]) -> (r: Incoming)
    ensures
        datagram@.len() == 0 ==> r is Ignored,
        datagram@.len() > 0 && !readable(datagram@) ==> r is Undecodable,
        datagram@.len() > 0 && readable(datagram@) ==> match read_result(datagram@) {
            Ok(f) => r matches Incoming::Request(g) && g@ == f,
            Err(e) => r == Incoming::Malformed(e),
        },
{
    if datagram.len() == 0 {
        return Incoming::Ignored;
    }
    match Frame::try_read(datagram) {
        None => Incoming::Undecodable,
        Some(Ok(frame)) => Incoming::Request(frame),
        Some(Err(e)) => Incoming::Malformed(e),
    }
}

/// The heartbeat that an agent named `name` sends to its host: a discovery
/// request with the agent's name and the address `local_addr` of its network
/// interface, numbered by `counter`. It lets the host find the agent's
/// address when it changes.
pub fn heartbeat_frame(name: &String, local_addr: &String, counter: &mut SequenceCounter) -> (r: Result<
    Frame<Body>,
    ProtocolError,
>)
    ensures
        r matches Ok(f) && f.size == 0 && f.seq == old(counter)@ && f.ack == 0 && f.flag == 0
            && (f.body matches Body::Discovery(b) && b.name@ == name@ && b.local_addr@
            == local_addr@),
        final(counter)@ == next_seq(old(counter)@),
{
    let agent_basic = AgentBasic { name: name.clone(), local_addr: local_addr.clone() };
    Frame::new_request(Body::Discovery(agent_basic), counter)
}

/// The response to `request` that carries `body`: it acknowledges the
/// request's sequence number, and is numbered by `counter`.
pub fn response_frame<R, B>(request: &Frame<R>, body: B, counter: &mut SequenceCounter) -> (r: Result<
    Frame<B>,
    ProtocolError,
>)
    ensures
        r matches Ok(f) && f.size == 0 && f.seq == old(counter)@ && f.ack == request.seq && f.flag
            == 0 && f.body == body,
        final(counter)@ == next_seq(old(counter)@),
{
    Frame::new_response(body, request.seq, counter)
}

} // verus!
