use kite_protocol::agent::{heartbeat_frame, response_frame, unpack_datagram, AgentBuilder, Incoming};
use kite_protocol::node::NodeAddr;
use kite_protocol::protocol::{Frame, ProtocolError, SequenceCounter};
use kite_protocol::services::{AgentBasic, Body};
use std::time::Duration;

fn echo(body: Body, _p: u32) -> Body {
    body
}

#[test]
fn builder_listens_on_all_interfaces() {
    let b: AgentBuilder<fn(Body, u32) -> Body, u32> = AgentBuilder::new("Agent".to_string(), 8910);
    assert_eq!(b.local_addr, "0.0.0.0:8910");
    assert_eq!(b.name, "Agent");
    assert!(b.host_addr.is_none());
    let b0: AgentBuilder<fn(Body, u32) -> Body, u32> = AgentBuilder::new("x".to_string(), 0);
    assert_eq!(b0.local_addr, "0.0.0.0:0");
    let bmax: AgentBuilder<fn(Body, u32) -> Body, u32> = AgentBuilder::new("x".to_string(), 65535);
    assert_eq!(bmax.local_addr, "0.0.0.0:65535");
}

#[test]
fn build_uses_default_heartbeat_interval() {
    let host = NodeAddr { ip: u32::from_be_bytes([10, 2, 0, 239]), port: 8288 };
    let agent = AgentBuilder::new("Agent".to_string(), 8910)
        .host(host)
        .set_callback(echo as fn(Body, u32) -> Body, 18u32)
        .build();
    assert_eq!(agent.heartbeat_interval, Duration::from_secs(60));
    assert_eq!(agent.host_addr, host);
    assert_eq!(agent.parameter, 18);
    assert_eq!((agent.request_callback)(Body::Empty, 1), Body::Empty);
}

#[test]
fn build_keeps_set_heartbeat_interval() {
    let agent = AgentBuilder::new("Agent".to_string(), 8910)
        .host(NodeAddr { ip: 1, port: 2 })
        .set_callback(echo as fn(Body, u32) -> Body, 0u32)
        .set_heartbeat_interval(Duration::from_secs(1))
        .build();
    assert_eq!(agent.heartbeat_interval, Duration::from_secs(1));
    assert_eq!(agent.local_addr, "0.0.0.0:8910");
}

#[test]
fn empty_datagram_is_ignored() {
    assert!(matches!(unpack_datagram(&[]), Incoming::Ignored));
}

#[test]
fn short_datagram_is_malformed() {
    assert!(matches!(unpack_datagram(&[1, 2, 3]), Incoming::Malformed(ProtocolError::TooSmall(3))));
}

#[test]
fn framed_datagram_is_a_request() {
    let mut f = Frame { size: 0, seq: 0, ack: 0, flag: 0, body: vec![1u8, 2] };
    let out = f.write();
    match unpack_datagram(&out) {
        Incoming::Request(g) => assert_eq!(g.body, vec![1, 2]),
        other => panic!("unexpected {:?}", other),
    }
}

#[test]
fn corrupt_compressed_datagram_is_undecodable() {
    let mut f = Frame { size: 0, seq: 0, ack: 0, flag: 0, body: vec![1u8, 2] };
    let out = f.write_with(Some(vec![0xaa; 8]));
    assert!(matches!(unpack_datagram(&out), Incoming::Undecodable));
}

#[test]
fn heartbeat_is_a_discovery_request() {
    let mut counter = SequenceCounter::new();
    let f = heartbeat_frame(&"Agent".to_string(), &"10.2.1.5".to_string(), &mut counter).unwrap();
    assert_eq!(f.seq, 1);
    assert_eq!(f.ack, 0);
    assert_eq!(
        f.body,
        Body::Discovery(AgentBasic { name: "Agent".to_string(), local_addr: "10.2.1.5".to_string() })
    );
    let g = heartbeat_frame(&"Agent".to_string(), &"10.2.1.5".to_string(), &mut counter).unwrap();
    assert_eq!(g.seq, 2);
}

#[test]
fn response_acknowledges_its_request() {
    let mut counter = SequenceCounter::new();
    let request = Frame::new_request(Body::Empty, &mut counter).unwrap();
    let _ = Frame::new_request(Body::Empty, &mut counter).unwrap();
    let response = response_frame(&request, Body::Empty, &mut counter).unwrap();
    assert_eq!(response.ack, request.seq);
    assert_eq!(response.ack, 1);
    assert_eq!(response.seq, 3);
}
