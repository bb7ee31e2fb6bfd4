use kite_protocol::host::{choose_node, choose_node_at, update_node, update_node_at, HostError};
use kite_protocol::node::{Node, NodeAddr};
use tokio::time::{Duration, Instant};

fn addr(ip: u32, port: u16) -> NodeAddr {
    NodeAddr { ip, port }
}

#[test]
fn new_node_is_fresh() {
    let n = Node::new("agent".to_string(), addr(1, 2));
    assert_eq!(n.id, 0);
    assert_eq!(n.name, "agent");
    assert_eq!(n.node_addr, addr(1, 2));
    assert_eq!((n.frame_sent, n.frame_recvd), (0, 0));
}

#[test]
fn update_node_adds_unknown_agent_in_front() {
    let t0 = Instant::now();
    let mut nodes = vec![Node::new_at("a".to_string(), addr(1, 1), t0)];
    let t1 = t0 + Duration::from_secs(5);
    update_node_at(&mut nodes, &addr(2, 2), t1);
    assert_eq!(nodes.len(), 2);
    assert_eq!(nodes[0].node_addr, addr(2, 2));
    assert_eq!(nodes[0].last_update, t1);
    assert_eq!(nodes[0].name, "");
    assert_eq!(nodes[1].node_addr, addr(1, 1));
    assert_eq!(nodes[1].last_update, t0);
}

#[test]
fn update_node_refreshes_known_agent() {
    let t0 = Instant::now();
    let mut nodes = vec![
        Node::new_at("a".to_string(), addr(1, 1), t0),
        Node::new_at("b".to_string(), addr(2, 2), t0),
    ];
    let t1 = t0 + Duration::from_secs(5);
    update_node_at(&mut nodes, &addr(2, 2), t1);
    assert_eq!(nodes.len(), 2);
    assert_eq!(nodes[0].last_update, t0);
    assert_eq!(nodes[1].last_update, t1);
    assert_eq!(nodes[1].name, "b");
}

#[test]
fn update_node_twice_keeps_one_entry() {
    let mut nodes: Vec<Node> = Vec::new();
    update_node(&mut nodes, &addr(9, 9));
    update_node(&mut nodes, &addr(9, 9));
    assert_eq!(nodes.len(), 1);
    update_node(&mut nodes, &addr(9, 8));
    assert_eq!(nodes.len(), 2);
}

#[test]
fn same_ip_other_port_is_another_agent() {
    let mut nodes: Vec<Node> = Vec::new();
    update_node(&mut nodes, &addr(9, 1));
    update_node(&mut nodes, &addr(9, 2));
    assert_eq!(nodes.len(), 2);
}

#[test]
fn choose_node_on_empty_list() {
    let mut nodes: Vec<Node> = Vec::new();
    assert_eq!(choose_node(&mut nodes), None);
    assert!(nodes.is_empty());
}

#[test]
fn choose_node_takes_the_first_and_refreshes_it() {
    let t0 = Instant::now();
    let mut nodes = vec![
        Node::new_at("a".to_string(), addr(1, 1), t0),
        Node::new_at("b".to_string(), addr(2, 2), t0),
    ];
    let t1 = t0 + Duration::from_secs(3);
    assert_eq!(choose_node_at(&mut nodes, t1), Some(addr(1, 1)));
    assert_eq!(nodes[0].last_update, t1);
    assert_eq!(nodes[1].last_update, t0);
    assert_eq!(choose_node(&mut nodes), Some(addr(1, 1)));
}

#[test]
fn newest_agent_is_chosen() {
    let mut nodes: Vec<Node> = Vec::new();
    update_node(&mut nodes, &addr(1, 1));
    update_node(&mut nodes, &addr(2, 2));
    assert_eq!(choose_node(&mut nodes), Some(addr(2, 2)));
}

#[test]
fn host_errors_are_distinct() {
    assert_ne!(HostError::NoCarawler, HostError::Timeout);
    assert_ne!(HostError::InitNeeded, HostError::Timeout);
}
