use gossip_glomers::broadcast::{
    Broadcast, BroadcastPayload, InjectedBroadcastPayload, TopologyEntry,
};
use gossip_glomers::protocol::{Body, Event, Init, Message, Node, NodeError};

fn mk(id: &str) -> Broadcast {
    Broadcast::from_init(Init {
        id: id.to_string(),
        node_ids: vec!["n1".to_string(), "n2".to_string()],
    })
    .unwrap()
}

fn wire(src: &str, dest: &str, msg_id: Option<usize>, payload: BroadcastPayload) -> Message<BroadcastPayload> {
    Message {
        src: src.to_string(),
        dest: dest.to_string(),
        body: Body {
            msg_id,
            in_reply_to: None,
            payload,
        },
    }
}

fn topo(entries: &[(&str, &[&str])]) -> BroadcastPayload {
    BroadcastPayload::Topology {
        topology: entries
            .iter()
            .map(|(node, neighbors)| TopologyEntry {
                node: node.to_string(),
                neighbors: neighbors.iter().map(|s| s.to_string()).collect(),
            })
            .collect(),
    }
}

fn apply_topology(node: &mut Broadcast, entries: &[(&str, &[&str])]) {
    let out = node
        .handle(Event::Message(wire("c0", "nX", Some(1), topo(entries))))
        .unwrap();
    assert_eq!(out.len(), 1);
    assert!(matches!(out[0].body.payload, BroadcastPayload::TopologyOk));
}

fn inject(node: &mut Broadcast, value: usize) {
    let out = node
        .handle(Event::Message(wire(
            "c1",
            "nX",
            Some(2),
            BroadcastPayload::Broadcast { message: value },
        )))
        .unwrap();
    assert_eq!(out.len(), 1);
    assert!(matches!(out[0].body.payload, BroadcastPayload::BroadcastOk));
}

fn read(node: &mut Broadcast) -> Vec<usize> {
    let mut out = node
        .handle(Event::Message(wire("c1", "nX", Some(3), BroadcastPayload::Read)))
        .unwrap();
    assert_eq!(out.len(), 1);
    let reply = out.pop().unwrap();
    match reply.body.payload {
        BroadcastPayload::ReadOk { messages } => {
            let mut v = messages;
            v.sort();
            v
        }
        _ => panic!("read did not produce a read_ok reply"),
    }
}

fn tick(node: &mut Broadcast) -> Vec<Message<BroadcastPayload>> {
    node.handle(Event::InjectedPayload(InjectedBroadcastPayload::Gossip))
        .unwrap()
}

fn gossip_payload(msg: &Message<BroadcastPayload>) -> Vec<usize> {
    match &msg.body.payload {
        BroadcastPayload::Gossip { messages } => {
            let mut v = messages.clone();
            v.sort();
            v
        }
        _ => panic!("not a gossip message"),
    }
}

#[test]
fn two_node_dissemination() {
    let mut n1 = mk("n1");
    let mut n2 = mk("n2");
    let t: &[(&str, &[&str])] = &[("n1", &["n2"]), ("n2", &["n1"])];
    apply_topology(&mut n1, t);
    apply_topology(&mut n2, t);

    inject(&mut n1, 5);
    assert_eq!(read(&mut n1), vec![5]);

    let sent = tick(&mut n1);
    assert_eq!(sent.len(), 1);
    assert_eq!(sent[0].src, "n1");
    assert_eq!(sent[0].dest, "n2");
    assert_eq!(sent[0].body.msg_id, None);
    assert_eq!(gossip_payload(&sent[0]), vec![5]);

    let delivered = n2
        .handle(Event::Message(Message {
            src: sent[0].src.clone(),
            dest: sent[0].dest.clone(),
            body: Body {
                msg_id: None,
                in_reply_to: None,
                payload: BroadcastPayload::Gossip {
                    messages: gossip_payload(&sent[0]),
                },
            },
        }))
        .unwrap();
    assert!(delivered.is_empty());
    assert_eq!(read(&mut n2), vec![5]);
}

#[test]
fn read_on_fresh_node_is_empty() {
    let mut n1 = mk("n1");
    assert_eq!(read(&mut n1), Vec::<usize>::new());
}

#[test]
fn inject_twice_keeps_one_copy() {
    let mut n1 = mk("n1");
    inject(&mut n1, 7);
    inject(&mut n1, 7);
    let v = read(&mut n1);
    assert_eq!(v.len(), 1);
    assert_eq!(v, vec![7]);
}

#[test]
fn repeated_reads_identical() {
    let mut n1 = mk("n1");
    inject(&mut n1, 3);
    inject(&mut n1, 9);
    let first = read(&mut n1);
    let second = read(&mut n1);
    assert_eq!(first, second);
}

#[test]
fn value_set_grows_monotonically() {
    let mut n1 = mk("n1");
    inject(&mut n1, 1);
    let before = read(&mut n1);
    let gossip_in = wire(
        "n2",
        "n1",
        None,
        BroadcastPayload::Gossip { messages: vec![2, 3] },
    );
    n1.handle(Event::Message(gossip_in)).unwrap();
    let after = read(&mut n1);
    for v in &before {
        assert!(after.contains(v));
    }
    assert_eq!(after, vec![1, 2, 3]);
}

#[test]
fn gossip_of_present_values_changes_nothing() {
    let mut n1 = mk("n1");
    inject(&mut n1, 4);
    inject(&mut n1, 8);
    let before = read(&mut n1);
    let gossip_in = wire(
        "n2",
        "n1",
        None,
        BroadcastPayload::Gossip { messages: vec![4, 8] },
    );
    n1.handle(Event::Message(gossip_in)).unwrap();
    assert_eq!(read(&mut n1), before);
}

#[test]
fn empty_neighbor_list_sends_nothing() {
    let mut n1 = mk("n1");
    apply_topology(&mut n1, &[("n1", &[]), ("n2", &["n1"])]);
    inject(&mut n1, 5);
    assert_eq!(tick(&mut n1).len(), 0);
    assert_eq!(tick(&mut n1).len(), 0);
}

#[test]
fn delta_excludes_values_known_to_neighbor() {
    let mut n1 = mk("n1");
    apply_topology(&mut n1, &[("n1", &["n2"]), ("n2", &["n1"])]);
    inject(&mut n1, 5);
    inject(&mut n1, 6);
    let gossip_in = wire(
        "n2",
        "n1",
        None,
        BroadcastPayload::Gossip { messages: vec![5] },
    );
    n1.handle(Event::Message(gossip_in)).unwrap();
    let sent = tick(&mut n1);
    assert_eq!(sent.len(), 1);
    assert_eq!(sent[0].dest, "n2");
    assert_eq!(gossip_payload(&sent[0]), vec![6]);
}

#[test]
fn converged_edge_sends_nothing() {
    let mut n1 = mk("n1");
    apply_topology(&mut n1, &[("n1", &["n2"]), ("n2", &["n1"])]);
    inject(&mut n1, 5);
    let gossip_in = wire(
        "n2",
        "n1",
        None,
        BroadcastPayload::Gossip { messages: vec![5] },
    );
    n1.handle(Event::Message(gossip_in)).unwrap();
    assert_eq!(tick(&mut n1).len(), 0);
}

#[test]
fn topology_replacement_discards_knowledge() {
    let mut n1 = mk("n1");
    let t: &[(&str, &[&str])] = &[("n1", &["n2", "n3"]), ("n2", &[]), ("n3", &[])];
    apply_topology(&mut n1, t);
    inject(&mut n1, 5);
    let gossip_in = wire(
        "n2",
        "n1",
        None,
        BroadcastPayload::Gossip { messages: vec![5] },
    );
    n1.handle(Event::Message(gossip_in)).unwrap();
    // n2 is believed to know 5: only n3 gets gossip.
    let sent = tick(&mut n1);
    assert_eq!(sent.len(), 1);
    assert_eq!(sent[0].dest, "n3");

    // Replacing the topology resets the estimate: both neighbors get gossip.
    apply_topology(&mut n1, t);
    let resent = tick(&mut n1);
    assert_eq!(resent.len(), 2);
    assert_eq!(resent[0].dest, "n2");
    assert_eq!(gossip_payload(&resent[0]), vec![5]);
    assert_eq!(resent[1].dest, "n3");
    assert_eq!(gossip_payload(&resent[1]), vec![5]);
}

#[test]
fn gossip_from_stranger_still_merges() {
    let mut n1 = mk("n1");
    apply_topology(&mut n1, &[("n1", &["n2"]), ("n2", &[])]);
    let gossip_in = wire(
        "n9",
        "n1",
        None,
        BroadcastPayload::Gossip { messages: vec![11] },
    );
    let out = n1.handle(Event::Message(gossip_in)).unwrap();
    assert!(out.is_empty());
    assert_eq!(read(&mut n1), vec![11]);
}

#[test]
fn broadcast_ack_is_correlated() {
    let mut n1 = mk("n1");
    let req = wire("c7", "n1", Some(41), BroadcastPayload::Broadcast { message: 1 });
    let out = n1.handle(Event::Message(req)).unwrap();
    assert_eq!(out.len(), 1);
    assert_eq!(out[0].src, "n1");
    assert_eq!(out[0].dest, "c7");
    assert_eq!(out[0].body.in_reply_to, Some(41));
    assert_eq!(out[0].body.msg_id, Some(1));
    assert!(matches!(out[0].body.payload, BroadcastPayload::BroadcastOk));
}

#[test]
fn reply_role_messages_are_protocol_errors() {
    let mut n1 = mk("n1");
    inject(&mut n1, 2);
    let before = read(&mut n1);
    for payload in [
        BroadcastPayload::BroadcastOk,
        BroadcastPayload::ReadOk { messages: vec![9] },
        BroadcastPayload::TopologyOk,
    ] {
        let r = n1.handle(Event::Message(wire("n2", "n1", Some(5), payload)));
        assert_eq!(r.unwrap_err(), NodeError::Protocol);
    }
    assert_eq!(read(&mut n1), before);
}

#[test]
fn tick_without_topology_is_config_error() {
    let mut n1 = mk("n1");
    let r = n1.handle(Event::InjectedPayload(InjectedBroadcastPayload::Gossip));
    assert_eq!(r.unwrap_err(), NodeError::Config);
}

#[test]
fn topology_missing_self_is_config_error() {
    let mut n1 = mk("n1");
    let r = n1.handle(Event::Message(wire(
        "c0",
        "n1",
        Some(1),
        topo(&[("n2", &["n1"])]),
    )));
    assert_eq!(r.unwrap_err(), NodeError::Config);
    // The node keeps working as if no topology had arrived.
    let r = n1.handle(Event::InjectedPayload(InjectedBroadcastPayload::Gossip));
    assert_eq!(r.unwrap_err(), NodeError::Config);
}

#[test]
fn topology_with_unknown_neighbor_is_config_error() {
    let mut n1 = mk("n1");
    let r = n1.handle(Event::Message(wire(
        "c0",
        "n1",
        Some(1),
        topo(&[("n1", &["n9"]), ("n2", &[])]),
    )));
    assert_eq!(r.unwrap_err(), NodeError::Config);
}

#[test]
fn duplicate_neighbor_gets_two_messages() {
    let mut n1 = mk("n1");
    apply_topology(&mut n1, &[("n1", &["n2", "n2"]), ("n2", &[])]);
    inject(&mut n1, 5);
    let sent = tick(&mut n1);
    assert_eq!(sent.len(), 2);
    assert_eq!(sent[0].dest, "n2");
    assert_eq!(sent[1].dest, "n2");
}
