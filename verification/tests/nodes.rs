use malen::broadcast;
use malen::echo;
use malen::generate;
use malen::kafka;
use malen::message::Body;
use malen::message::Message;
use malen::node::FatalError;
use malen::node::Node;

fn envelope<P>(src: &str, dest: &str, msg_id: Option<usize>, payload: P) -> Message<P> {
    Message {
        src: src.to_string(),
        dest: dest.to_string(),
        body: Body { msg_id, in_reply_to: None, payload },
    }
}

#[test]
fn echo_replies_with_same_text() {
    let mut node = echo::EchoNode::new();
    let init = envelope("c1", "n1", Some(1), echo::Payload::Init {
        node_id: "n1".to_string(),
        node_ids: vec!["n1".to_string()],
    });
    let out = node.handle(init).unwrap();
    assert_eq!(out.len(), 1);
    assert_eq!(out[0].src, "n1");
    assert_eq!(out[0].dest, "c1");
    assert_eq!(out[0].body.in_reply_to, Some(1));
    assert!(matches!(out[0].body.payload, echo::Payload::InitOk));

    let request = envelope("c1", "n1", Some(2), echo::Payload::Echo { echo: "hello".to_string() });
    let out = node.handle(request).unwrap();
    assert_eq!(out.len(), 1);
    assert_eq!(out[0].body.in_reply_to, Some(2));
    match &out[0].body.payload {
        echo::Payload::EchoOk { echo } => assert_eq!(echo, "hello"),
        _ => panic!("expected EchoOk"),
    }
}

#[test]
fn into_reply_swaps_endpoints_and_correlates() {
    let request = envelope("c1", "n1", Some(4), echo::Payload::Echo { echo: "hi".to_string() });
    let reply = request.into_reply(Some(9), echo::Payload::EchoOk { echo: "hi".to_string() });
    assert_eq!(reply.src, "n1");
    assert_eq!(reply.dest, "c1");
    assert_eq!(reply.body.msg_id, Some(9));
    assert_eq!(reply.body.in_reply_to, Some(4));
    assert!(matches!(reply.body.payload, echo::Payload::EchoOk { .. }));
}

#[test]
fn echo_rejects_init_ok_as_request() {
    let mut node = echo::EchoNode::new();
    let bad = envelope("c1", "n1", Some(1), echo::Payload::InitOk);
    assert!(matches!(node.handle(bad), Err(FatalError::UnexpectedMessage)));
}

#[test]
fn generate_issues_distinct_ids() {
    let mut node = generate::GenerateNode::new();
    let init = envelope("c1", "n1", Some(1), generate::Payload::Init {
        node_id: "n1".to_string(),
        node_ids: vec!["n1".to_string()],
    });
    node.handle(init).unwrap();
    let out1 = node.handle(envelope("c1", "n1", Some(2), generate::Payload::Generate)).unwrap();
    let out2 = node.handle(envelope("c1", "n1", Some(3), generate::Payload::Generate)).unwrap();
    let (node1, seq1) = match &out1[0].body.payload {
        generate::Payload::GenerateOk { id } => (id.node.clone(), id.seq),
        _ => panic!("expected GenerateOk"),
    };
    let (node2, seq2) = match &out2[0].body.payload {
        generate::Payload::GenerateOk { id } => (id.node.clone(), id.seq),
        _ => panic!("expected GenerateOk"),
    };
    assert_eq!(node1, "n1");
    assert_eq!(node2, "n1");
    assert_ne!(seq1, seq2);
}

#[test]
fn broadcast_write_then_read_returns_value() {
    let mut node = broadcast::BroadcastNode::new();
    node.handle(envelope("c1", "n1", Some(1), broadcast::Payload::Init {
        node_id: "n1".to_string(),
        node_ids: vec!["n1".to_string(), "n2".to_string()],
    }))
    .unwrap();
    let out = node
        .handle(envelope("c1", "n1", Some(2), broadcast::Payload::Broadcast { message: 7 }))
        .unwrap();
    assert!(matches!(out[0].body.payload, broadcast::Payload::BroadcastOk));
    let out = node.handle(envelope("c1", "n1", Some(3), broadcast::Payload::Read)).unwrap();
    match &out[0].body.payload {
        broadcast::Payload::ReadOk { messages } => assert_eq!(messages, &vec![7]),
        _ => panic!("expected ReadOk"),
    }
}

#[test]
fn broadcast_duplicate_write_kept_once() {
    let mut node = broadcast::BroadcastNode::new();
    node.handle(envelope("c1", "n1", Some(1), broadcast::Payload::Broadcast { message: 7 }))
        .unwrap();
    node.handle(envelope("c1", "n1", Some(2), broadcast::Payload::Broadcast { message: 7 }))
        .unwrap();
    let out = node.handle(envelope("c1", "n1", Some(3), broadcast::Payload::Read)).unwrap();
    match &out[0].body.payload {
        broadcast::Payload::ReadOk { messages } => assert_eq!(messages, &vec![7]),
        _ => panic!("expected ReadOk"),
    }
}

#[test]
fn broadcast_topology_selects_neighbors() {
    let mut node = broadcast::BroadcastNode::new();
    node.handle(envelope("c1", "n1", Some(1), broadcast::Payload::Init {
        node_id: "n1".to_string(),
        node_ids: vec!["n1".to_string(), "n2".to_string(), "n3".to_string()],
    }))
    .unwrap();
    let topology = vec![
        ("n1".to_string(), vec!["n3".to_string()]),
        ("n2".to_string(), vec!["n1".to_string()]),
    ];
    let out = node
        .handle(envelope("c1", "n1", Some(2), broadcast::Payload::Topology { topology }))
        .unwrap();
    assert!(matches!(out[0].body.payload, broadcast::Payload::TopologyOk));
    assert_eq!(node.neighbors, vec!["n3".to_string()]);
}

#[test]
fn broadcast_topology_without_own_entry_is_fatal() {
    let mut node = broadcast::BroadcastNode::new();
    node.handle(envelope("c1", "n1", Some(1), broadcast::Payload::Init {
        node_id: "n1".to_string(),
        node_ids: vec!["n1".to_string()],
    }))
    .unwrap();
    let topology = vec![("n9".to_string(), vec!["n1".to_string()])];
    let r = node.handle(envelope("c1", "n1", Some(2), broadcast::Payload::Topology { topology }));
    assert!(matches!(r, Err(FatalError::MissingTopology)));
}

#[test]
fn broadcast_gossip_merge_applied_twice_reads_once() {
    let mut node = broadcast::BroadcastNode::new();
    let delta = vec![1, 2];
    node.handle(envelope("n2", "n1", Some(9), broadcast::Payload::Gossip {
        messages: delta.clone(),
    }))
    .unwrap();
    node.handle(envelope("n2", "n1", Some(10), broadcast::Payload::Gossip { messages: delta }))
        .unwrap();
    let out = node.handle(envelope("c1", "n1", Some(3), broadcast::Payload::Read)).unwrap();
    match &out[0].body.payload {
        broadcast::Payload::ReadOk { messages } => assert_eq!(messages, &vec![1, 2]),
        _ => panic!("expected ReadOk"),
    }
}

#[test]
fn broadcast_tick_sends_delta_and_ack_stops_resend() {
    let mut a = broadcast::BroadcastNode::new();
    a.handle(envelope("c1", "n1", Some(1), broadcast::Payload::Init {
        node_id: "n1".to_string(),
        node_ids: vec!["n1".to_string(), "n2".to_string()],
    }))
    .unwrap();
    let topology = vec![("n1".to_string(), vec!["n2".to_string()])];
    a.handle(envelope("c1", "n1", Some(2), broadcast::Payload::Topology { topology })).unwrap();
    a.handle(envelope("c1", "n1", Some(3), broadcast::Payload::Broadcast { message: 7 })).unwrap();

    let tick = envelope("n1", "n1", None, broadcast::Payload::GossipSend);
    let out = a.handle(tick).unwrap();
    assert_eq!(out.len(), 1);
    assert_eq!(out[0].dest, "n2");
    let mid = out[0].body.msg_id.unwrap();
    match &out[0].body.payload {
        broadcast::Payload::Gossip { messages } => assert_eq!(messages, &vec![7]),
        _ => panic!("expected Gossip"),
    }

    let mut ack = envelope("n2", "n1", None, broadcast::Payload::GossipOk);
    ack.body.in_reply_to = Some(mid);
    let out = a.handle(ack).unwrap();
    assert!(out.is_empty());

    let out = a.handle(envelope("n1", "n1", None, broadcast::Payload::GossipSend)).unwrap();
    assert!(out.is_empty());
}

#[test]
fn kafka_send_assigns_increasing_offsets() {
    let mut node = kafka::Kafka::new();
    let out = node
        .handle(envelope("c1", "n1", Some(1), kafka::Payload::Send {
            key: "k1".to_string(),
            msg: 10,
        }))
        .unwrap();
    match out[0].body.payload {
        kafka::Payload::SendOk { offset } => assert_eq!(offset, 1),
        _ => panic!("expected SendOk"),
    }
    let out = node
        .handle(envelope("c1", "n1", Some(2), kafka::Payload::Send {
            key: "k1".to_string(),
            msg: 20,
        }))
        .unwrap();
    match out[0].body.payload {
        kafka::Payload::SendOk { offset } => assert_eq!(offset, 2),
        _ => panic!("expected SendOk"),
    }
}

#[test]
fn kafka_poll_returns_entries_from_offset() {
    let mut node = kafka::Kafka::new();
    node.handle(envelope("c1", "n1", Some(1), kafka::Payload::Send {
        key: "k1".to_string(),
        msg: 10,
    }))
    .unwrap();
    node.handle(envelope("c1", "n1", Some(2), kafka::Payload::Send {
        key: "k1".to_string(),
        msg: 20,
    }))
    .unwrap();
    let out = node
        .handle(envelope("c1", "n1", Some(3), kafka::Payload::Poll {
            offsets: vec![("k1".to_string(), 1), ("k9".to_string(), 1)],
        }))
        .unwrap();
    match &out[0].body.payload {
        kafka::Payload::PollOk { msgs } => {
            assert_eq!(msgs.len(), 2);
            assert_eq!(msgs[0].0, "k1");
            assert_eq!(msgs[0].1, vec![vec![1, 10], vec![2, 20]]);
            assert_eq!(msgs[1].0, "k9");
            assert!(msgs[1].1.is_empty());
        }
        _ => panic!("expected PollOk"),
    }
}

#[test]
fn kafka_poll_window_is_bounded() {
    let mut node = kafka::Kafka::new();
    for m in 0..12 {
        node.handle(envelope("c1", "n1", Some(m as usize + 1), kafka::Payload::Send {
            key: "k1".to_string(),
            msg: 100 + m,
        }))
        .unwrap();
    }
    let out = node
        .handle(envelope("c1", "n1", Some(20), kafka::Payload::Poll {
            offsets: vec![("k1".to_string(), 1)],
        }))
        .unwrap();
    match &out[0].body.payload {
        kafka::Payload::PollOk { msgs } => {
            assert_eq!(msgs[0].1.len(), 11);
            assert_eq!(msgs[0].1[0], vec![1, 100]);
            assert_eq!(msgs[0].1[10], vec![11, 110]);
        }
        _ => panic!("expected PollOk"),
    }
}

#[test]
fn kafka_commit_and_list_committed_offsets() {
    let mut node = kafka::Kafka::new();
    node.handle(envelope("c1", "n1", Some(1), kafka::Payload::Send {
        key: "k1".to_string(),
        msg: 10,
    }))
    .unwrap();
    node.handle(envelope("c1", "n1", Some(2), kafka::Payload::Send {
        key: "k1".to_string(),
        msg: 20,
    }))
    .unwrap();
    let out = node
        .handle(envelope("c1", "n1", Some(3), kafka::Payload::CommitOffsets {
            offsets: vec![("k1".to_string(), 2)],
        }))
        .unwrap();
    assert!(matches!(out[0].body.payload, kafka::Payload::CommitOffsetsOk));
    let out = node
        .handle(envelope("c1", "n1", Some(4), kafka::Payload::ListCommittedOffsets {
            keys: vec!["k1".to_string(), "k9".to_string()],
        }))
        .unwrap();
    match &out[0].body.payload {
        kafka::Payload::ListCommittedOffsetsOk { offsets } => {
            assert_eq!(offsets.len(), 2);
            assert_eq!(offsets[0], ("k1".to_string(), 2));
            assert_eq!(offsets[1], ("k9".to_string(), 0));
        }
        _ => panic!("expected ListCommittedOffsetsOk"),
    }
    let out = node.handle(envelope("c1", "n1", Some(5), kafka::Payload::Poll {
        offsets: vec![("k1".to_string(), 1)],
    }))
    .unwrap();
    match &out[0].body.payload {
        kafka::Payload::PollOk { msgs } => assert_eq!(msgs[0].1.len(), 2),
        _ => panic!("expected PollOk"),
    }
}

#[test]
fn kafka_rejects_init_ok_as_request() {
    let mut node = kafka::Kafka::new();
    let bad = envelope("c1", "n1", Some(1), kafka::Payload::InitOk);
    assert!(matches!(node.handle(bad), Err(FatalError::UnexpectedMessage)));
}
