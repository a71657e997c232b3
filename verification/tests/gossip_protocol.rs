use malen::counter;
use malen::gossip::GossipManager;
use malen::gset;
use malen::message::Body;
use malen::message::Message;
use malen::node::FatalError;
use malen::node::Node;

fn envelope<P>(src: &str, dest: &str, msg_id: Option<usize>, payload: P) -> Message<P> {
    Message {
        src: src.to_string(),
        dest: dest.to_string(),
        body: Body { msg_id, in_reply_to: None, payload },
    }
}

fn sorted(mut v: Vec<usize>) -> Vec<usize> {
    v.sort();
    v
}

fn read_gset(node: &mut gset::GSetNode) -> Vec<usize> {
    let out = node.handle(envelope("c1", "nx", Some(99), gset::Payload::Read)).unwrap();
    match &out[0].body.payload {
        gset::Payload::ReadOk { value } => value.clone(),
        _ => panic!("expected ReadOk"),
    }
}

fn read_counter(node: &mut counter::Counter) -> i64 {
    let out = node.handle(envelope("c1", "nx", Some(99), counter::Payload::Read)).unwrap();
    match &out[0].body.payload {
        counter::Payload::ReadOk { value } => *value,
        _ => panic!("expected ReadOk"),
    }
}

/// Node A writes element 7; the next tick computes delta {7} for peer B and
/// sends it under messageId 5; B merges and acknowledges; A marks the delta
/// verified and removes the outstanding entry; a later tick sends nothing.
#[test]
fn gset_write_gossip_ack_then_silence() {
    let mut a = gset::GSetNode::new();
    let mut b = gset::GSetNode::new();
    a.handle(envelope("c1", "n1", Some(1), gset::Payload::Init {
        node_id: "n1".to_string(),
        node_ids: vec!["n2".to_string()],
    }))
    .unwrap();
    b.handle(envelope("c1", "n2", Some(1), gset::Payload::Init {
        node_id: "n2".to_string(),
        node_ids: vec!["n1".to_string()],
    }))
    .unwrap();
    a.handle(envelope("c1", "n1", Some(2), gset::Payload::Add { element: 7 })).unwrap();
    a.handle(envelope("c1", "n1", Some(3), gset::Payload::Read)).unwrap();
    a.handle(envelope("c1", "n1", Some(4), gset::Payload::Read)).unwrap();

    // Tick on A: one gossip to B carrying {7}, under the next message id, 5.
    let out = a.handle(envelope("n1", "n1", None, gset::Payload::GossipSend)).unwrap();
    assert_eq!(out.len(), 1);
    assert_eq!(out[0].src, "n1");
    assert_eq!(out[0].dest, "n2");
    assert_eq!(out[0].body.msg_id, Some(5));
    let gossip = out.into_iter().next().unwrap();
    match &gossip.body.payload {
        gset::Payload::Gossip { messages } => assert_eq!(messages, &vec![7]),
        _ => panic!("expected Gossip"),
    }
    assert_eq!(a.gossip_manager.outstanding_ids(), vec![5]);

    // B merges the delta and replies with an acknowledgment for id 5.
    let replies = b.handle(gossip).unwrap();
    assert_eq!(replies.len(), 1);
    assert_eq!(replies[0].body.in_reply_to, Some(5));
    assert!(matches!(replies[0].body.payload, gset::Payload::GossipOk));
    assert_eq!(read_gset(&mut b), vec![7]);
    assert_eq!(b.gossip_manager.known("n1"), vec![7]);

    // A processes the acknowledgment: entry 5 gone, B known to hold {7}.
    let ack = replies.into_iter().next().unwrap();
    a.handle(ack).unwrap();
    assert!(a.gossip_manager.outstanding_ids().is_empty());
    assert_eq!(a.gossip_manager.known("n2"), vec![7]);

    // A later tick computes an empty delta for B, sends nothing, allocates
    // no message id, and records no outstanding entry.
    let out = a.handle(envelope("n1", "n1", None, gset::Payload::GossipSend)).unwrap();
    assert!(out.is_empty());
    assert!(a.gossip_manager.outstanding_ids().is_empty());
}

/// An outstanding gossip with no acknowledgment survives the next tick but
/// is dropped by the one after: exactly two tick cycles.
#[test]
fn gset_stale_gossip_dropped_after_two_ticks() {
    let mut a = gset::GSetNode::new();
    a.handle(envelope("c1", "n1", Some(1), gset::Payload::Init {
        node_id: "n1".to_string(),
        node_ids: vec!["n2".to_string()],
    }))
    .unwrap();
    a.handle(envelope("c1", "n1", Some(2), gset::Payload::Add { element: 7 })).unwrap();

    a.handle(envelope("n1", "n1", None, gset::Payload::GossipSend)).unwrap();
    let first = a.gossip_manager.outstanding_ids();
    assert_eq!(first.len(), 1);
    let mid = first[0];

    // One tick later the entry is still outstanding (now marked at risk),
    // and the unacknowledged delta is recomputed and resent under a new id.
    let out = a.handle(envelope("n1", "n1", None, gset::Payload::GossipSend)).unwrap();
    assert_eq!(out.len(), 1);
    let second = a.gossip_manager.outstanding_ids();
    assert!(second.contains(&mid));
    assert_eq!(second.len(), 2);

    // The tick after that drops the first entry: it has now been
    // outstanding through two full tick cycles with no acknowledgment. The
    // resend from the previous tick is younger and survives, alongside this
    // tick's own resend.
    a.handle(envelope("n1", "n1", None, gset::Payload::GossipSend)).unwrap();
    let third = a.gossip_manager.outstanding_ids();
    assert!(!third.contains(&mid));
    assert_eq!(third.len(), 2);
}

/// With several peers, the tick-start pruning still gives every entry the
/// full two-tick grace window: entries recorded during one tick survive the
/// whole next tick and are dropped only by the one after.
#[test]
fn gset_stale_gossip_two_peer_grace_window() {
    let mut a = gset::GSetNode::new();
    a.handle(envelope("c1", "n1", Some(1), gset::Payload::Init {
        node_id: "n1".to_string(),
        node_ids: vec!["n2".to_string(), "n3".to_string()],
    }))
    .unwrap();
    a.handle(envelope("c1", "n1", Some(2), gset::Payload::Add { element: 7 })).unwrap();

    // First tick: one gossip per peer, both recorded as outstanding.
    let out = a.handle(envelope("n1", "n1", None, gset::Payload::GossipSend)).unwrap();
    assert_eq!(out.len(), 2);
    let first = sorted(a.gossip_manager.outstanding_ids());
    assert_eq!(first.len(), 2);

    // Second tick: pruning runs once at its start, so the first tick's
    // entries are only now marked at risk and both survive the whole tick,
    // alongside the resends.
    let out = a.handle(envelope("n1", "n1", None, gset::Payload::GossipSend)).unwrap();
    assert_eq!(out.len(), 2);
    let second = a.gossip_manager.outstanding_ids();
    assert!(second.contains(&first[0]));
    assert!(second.contains(&first[1]));
    assert_eq!(second.len(), 4);

    // Third tick: the first tick's entries have now gone two full tick
    // cycles without an acknowledgment and are dropped; the younger resends
    // survive.
    a.handle(envelope("n1", "n1", None, gset::Payload::GossipSend)).unwrap();
    let third = a.gossip_manager.outstanding_ids();
    assert!(!third.contains(&first[0]));
    assert!(!third.contains(&first[1]));
    assert_eq!(third.len(), 4);
}

/// An acknowledgment merges exactly the payload recorded under its id into
/// the verified-by-peer table; duplicates and unknown ids change nothing.
#[test]
fn manager_ack_merges_exactly_recorded_payload() {
    let mut m = GossipManager::new();
    m.prune_stale_sent_gossips();
    let values = vec![1, 2, 3];
    let delta = m.get_messages_to_send("n2", &values);
    assert_eq!(delta, vec![1, 2, 3]);
    m.record_sent(41, &delta);

    let other = m.get_messages_to_send("n3", &values);
    assert_eq!(other, vec![1, 2, 3]);
    m.record_sent(42, &other);

    let mut ack: Message<()> = envelope("n2", "n1", None, ());
    ack.body.in_reply_to = Some(41);
    m.handle_gossip_ok(ack);
    assert_eq!(sorted(m.known("n2")), vec![1, 2, 3]);
    assert!(m.known("n3").is_empty());
    assert_eq!(m.outstanding_ids(), vec![42]);

    // A duplicate acknowledgment for the removed id changes nothing.
    let mut dup = envelope("n2", "n1", None, ());
    dup.body.in_reply_to = Some(41);
    m.handle_gossip_ok(dup);
    assert_eq!(sorted(m.known("n2")), vec![1, 2, 3]);
    assert_eq!(m.outstanding_ids(), vec![42]);

    // An acknowledgment for an id never sent changes nothing.
    let mut unknown = envelope("n9", "n1", None, ());
    unknown.body.in_reply_to = Some(977);
    m.handle_gossip_ok(unknown);
    assert!(m.known("n9").is_empty());
    assert_eq!(m.outstanding_ids(), vec![42]);
}

/// A peer that gossiped elements to us is never sent them back, and a peer
/// that already holds everything gets an empty delta: it is skipped, and
/// nothing is recorded as outstanding.
#[test]
fn manager_verified_elements_leave_the_delta() {
    let mut m = GossipManager::new();
    m.verify_messages("n2", vec![1, 3]);
    let delta = m.get_messages_to_send("n2", &vec![1, 2, 3, 4]);
    assert_eq!(delta, vec![2, 4]);

    m.verify_messages("n2", vec![2, 4]);
    let delta = m.get_messages_to_send("n2", &vec![1, 2, 3, 4]);
    assert!(delta.is_empty());
    assert!(m.outstanding_ids().is_empty());
}

/// Counter scenario: node A adds 3, node B adds 5; after one bidirectional
/// gossip exchange both nodes read 8.
#[test]
fn counter_bidirectional_gossip_converges_to_sum() {
    let mut a = counter::Counter::new();
    let mut b = counter::Counter::new();
    a.handle(envelope("c1", "n1", Some(1), counter::Payload::Init {
        node_id: "n1".to_string(),
        node_ids: vec!["n2".to_string()],
    }))
    .unwrap();
    b.handle(envelope("c1", "n2", Some(1), counter::Payload::Init {
        node_id: "n2".to_string(),
        node_ids: vec!["n1".to_string()],
    }))
    .unwrap();
    a.handle(envelope("c1", "n1", Some(2), counter::Payload::Add { delta: 3 })).unwrap();
    b.handle(envelope("c1", "n2", Some(2), counter::Payload::Add { delta: 5 })).unwrap();

    let from_a = a.handle(envelope("n1", "n1", None, counter::Payload::GossipSend)).unwrap();
    let from_b = b.handle(envelope("n2", "n2", None, counter::Payload::GossipSend)).unwrap();
    assert_eq!(from_a.len(), 1);
    assert_eq!(from_b.len(), 1);
    for msg in from_a {
        b.handle(msg).unwrap();
    }
    for msg in from_b {
        a.handle(msg).unwrap();
    }
    assert_eq!(read_counter(&mut a), 8);
    assert_eq!(read_counter(&mut b), 8);
}

/// Applying the same counter gossip twice reads the same as applying it
/// once: the per-actor maximum is idempotent.
#[test]
fn counter_gossip_applied_twice_reads_once() {
    let mut a = counter::Counter::new();
    a.handle(envelope("c1", "n1", Some(1), counter::Payload::Init {
        node_id: "n1".to_string(),
        node_ids: vec![],
    }))
    .unwrap();
    a.handle(envelope("c1", "n1", Some(2), counter::Payload::Add { delta: 3 })).unwrap();
    let inc = vec![("n2".to_string(), 5i64)];
    let dec: Vec<(String, i64)> = vec![];
    a.handle(envelope("n2", "n1", Some(9), counter::Payload::Gossip {
        inc_messages: inc.clone(),
        dec_messages: dec.clone(),
    }))
    .unwrap();
    assert_eq!(read_counter(&mut a), 8);
    a.handle(envelope("n2", "n1", Some(10), counter::Payload::Gossip {
        inc_messages: inc,
        dec_messages: dec,
    }))
    .unwrap();
    assert_eq!(read_counter(&mut a), 8);
}

/// Applying counter gossip A then B reads the same as B then A: the
/// per-actor maximum is commutative.
#[test]
fn counter_gossip_order_does_not_matter() {
    let gossip_x = counter::Payload::Gossip {
        inc_messages: vec![("n2".to_string(), 5i64), ("n3".to_string(), 1i64)],
        dec_messages: vec![("n2".to_string(), 2i64)],
    };
    let gossip_y = counter::Payload::Gossip {
        inc_messages: vec![("n3".to_string(), 4i64)],
        dec_messages: vec![("n4".to_string(), 1i64)],
    };

    let mut one = counter::Counter::new();
    one.handle(envelope("c1", "n1", Some(1), counter::Payload::Init {
        node_id: "n1".to_string(),
        node_ids: vec![],
    }))
    .unwrap();
    one.handle(envelope("c1", "n1", Some(2), counter::Payload::Add { delta: 3 })).unwrap();
    let mut two = counter::Counter::new();
    two.handle(envelope("c1", "n1", Some(1), counter::Payload::Init {
        node_id: "n1".to_string(),
        node_ids: vec![],
    }))
    .unwrap();
    two.handle(envelope("c1", "n1", Some(2), counter::Payload::Add { delta: 3 })).unwrap();

    let clone_payload = |p: &counter::Payload| match p {
        counter::Payload::Gossip { inc_messages, dec_messages } => counter::Payload::Gossip {
            inc_messages: inc_messages.clone(),
            dec_messages: dec_messages.clone(),
        },
        _ => panic!("expected Gossip"),
    };

    one.handle(envelope("n2", "n1", Some(3), clone_payload(&gossip_x))).unwrap();
    one.handle(envelope("n2", "n1", Some(4), clone_payload(&gossip_y))).unwrap();
    two.handle(envelope("n2", "n1", Some(3), clone_payload(&gossip_y))).unwrap();
    two.handle(envelope("n2", "n1", Some(4), clone_payload(&gossip_x))).unwrap();
    assert_eq!(read_counter(&mut one), read_counter(&mut two));
    assert_eq!(read_counter(&mut one), 3 + 5 + 4 - 2 - 1);
}

/// A counter write with a negative delta feeds the decrement totals.
#[test]
fn counter_negative_add_decrements() {
    let mut a = counter::Counter::new();
    a.handle(envelope("c1", "n1", Some(1), counter::Payload::Init {
        node_id: "n1".to_string(),
        node_ids: vec![],
    }))
    .unwrap();
    a.handle(envelope("c1", "n1", Some(2), counter::Payload::Add { delta: 3 })).unwrap();
    a.handle(envelope("c1", "n1", Some(3), counter::Payload::Add { delta: -4 })).unwrap();
    assert_eq!(read_counter(&mut a), -1);
}

/// Counter rejects a reply-only kind arriving as a request.
#[test]
fn counter_rejects_read_ok_as_request() {
    let mut a = counter::Counter::new();
    let bad = envelope("c1", "n1", Some(1), counter::Payload::ReadOk { value: 3 });
    assert!(matches!(a.handle(bad), Err(FatalError::UnexpectedMessage)));
}

/// Set-replica convergence under different delivery orders: three nodes, a
/// few writes, and gossip delivered in several interleavings all converge to
/// the same set once every delta has been exchanged.
#[test]
fn gset_three_nodes_converge_regardless_of_order() {
    let orders: Vec<Vec<usize>> = vec![vec![0, 1, 2], vec![2, 1, 0], vec![1, 2, 0]];
    for order in orders {
        let names = ["n1", "n2", "n3"];
        let peers = |me: usize| -> Vec<String> {
            (0..3).filter(|j| *j != me).map(|j| names[j].to_string()).collect()
        };
        let mut nodes: Vec<gset::GSetNode> = (0..3).map(|_| gset::GSetNode::new()).collect();
        for me in 0..3 {
            nodes[me]
                .handle(envelope("c1", names[me], Some(1), gset::Payload::Init {
                    node_id: names[me].to_string(),
                    node_ids: peers(me),
                }))
                .unwrap();
        }
        nodes[0]
            .handle(envelope("c1", "n1", Some(2), gset::Payload::Add { element: 10 }))
            .unwrap();
        nodes[1]
            .handle(envelope("c1", "n2", Some(2), gset::Payload::Add { element: 20 }))
            .unwrap();
        nodes[2]
            .handle(envelope("c1", "n3", Some(2), gset::Payload::Add { element: 30 }))
            .unwrap();

        // Two full rounds of ticks, gossip delivered in the given order,
        // acknowledgments dropped (the protocol must not depend on them).
        for _round in 0..2 {
            let mut pending: Vec<Message<gset::Payload>> = Vec::new();
            for &me in &order {
                let name = names[me];
                let out = nodes[me]
                    .handle(envelope(name, name, None, gset::Payload::GossipSend))
                    .unwrap();
                pending.extend(out);
            }
            for msg in pending {
                let to = names.iter().position(|n| *n == msg.dest).unwrap();
                nodes[to].handle(msg).unwrap();
            }
        }
        let mut reads: Vec<Vec<usize>> = Vec::new();
        for me in 0..3 {
            reads.push(sorted(read_gset(&mut nodes[me])));
        }
        assert_eq!(reads[0], vec![10, 20, 30]);
        assert_eq!(reads[1], vec![10, 20, 30]);
        assert_eq!(reads[2], vec![10, 20, 30]);
    }
}
