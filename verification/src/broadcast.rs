//! The broadcast service: a grow-only set of values replicated by gossip.
//!
//! A write inserts one value; a read returns the whole set; the periodic
//! "gossip due" event runs one anti-entropy tick, described exactly by
//! `tick_fold`: stale-gossip pruning once at the start of the tick, then, for
//! every neighbor in order, the delta of values the neighbor is not known to
//! hold, skipped when empty, otherwise sent under a freshly allocated message
//! id and recorded as outstanding.

use vstd::prelude::*;

use crate::elements::contains_value;
use crate::elements::copy_values;
use crate::elements::delta_of;
use crate::elements::filter_unknown;
use crate::elements::merge_into;
use crate::gossip::SentTable;
use crate::message::is_reply_to;
use crate::message::Body;
use crate::message::Message;
use crate::node::FatalError;
use crate::node::Node;

verus! {

/// What a broadcast node sends and receives.
pub enum Payload {
    Init { node_id: String, node_ids: Vec<String> },
    InitOk,
    Broadcast { message: usize },
    BroadcastOk,
    Read,
    ReadOk { messages: Vec<usize> },
    Topology { topology: Vec<(String, Vec<String>)> },
    TopologyOk,
    GossipSend,
    Gossip { messages: Vec<usize> },
    GossipOk,
}

/// A node replicating a grow-only set of `usize` values to its neighbors.
pub struct BroadcastNode {
    pub msg_id: usize,
    pub node_id: String,
    pub messages: Vec<usize>,
    pub neighbors: Vec<String>,
    pub verified: vstd::hash_map::StringHashMap<Vec<usize>>,
    pub gossips_sent: SentTable,
    pub last_gossips_sent: Vec<usize>,
}

/// One gossip tick's running state: the message-id counter, the
/// outstanding-gossip table, and for every message sent so far the neighbor
/// index, the id it was sent under, and the delta it carried.
pub type TickState = (int, Map<usize, Seq<usize>>, Seq<(int, usize, Seq<usize>)>);

/// The delta a tick computes for `peer`: the node's values the peer is not
/// known to hold.
pub open spec fn tick_delta(n: BroadcastNode, peer: Seq<char>) -> Seq<usize> {
    delta_of(n.messages@, n.known_of(peer))
}

/// One neighbor's share of a gossip tick: an empty delta is skipped; a
/// non-empty one allocates the next message id, is recorded as outstanding
/// under it, and is emitted.
pub open spec fn tick_step(n: BroadcastNode, s: TickState, i: int) -> TickState {
    let delta = tick_delta(n, n.neighbors@[i]@);
    if delta.len() == 0 {
        s
    } else {
        let mid = (s.0 + 1) as usize;
        let base = if s.1.contains_key(mid) {
            s.1[mid]
        } else {
            Seq::<usize>::empty()
        };
        (s.0 + 1, s.1.insert(mid, base + delta), s.2.push((i, mid, delta)))
    }
}

/// A gossip tick over the neighbors from index `i` on.
pub open spec fn tick_fold(n: BroadcastNode, s: TickState, i: int) -> TickState
    decreases n.neighbors@.len() - i,
{
    if i < 0 || i >= n.neighbors@.len() {
        s
    } else {
        tick_fold(n, tick_step(n, s, i), i + 1)
    }
}

/// The outstanding-gossip table after stale pruning: every entry already
/// marked stale is dropped, the rest keep their payload.
pub open spec fn pruned_map(n: BroadcastNode) -> Map<usize, Seq<usize>> {
    Map::new(
        |id: usize| n.gossips_sent.has(id) && !n.last_gossips_sent@.contains(id),
        |id: usize| n.gossips_sent.payload(id),
    )
}

/// The state a gossip tick starts from: the current message-id counter, the
/// pruned outstanding-gossip table, and nothing emitted yet.
pub open spec fn tick_start(n: BroadcastNode) -> TickState {
    (n.msg_id as int, pruned_map(n), Seq::<(int, usize, Seq<usize>)>::empty())
}

/// The first topology entry for key `k`, if any.
pub open spec fn topo_find(t: Seq<(String, Vec<String>)>, k: Seq<char>) -> Option<Vec<String>>
    decreases t.len(),
{
    if t.len() == 0 {
        None
    } else if t[0].0@ == k {
        Some(t[0].1)
    } else {
        topo_find(t.skip(1), k)
    }
}

impl BroadcastNode {
    /// The node's values hold no duplicates, the outstanding-gossip table
    /// carries distinct ids, and every outstanding message id was allocated
    /// by this node's counter.
    pub open spec fn inv(self) -> bool {
        &&& forall|j: int, k: int|
            0 <= j < k < self.messages@.len() ==> self.messages@[j] != self.messages@[k]
        &&& self.gossips_sent.wf()
        &&& forall|id: usize| #[trigger] self.gossips_sent.has(id) ==> id <= self.msg_id
    }

    /// The values `peer` is known to hold.
    pub open spec fn known_of(self, peer: Seq<char>) -> Seq<usize> {
        if self.verified@.contains_key(peer) {
            self.verified@[peer]@
        } else {
            Seq::<usize>::empty()
        }
    }

    /// A fresh broadcast node: no values, no neighbors, nothing outstanding.
    pub fn new() -> (r: Self)
        ensures
            r.inv(),
            r.msg_id == 0,
            r.messages@ == Seq::<usize>::empty(),
            r.neighbors@ == Seq::<String>::empty(),
            forall|peer: Seq<char>| r.known_of(peer) == Seq::<usize>::empty(),
            forall|id: usize| !r.gossips_sent.has(id),
            r.last_gossips_sent@ == Seq::<usize>::empty(),
    {
        broadcast use vstd::string::to_string_from_display_ensures_for_str;

        BroadcastNode {
            msg_id: 0,
            node_id: "0".to_string(),
            messages: Vec::new(),
            neighbors: Vec::new(),
            verified: vstd::hash_map::StringHashMap::new(),
            gossips_sent: SentTable::new(),
            last_gossips_sent: Vec::new(),
        }
    }
}

impl Node<Payload> for BroadcastNode {
    /// The node is well formed and one gossip tick's worth of message ids
    /// still fits the counter.
    open spec fn ready(&self, input: &Message<Payload>) -> bool {
        &&& self.inv()
        &&& self.msg_id + self.neighbors@.len() + 1 <= usize::MAX
    }

    open spec fn can_allocate(&self) -> bool {
        self.msg_id < usize::MAX
    }

    fn init(&mut self)
        ensures
            *final(self) == *old(self),
    {
    }

    fn get_msg_id(&mut self) -> (r: Option<usize>)
        ensures
            final(self).msg_id == old(self).msg_id + 1,
            r == Some((old(self).msg_id + 1) as usize),
            final(self).node_id == old(self).node_id,
            final(self).messages == old(self).messages,
            final(self).neighbors == old(self).neighbors,
            final(self).verified == old(self).verified,
            final(self).gossips_sent == old(self).gossips_sent,
            final(self).last_gossips_sent == old(self).last_gossips_sent,
    {
        self.msg_id = self.msg_id + 1;
        Some(self.msg_id)
    }

    fn handle(&mut self, input_msg: Message<Payload>) -> (r: Result<
        Vec<Message<Payload>>,
        FatalError,
    >)
        ensures
            final(self).inv(),
            match input_msg.body.payload {
                Payload::Init { node_id, .. } => {
                    &&& final(self).node_id == node_id
                    &&& final(self).msg_id == old(self).msg_id + 1
                    &&& final(self).messages == old(self).messages
                    &&& final(self).neighbors == old(self).neighbors
                    &&& final(self).verified == old(self).verified
                    &&& final(self).gossips_sent == old(self).gossips_sent
                    &&& final(self).last_gossips_sent == old(self).last_gossips_sent
                    &&& r matches Ok(out) && out@.len() == 1 && is_reply_to(
                        out@[0],
                        input_msg,
                        Some((old(self).msg_id + 1) as usize),
                    ) && out@[0].body.payload is InitOk
                },
                Payload::InitOk => r == Err::<Vec<Message<Payload>>, FatalError>(
                    FatalError::UnexpectedMessage,
                ) && *final(self) == *old(self),
                Payload::Broadcast { message } => {
                    &&& final(self).messages@ == (if old(self).messages@.contains(message) {
                        old(self).messages@
                    } else {
                        old(self).messages@.push(message)
                    })
                    &&& final(self).msg_id == old(self).msg_id + 1
                    &&& final(self).neighbors == old(self).neighbors
                    &&& final(self).node_id == old(self).node_id
                    &&& final(self).verified == old(self).verified
                    &&& final(self).gossips_sent == old(self).gossips_sent
                    &&& final(self).last_gossips_sent == old(self).last_gossips_sent
                    &&& r matches Ok(out) && out@.len() == 1 && is_reply_to(
                        out@[0],
                        input_msg,
                        Some((old(self).msg_id + 1) as usize),
                    ) && out@[0].body.payload is BroadcastOk
                },
                Payload::BroadcastOk => r matches Ok(out) && out@.len() == 0 && *final(self)
                    == *old(self),
                Payload::Read => {
                    &&& final(self).messages == old(self).messages
                    &&& final(self).msg_id == old(self).msg_id + 1
                    &&& final(self).neighbors == old(self).neighbors
                    &&& final(self).node_id == old(self).node_id
                    &&& final(self).verified == old(self).verified
                    &&& final(self).gossips_sent == old(self).gossips_sent
                    &&& final(self).last_gossips_sent == old(self).last_gossips_sent
                    &&& r matches Ok(out) && out@.len() == 1 && is_reply_to(
                        out@[0],
                        input_msg,
                        Some((old(self).msg_id + 1) as usize),
                    ) && (out@[0].body.payload matches Payload::ReadOk { messages: m } && m@ == old(
                        self,
                    ).messages@)
                },
                Payload::ReadOk { .. } => r matches Ok(out) && out@.len() == 0 && *final(self)
                    == *old(self),
                Payload::Topology { topology } => match topo_find(
                    topology@,
                    old(self).node_id@,
                ) {
                    Some(neighbors) => {
                        &&& final(self).neighbors == neighbors
                        &&& final(self).messages == old(self).messages
                        &&& final(self).msg_id == old(self).msg_id + 1
                        &&& final(self).node_id == old(self).node_id
                        &&& final(self).verified == old(self).verified
                        &&& final(self).gossips_sent == old(self).gossips_sent
                        &&& final(self).last_gossips_sent == old(self).last_gossips_sent
                        &&& r matches Ok(out) && out@.len() == 1 && is_reply_to(
                            out@[0],
                            input_msg,
                            Some((old(self).msg_id + 1) as usize),
                        ) && out@[0].body.payload is TopologyOk
                    },
                    None => r == Err::<Vec<Message<Payload>>, FatalError>(
                        FatalError::MissingTopology,
                    ) && *final(self) == *old(self),
                },
                Payload::TopologyOk => r matches Ok(out) && out@.len() == 0 && *final(self)
                    == *old(self),
                Payload::GossipSend => {
                    let s_end = tick_fold(*old(self), tick_start(*old(self)), 0);
                    &&& final(self).msg_id as int == s_end.0
                    &&& forall|id: usize|
                        #[trigger] final(self).gossips_sent.has(id) <==> s_end.1.contains_key(id)
                    &&& forall|id: usize|
                        s_end.1.contains_key(id) ==> final(self).gossips_sent.payload(id)
                            == s_end.1[id]
                    &&& forall|id: usize|
                        #[trigger] final(self).last_gossips_sent@.contains(id) <==> (old(
                            self,
                        ).gossips_sent.has(id) && !old(self).last_gossips_sent@.contains(id))
                    &&& final(self).messages == old(self).messages
                    &&& final(self).neighbors == old(self).neighbors
                    &&& final(self).node_id == old(self).node_id
                    &&& final(self).verified == old(self).verified
                    &&& r matches Ok(out) && out@.len() == s_end.2.len() && (forall|k: int|
                        0 <= k < out@.len() ==> {
                            &&& (#[trigger] out@[k]).src == old(self).node_id
                            &&& out@[k].dest == old(self).neighbors@[s_end.2[k].0]
                            &&& out@[k].body.msg_id == Some(s_end.2[k].1)
                            &&& out@[k].body.in_reply_to is None
                            &&& out@[k].body.payload matches Payload::Gossip { messages: m } && m@
                                == s_end.2[k].2
                        })
                },
                Payload::Gossip { messages } => {
                    &&& final(self).messages@.to_set() == old(self).messages@.to_set().union(
                        messages@.to_set(),
                    )
                    &&& final(self).known_of(input_msg.src@) == old(self).known_of(input_msg.src@)
                        + messages@
                    &&& forall|peer: Seq<char>|
                        peer != input_msg.src@ ==> final(self).known_of(peer) == old(self).known_of(
                            peer,
                        )
                    &&& final(self).msg_id == old(self).msg_id + 1
                    &&& final(self).neighbors == old(self).neighbors
                    &&& final(self).node_id == old(self).node_id
                    &&& final(self).gossips_sent == old(self).gossips_sent
                    &&& final(self).last_gossips_sent == old(self).last_gossips_sent
                    &&& r matches Ok(out) && out@.len() == 1 && is_reply_to(
                        out@[0],
                        input_msg,
                        Some((old(self).msg_id + 1) as usize),
                    ) && out@[0].body.payload is GossipOk
                },
                Payload::GossipOk => {
                    match input_msg.body.in_reply_to {
                        Some(mid) => {
                            if old(self).gossips_sent.has(mid) {
                                &&& !final(self).gossips_sent.has(mid)
                                &&& forall|id: usize|
                                    id != mid ==> final(self).gossips_sent.has(id) == old(
                                        self,
                                    ).gossips_sent.has(id)
                                &&& forall|id: usize|
                                    id != mid && old(self).gossips_sent.has(id) ==> final(self).gossips_sent.payload(id) == old(self).gossips_sent.payload(
                                        id,
                                    )
                                &&& final(self).known_of(input_msg.src@) == old(self).known_of(
                                    input_msg.src@,
                                ) + old(self).gossips_sent.payload(mid)
                                &&& forall|peer: Seq<char>|
                                    peer != input_msg.src@ ==> final(self).known_of(peer) == old(
                                        self,
                                    ).known_of(peer)
                                &&& final(self).messages == old(self).messages
                                &&& final(self).msg_id == old(self).msg_id
                                &&& final(self).node_id == old(self).node_id
                                &&& final(self).neighbors == old(self).neighbors
                                &&& final(self).last_gossips_sent == old(self).last_gossips_sent
                                &&& r matches Ok(out) && out@.len() == 0
                            } else {
                                r matches Ok(out) && out@.len() == 0 && *final(self) == *old(self)
                            }
                        },
                        None => r matches Ok(out) && out@.len() == 0 && *final(self) == *old(self),
                    }
                },
            },
    {
        let Message { src, dest, body } = input_msg;
        let Body { msg_id: in_msg_id, in_reply_to, payload } = body;
        match payload {
            Payload::Init { node_id, node_ids: _ } => {
                self.node_id = node_id;
                let reply = Message {
                    src: dest,
                    dest: src,
                    body: Body {
                        msg_id: self.get_msg_id(),
                        in_reply_to: in_msg_id,
                        payload: Payload::InitOk,
                    },
                };
                let mut out: Vec<Message<Payload>> = Vec::new();
                out.push(reply);
                Ok(out)
            },
            Payload::InitOk => Err(FatalError::UnexpectedMessage),
            Payload::Broadcast { message } => {
                if !contains_value(&self.messages, message) {
                    self.messages.push(message);
                }
                let reply = Message {
                    src: dest,
                    dest: src,
                    body: Body {
                        msg_id: self.get_msg_id(),
                        in_reply_to: in_msg_id,
                        payload: Payload::BroadcastOk,
                    },
                };
                let mut out: Vec<Message<Payload>> = Vec::new();
                out.push(reply);
                Ok(out)
            },
            Payload::BroadcastOk => {
                let out: Vec<Message<Payload>> = Vec::new();
                Ok(out)
            },
            Payload::Read => {
                let snapshot = copy_values(&self.messages);
                let reply = Message {
                    src: dest,
                    dest: src,
                    body: Body {
                        msg_id: self.get_msg_id(),
                        in_reply_to: in_msg_id,
                        payload: Payload::ReadOk { messages: snapshot },
                    },
                };
                let mut out: Vec<Message<Payload>> = Vec::new();
                out.push(reply);
                Ok(out)
            },
            Payload::ReadOk { .. } => {
                let out: Vec<Message<Payload>> = Vec::new();
                Ok(out)
            },
            Payload::Topology { topology } => {
                let mut topology = topology;
                let mut i: usize = 0;
                let mut found: Option<usize> = None;
                proof {
                    assert(topology@.skip(0) =~= topology@);
                }
                while i < topology.len()
                    invariant
                        0 <= i <= topology@.len(),
                        match found {
                            None => topo_find(topology@, self.node_id@) == topo_find(
                                topology@.skip(i as int),
                                self.node_id@,
                            ),
                            Some(j) => j < topology@.len() && topo_find(topology@, self.node_id@)
                                == Some(topology@[j as int].1),
                        },
                    decreases topology@.len() - i,
                {
                    proof {
                        assert(topology@.skip(i as int)[0] == topology@[i as int]);
                        assert(topology@.skip(i as int).skip(1) =~= topology@.skip(i + 1 as int));
                    }
                    if found.is_none() && topology[i].0 == self.node_id {
                        found = Some(i);
                    }
                    i = i + 1;
                }
                match found {
                    Some(j) => {
                        let entry = topology.swap_remove(j);
                        self.neighbors = entry.1;
                        let reply = Message {
                            src: dest,
                            dest: src,
                            body: Body {
                                msg_id: self.get_msg_id(),
                                in_reply_to: in_msg_id,
                                payload: Payload::TopologyOk,
                            },
                        };
                        let mut out: Vec<Message<Payload>> = Vec::new();
                        out.push(reply);
                        Ok(out)
                    },
                    None => {
                        proof {
                            assert(topology@.skip(topology@.len() as int) =~= Seq::<(
                                String,
                                Vec<String>,
                            )>::empty());
                        }
                        Err(FatalError::MissingTopology)
                    },
                }
            },
            Payload::TopologyOk => {
                let out: Vec<Message<Payload>> = Vec::new();
                Ok(out)
            },
            Payload::GossipSend => {
                let ghost n0 = *old(self);
                self.gossips_sent.remove_all(&self.last_gossips_sent);
                self.last_gossips_sent = self.gossips_sent.keys();
                let ghost base = *self;
                let ghost s0 = tick_start(n0);
                proof {
                    assert(base.gossips_sent.as_map() =~= pruned_map(n0));
                }
                let mut out: Vec<Message<Payload>> = Vec::new();
                let ghost mut entries = Seq::<(int, usize, Seq<usize>)>::empty();
                let mut i: usize = 0;
                while i < self.neighbors.len()
                    invariant
                        0 <= i <= self.neighbors@.len(),
                        self.neighbors == n0.neighbors,
                        self.messages == n0.messages,
                        self.verified == n0.verified,
                        self.node_id == n0.node_id,
                        self.last_gossips_sent == base.last_gossips_sent,
                        self.gossips_sent.wf(),
                        n0.inv(),
                        n0.msg_id + n0.neighbors@.len() + 1 <= usize::MAX,
                        n0.msg_id <= self.msg_id,
                        self.msg_id as int <= n0.msg_id + i,
                        forall|id: usize| #[trigger]
                            self.gossips_sent.has(id) ==> id <= self.msg_id,
                        tick_fold(
                            n0,
                            (self.msg_id as int, self.gossips_sent.as_map(), entries),
                            i as int,
                        ) == tick_fold(n0, s0, 0),
                        out@.len() == entries.len(),
                        forall|k: int|
                            0 <= k < out@.len() ==> {
                                &&& (#[trigger] out@[k]).src == n0.node_id
                                &&& out@[k].dest == n0.neighbors@[entries[k].0]
                                &&& out@[k].body.msg_id == Some(entries[k].1)
                                &&& out@[k].body.in_reply_to is None
                                &&& out@[k].body.payload matches Payload::Gossip { messages: m }
                                    && m@ == entries[k].2
                            },
                    decreases self.neighbors@.len() - i,
                {
                    let ghost cur: TickState = (
                        self.msg_id as int,
                        self.gossips_sent.as_map(),
                        entries,
                    );
                    let dest_id = self.neighbors[i].clone();
                    proof {
                        assert(dest_id@ == n0.neighbors@[i as int]@);
                    }
                    let empty_known: Vec<usize> = Vec::new();
                    let gossip_messages = match self.verified.get(dest_id.as_str()) {
                        Some(k) => filter_unknown(&self.messages, k),
                        None => filter_unknown(&self.messages, &empty_known),
                    };
                    proof {
                        assert(gossip_messages@ == tick_delta(n0, n0.neighbors@[i as int]@));
                    }
                    if gossip_messages.len() == 0 {
                        proof {
                            assert(tick_step(n0, cur, i as int) == cur);
                        }
                    } else {
                        let mid = match self.get_msg_id() {
                            Some(m) => m,
                            None => 0,
                        };
                        let ghost pre_map = self.gossips_sent.as_map();
                        self.gossips_sent.extend_entry(mid, &gossip_messages);
                        proof {
                            let basep = if pre_map.contains_key(mid) {
                                pre_map[mid]
                            } else {
                                Seq::<usize>::empty()
                            };
                            assert(self.gossips_sent.as_map() =~= pre_map.insert(
                                mid,
                                basep + gossip_messages@,
                            ));
                        }
                        let gossip = Message {
                            src: self.node_id.clone(),
                            dest: dest_id,
                            body: Body {
                                msg_id: Some(mid),
                                in_reply_to: None,
                                payload: Payload::Gossip { messages: gossip_messages },
                            },
                        };
                        out.push(gossip);
                        proof {
                            entries = entries.push(
                                (i as int, mid, tick_delta(n0, n0.neighbors@[i as int]@)),
                            );
                            assert((self.msg_id as int, self.gossips_sent.as_map(), entries)
                                == tick_step(n0, cur, i as int));
                        }
                    }
                    i = i + 1;
                }
                proof {
                    assert(tick_fold(
                        n0,
                        (self.msg_id as int, self.gossips_sent.as_map(), entries),
                        n0.neighbors@.len() as int,
                    ) == (self.msg_id as int, self.gossips_sent.as_map(), entries));
                    assert forall|id: usize| #[trigger]
                        self.last_gossips_sent@.contains(id) <==> (n0.gossips_sent.has(id)
                            && !n0.last_gossips_sent@.contains(id)) by {
                        assert(base.last_gossips_sent@.contains(id) == base.gossips_sent.has(id));
                    }
                }
                Ok(out)
            },
            Payload::Gossip { messages } => {
                merge_into(&mut self.messages, &messages);
                let mut v: Vec<usize> = match self.verified.get(src.as_str()) {
                    Some(cur) => copy_values(cur),
                    None => Vec::new(),
                };
                let mut m = messages;
                v.append(&mut m);
                let peer = src.clone();
                self.verified.insert(peer, v);
                let reply = Message {
                    src: dest,
                    dest: src,
                    body: Body {
                        msg_id: self.get_msg_id(),
                        in_reply_to: in_msg_id,
                        payload: Payload::GossipOk,
                    },
                };
                let mut out: Vec<Message<Payload>> = Vec::new();
                out.push(reply);
                Ok(out)
            },
            Payload::GossipOk => {
                match in_reply_to {
                    Some(mid) => {
                        match self.gossips_sent.remove(mid) {
                            Some(sent) => {
                                let mut v: Vec<usize> = match self.verified.get(src.as_str()) {
                                    Some(cur) => copy_values(cur),
                                    None => Vec::new(),
                                };
                                let mut s = sent;
                                v.append(&mut s);
                                self.verified.insert(src, v);
                            },
                            None => {},
                        }
                    },
                    None => {},
                }
                let out: Vec<Message<Payload>> = Vec::new();
                Ok(out)
            },
        }
    }
}

} // verus!
