//! The grow-only set service: a set of values replicated by gossip, with the
//! acknowledgment bookkeeping delegated to the gossip manager.
//!
//! A write adds one element; a read returns the whole set; the periodic
//! "gossip due" event runs one anti-entropy tick: stale-gossip pruning once
//! at the start of the tick, then, for every peer in order — described
//! exactly by `round_fold` — the delta of values the peer is not known to
//! hold, skipped entirely when empty, otherwise sent under a freshly
//! allocated message id and recorded as outstanding.

use vstd::prelude::*;

use crate::elements::contains_value;
use crate::elements::copy_values;
use crate::elements::delta_of;
use crate::elements::merge_into;
use crate::gossip::GossipManager;
use crate::message::is_reply_to;
use crate::message::Body;
use crate::message::Message;
use crate::node::FatalError;
use crate::node::Node;

verus! {

/// What a grow-only-set node sends and receives.
pub enum Payload {
    Init { node_id: String, node_ids: Vec<String> },
    InitOk,
    Add { element: usize },
    AddOk,
    Read,
    ReadOk { value: Vec<usize> },
    GossipSend,
    Gossip { messages: Vec<usize> },
    GossipOk,
}

/// A node replicating a grow-only set of `usize` values to every peer.
pub struct GSetNode {
    pub msg_id: usize,
    pub node_id: String,
    pub node_ids: Vec<String>,
    pub values: Vec<usize>,
    pub gossip_manager: GossipManager,
}

/// One gossip tick's running state: the message-id counter, the
/// outstanding-gossip table, and for every envelope emitted so far the peer
/// index, the id it was sent under, and the delta it carried.
pub type RoundState = (int, Map<usize, Seq<usize>>, Seq<(int, usize, Seq<usize>)>);

/// One peer's share of a gossip tick: an empty delta skips the peer entirely
/// — no message id is allocated and nothing is recorded; a non-empty one
/// allocates the next id, is recorded as outstanding under it, and is
/// emitted.
pub open spec fn round_step(n: GSetNode, s: RoundState, i: int) -> RoundState {
    let delta = delta_of(n.values@, n.gossip_manager.known_of(n.node_ids@[i]@));
    if delta.len() == 0 {
        s
    } else {
        let mid = (s.0 + 1) as usize;
        let base = if s.1.contains_key(mid) {
            s.1[mid]
        } else {
            Seq::<usize>::empty()
        };
        (s.0 + 1, s.1.insert(mid, base + delta), s.2.push((i, mid, delta)))
    }
}

/// A gossip tick over the peers from index `i` on.
pub open spec fn round_fold(n: GSetNode, s: RoundState, i: int) -> RoundState
    decreases n.node_ids@.len() - i,
{
    if i < 0 || i >= n.node_ids@.len() {
        s
    } else {
        round_fold(n, round_step(n, s, i), i + 1)
    }
}

/// The outstanding-gossip table after the tick-start pruning pass: every
/// entry already marked stale is dropped, the rest keep their payload.
pub open spec fn pruned_sent(n: GSetNode) -> Map<usize, Seq<usize>> {
    Map::new(
        |id: usize| n.gossip_manager.outstanding(id) && !n.gossip_manager.is_stale(id),
        |id: usize| n.gossip_manager.sent_payload(id),
    )
}

/// The state a gossip tick starts from: the current message-id counter, the
/// pruned outstanding-gossip table, and nothing emitted yet.
pub open spec fn round_start(n: GSetNode) -> RoundState {
    (n.msg_id as int, pruned_sent(n), Seq::<(int, usize, Seq<usize>)>::empty())
}

impl GSetNode {
    /// The node's values hold no duplicates, the manager is well formed, and
    /// every outstanding message id was allocated by this node's counter.
    pub open spec fn inv(self) -> bool {
        &&& forall|j: int, k: int|
            0 <= j < k < self.values@.len() ==> self.values@[j] != self.values@[k]
        &&& self.gossip_manager.wf()
        &&& forall|id: usize| #[trigger] self.gossip_manager.outstanding(id) ==> id <= self.msg_id
    }

    /// A fresh grow-only-set node: no values, no peers, an empty manager.
    pub fn new() -> (r: Self)
        ensures
            r.inv(),
            r.msg_id == 0,
            r.values@ == Seq::<usize>::empty(),
            r.node_ids@ == Seq::<String>::empty(),
            forall|id: usize| !r.gossip_manager.outstanding(id),
            forall|id: usize| !r.gossip_manager.is_stale(id),
            forall|peer: Seq<char>| r.gossip_manager.known_of(peer) == Seq::<usize>::empty(),
    {
        broadcast use vstd::string::to_string_from_display_ensures_for_str;

        GSetNode {
            msg_id: 0,
            node_id: "0".to_string(),
            node_ids: Vec::new(),
            values: Vec::new(),
            gossip_manager: GossipManager::new(),
        }
    }
}

impl Node<Payload> for GSetNode {
    /// The node is well formed and one gossip tick's worth of message ids
    /// still fits the counter.
    open spec fn ready(&self, input: &Message<Payload>) -> bool {
        &&& self.inv()
        &&& self.msg_id + self.node_ids@.len() + 1 <= usize::MAX
    }

    open spec fn can_allocate(&self) -> bool {
        self.msg_id < usize::MAX
    }

    fn init(&mut self)
        ensures
            *final(self) == *old(self),
    {
    }

    fn get_msg_id(&mut self) -> (r: Option<usize>)
        ensures
            final(self).msg_id == old(self).msg_id + 1,
            r == Some((old(self).msg_id + 1) as usize),
            final(self).node_id == old(self).node_id,
            final(self).node_ids == old(self).node_ids,
            final(self).values == old(self).values,
            final(self).gossip_manager == old(self).gossip_manager,
    {
        self.msg_id = self.msg_id + 1;
        Some(self.msg_id)
    }

    fn handle(&mut self, input_msg: Message<Payload>) -> (r: Result<
        Vec<Message<Payload>>,
        FatalError,
    >)
        ensures
            final(self).inv(),
            match input_msg.body.payload {
                Payload::Init { node_id, node_ids } => {
                    &&& final(self).node_id == node_id
                    &&& final(self).node_ids == node_ids
                    &&& final(self).gossip_manager.identity() == node_id@
                    &&& final(self).gossip_manager.peers() == node_ids@
                    &&& final(self).values == old(self).values
                    &&& final(self).msg_id == old(self).msg_id + 1
                    &&& forall|peer: Seq<char>|
                        final(self).gossip_manager.known_of(peer) == old(
                            self,
                        ).gossip_manager.known_of(peer)
                    &&& forall|id: usize|
                        final(self).gossip_manager.outstanding(id) == old(
                            self,
                        ).gossip_manager.outstanding(id)
                    &&& forall|id: usize|
                        final(self).gossip_manager.sent_payload(id) == old(
                            self,
                        ).gossip_manager.sent_payload(id)
                    &&& forall|id: usize|
                        final(self).gossip_manager.is_stale(id) == old(
                            self,
                        ).gossip_manager.is_stale(id)
                    &&& r matches Ok(out) && out@.len() == 1 && is_reply_to(
                        out@[0],
                        input_msg,
                        Some((old(self).msg_id + 1) as usize),
                    ) && out@[0].body.payload is InitOk
                },
                Payload::InitOk => r == Err::<Vec<Message<Payload>>, FatalError>(
                    FatalError::UnexpectedMessage,
                ) && *final(self) == *old(self),
                Payload::Add { element } => {
                    &&& final(self).values@ == (if old(self).values@.contains(element) {
                        old(self).values@
                    } else {
                        old(self).values@.push(element)
                    })
                    &&& final(self).msg_id == old(self).msg_id + 1
                    &&& final(self).node_id == old(self).node_id
                    &&& final(self).node_ids == old(self).node_ids
                    &&& final(self).gossip_manager == old(self).gossip_manager
                    &&& r matches Ok(out) && out@.len() == 1 && is_reply_to(
                        out@[0],
                        input_msg,
                        Some((old(self).msg_id + 1) as usize),
                    ) && out@[0].body.payload is AddOk
                },
                Payload::AddOk => r == Err::<Vec<Message<Payload>>, FatalError>(
                    FatalError::UnexpectedMessage,
                ) && *final(self) == *old(self),
                Payload::Read => {
                    &&& final(self).values == old(self).values
                    &&& final(self).msg_id == old(self).msg_id + 1
                    &&& final(self).node_id == old(self).node_id
                    &&& final(self).node_ids == old(self).node_ids
                    &&& final(self).gossip_manager == old(self).gossip_manager
                    &&& r matches Ok(out) && out@.len() == 1 && is_reply_to(
                        out@[0],
                        input_msg,
                        Some((old(self).msg_id + 1) as usize),
                    ) && (out@[0].body.payload matches Payload::ReadOk { value } && value@ == old(
                        self,
                    ).values@)
                },
                Payload::ReadOk { .. } => r == Err::<Vec<Message<Payload>>, FatalError>(
                    FatalError::UnexpectedMessage,
                ) && *final(self) == *old(self),
                Payload::GossipSend => {
                    let s_end = round_fold(*old(self), round_start(*old(self)), 0);
                    &&& final(self).msg_id as int == s_end.0
                    &&& forall|id: usize|
                        #[trigger] final(self).gossip_manager.outstanding(id)
                            <==> s_end.1.contains_key(id)
                    &&& forall|id: usize|
                        s_end.1.contains_key(id) ==> final(self).gossip_manager.sent_payload(id)
                            == s_end.1[id]
                    &&& forall|id: usize|
                        #[trigger] final(self).gossip_manager.is_stale(id) <==> (old(
                            self,
                        ).gossip_manager.outstanding(id) && !old(self).gossip_manager.is_stale(id))
                    &&& forall|peer: Seq<char>|
                        final(self).gossip_manager.known_of(peer) == old(
                            self,
                        ).gossip_manager.known_of(peer)
                    &&& final(self).gossip_manager.identity() == old(
                        self,
                    ).gossip_manager.identity()
                    &&& final(self).gossip_manager.peers() == old(self).gossip_manager.peers()
                    &&& final(self).values == old(self).values
                    &&& final(self).node_ids == old(self).node_ids
                    &&& final(self).node_id == old(self).node_id
                    &&& r matches Ok(out) && out@.len() == s_end.2.len() && (forall|k: int|
                        0 <= k < out@.len() ==> {
                            &&& (#[trigger] out@[k]).src == old(self).node_id
                            &&& out@[k].dest == old(self).node_ids@[s_end.2[k].0]
                            &&& out@[k].body.msg_id == Some(s_end.2[k].1)
                            &&& out@[k].body.in_reply_to is None
                            &&& out@[k].body.payload matches Payload::Gossip { messages: m } && m@
                                == s_end.2[k].2
                        })
                },
                Payload::Gossip { messages } => {
                    &&& final(self).values@.to_set() == old(self).values@.to_set().union(
                        messages@.to_set(),
                    )
                    &&& final(self).gossip_manager.known_of(input_msg.src@) == old(
                        self,
                    ).gossip_manager.known_of(input_msg.src@) + messages@
                    &&& forall|peer: Seq<char>|
                        peer != input_msg.src@ ==> final(self).gossip_manager.known_of(peer) == old(
                            self,
                        ).gossip_manager.known_of(peer)
                    &&& forall|id: usize|
                        final(self).gossip_manager.outstanding(id) == old(
                            self,
                        ).gossip_manager.outstanding(id)
                    &&& forall|id: usize|
                        final(self).gossip_manager.sent_payload(id) == old(
                            self,
                        ).gossip_manager.sent_payload(id)
                    &&& forall|id: usize|
                        final(self).gossip_manager.is_stale(id) == old(
                            self,
                        ).gossip_manager.is_stale(id)
                    &&& final(self).msg_id == old(self).msg_id + 1
                    &&& final(self).node_id == old(self).node_id
                    &&& final(self).node_ids == old(self).node_ids
                    &&& r matches Ok(out) && out@.len() == 1 && is_reply_to(
                        out@[0],
                        input_msg,
                        Some((old(self).msg_id + 1) as usize),
                    ) && out@[0].body.payload is GossipOk
                },
                Payload::GossipOk => {
                    match input_msg.body.in_reply_to {
                        Some(mid) => {
                            if old(self).gossip_manager.outstanding(mid) {
                                &&& !final(self).gossip_manager.outstanding(mid)
                                &&& forall|id: usize|
                                    id != mid ==> final(self).gossip_manager.outstanding(id) == old(
                                        self,
                                    ).gossip_manager.outstanding(id)
                                &&& forall|id: usize|
                                    id != mid && old(self).gossip_manager.outstanding(id)
                                        ==> final(self).gossip_manager.sent_payload(id) == old(
                                        self,
                                    ).gossip_manager.sent_payload(id)
                                &&& final(self).gossip_manager.known_of(input_msg.src@) == old(
                                    self,
                                ).gossip_manager.known_of(input_msg.src@) + old(
                                    self,
                                ).gossip_manager.sent_payload(mid)
                                &&& forall|peer: Seq<char>|
                                    peer != input_msg.src@ ==> final(self).gossip_manager.known_of(
                                        peer,
                                    ) == old(self).gossip_manager.known_of(peer)
                                &&& forall|id: usize|
                                    final(self).gossip_manager.is_stale(id) == old(
                                        self,
                                    ).gossip_manager.is_stale(id)
                                &&& final(self).values == old(self).values
                                &&& final(self).msg_id == old(self).msg_id
                                &&& final(self).node_id == old(self).node_id
                                &&& final(self).node_ids == old(self).node_ids
                                &&& r matches Ok(out) && out@.len() == 0
                            } else {
                                r matches Ok(out) && out@.len() == 0 && *final(self) == *old(self)
                            }
                        },
                        None => r matches Ok(out) && out@.len() == 0 && *final(self) == *old(self),
                    }
                },
            },
    {
        let Message { src, dest, body } = input_msg;
        let Body { msg_id: in_msg_id, in_reply_to, payload } = body;
        match payload {
            Payload::Init { node_id, node_ids } => {
                self.node_id = node_id;
                self.node_ids = node_ids;
                let armed_id = self.node_id.clone();
                let armed_peers = copy_strings(&self.node_ids);
                self.gossip_manager.arm(armed_id, armed_peers);
                let reply = Message {
                    src: dest,
                    dest: src,
                    body: Body {
                        msg_id: self.get_msg_id(),
                        in_reply_to: in_msg_id,
                        payload: Payload::InitOk,
                    },
                };
                let mut out: Vec<Message<Payload>> = Vec::new();
                out.push(reply);
                Ok(out)
            },
            Payload::InitOk => Err(FatalError::UnexpectedMessage),
            Payload::Add { element } => {
                if !contains_value(&self.values, element) {
                    self.values.push(element);
                }
                let reply = Message {
                    src: dest,
                    dest: src,
                    body: Body {
                        msg_id: self.get_msg_id(),
                        in_reply_to: in_msg_id,
                        payload: Payload::AddOk,
                    },
                };
                let mut out: Vec<Message<Payload>> = Vec::new();
                out.push(reply);
                Ok(out)
            },
            Payload::AddOk => Err(FatalError::UnexpectedMessage),
            Payload::Read => {
                let snapshot = copy_values(&self.values);
                let reply = Message {
                    src: dest,
                    dest: src,
                    body: Body {
                        msg_id: self.get_msg_id(),
                        in_reply_to: in_msg_id,
                        payload: Payload::ReadOk { value: snapshot },
                    },
                };
                let mut out: Vec<Message<Payload>> = Vec::new();
                out.push(reply);
                Ok(out)
            },
            Payload::ReadOk { .. } => Err(FatalError::UnexpectedMessage),
            Payload::GossipSend => {
                let ghost n0 = *old(self);
                self.gossip_manager.prune_stale_sent_gossips();
                let ghost base = *self;
                let ghost s0 = round_start(n0);
                proof {
                    assert(base.gossip_manager.sent_map() =~= pruned_sent(n0));
                }
                let mut out: Vec<Message<Payload>> = Vec::new();
                let ghost mut entries = Seq::<(int, usize, Seq<usize>)>::empty();
                let mut i: usize = 0;
                while i < self.node_ids.len()
                    invariant
                        0 <= i <= self.node_ids@.len(),
                        self.node_ids == n0.node_ids,
                        self.values == n0.values,
                        self.node_id == n0.node_id,
                        self.gossip_manager.wf(),
                        n0.inv(),
                        n0.msg_id + n0.node_ids@.len() + 1 <= usize::MAX,
                        n0.msg_id <= self.msg_id,
                        self.msg_id as int <= n0.msg_id + i,
                        forall|id: usize| #[trigger]
                            self.gossip_manager.outstanding(id) ==> id <= self.msg_id,
                        forall|peer: Seq<char>|
                            self.gossip_manager.known_of(peer) == n0.gossip_manager.known_of(peer),
                        forall|id: usize|
                            self.gossip_manager.is_stale(id) == base.gossip_manager.is_stale(id),
                        self.gossip_manager.identity() == base.gossip_manager.identity(),
                        self.gossip_manager.peers() == base.gossip_manager.peers(),
                        round_fold(
                            n0,
                            (self.msg_id as int, self.gossip_manager.sent_map(), entries),
                            i as int,
                        ) == round_fold(n0, s0, 0),
                        out@.len() == entries.len(),
                        forall|k: int|
                            0 <= k < out@.len() ==> {
                                &&& (#[trigger] out@[k]).src == n0.node_id
                                &&& out@[k].dest == n0.node_ids@[entries[k].0]
                                &&& out@[k].body.msg_id == Some(entries[k].1)
                                &&& out@[k].body.in_reply_to is None
                                &&& out@[k].body.payload matches Payload::Gossip { messages: m }
                                    && m@ == entries[k].2
                            },
                    decreases self.node_ids@.len() - i,
                {
                    let ghost cur: RoundState = (
                        self.msg_id as int,
                        self.gossip_manager.sent_map(),
                        entries,
                    );
                    let dest_id = self.node_ids[i].clone();
                    proof {
                        assert(dest_id@ == n0.node_ids@[i as int]@);
                    }
                    let gossip_messages = self.gossip_manager.get_messages_to_send(
                        dest_id.as_str(),
                        &self.values,
                    );
                    proof {
                        assert(gossip_messages@ == delta_of(
                            n0.values@,
                            n0.gossip_manager.known_of(n0.node_ids@[i as int]@),
                        ));
                    }
                    if gossip_messages.len() == 0 {
                        proof {
                            assert(round_step(n0, cur, i as int) == cur);
                        }
                    } else {
                        let mid = match self.get_msg_id() {
                            Some(m) => m,
                            None => 0,
                        };
                        let ghost pre_map = self.gossip_manager.sent_map();
                        self.gossip_manager.record_sent(mid, &gossip_messages);
                        proof {
                            let basep = if pre_map.contains_key(mid) {
                                pre_map[mid]
                            } else {
                                Seq::<usize>::empty()
                            };
                            assert(self.gossip_manager.sent_map() =~= pre_map.insert(
                                mid,
                                basep + gossip_messages@,
                            ));
                        }
                        let gossip = Message {
                            src: self.node_id.clone(),
                            dest: dest_id,
                            body: Body {
                                msg_id: Some(mid),
                                in_reply_to: None,
                                payload: Payload::Gossip { messages: gossip_messages },
                            },
                        };
                        out.push(gossip);
                        proof {
                            entries = entries.push(
                                (
                                    i as int,
                                    mid,
                                    delta_of(
                                        n0.values@,
                                        n0.gossip_manager.known_of(n0.node_ids@[i as int]@),
                                    ),
                                ),
                            );
                            assert((self.msg_id as int, self.gossip_manager.sent_map(), entries)
                                == round_step(n0, cur, i as int));
                        }
                    }
                    i = i + 1;
                }
                proof {
                    assert(round_fold(
                        n0,
                        (self.msg_id as int, self.gossip_manager.sent_map(), entries),
                        n0.node_ids@.len() as int,
                    ) == (self.msg_id as int, self.gossip_manager.sent_map(), entries));
                    assert forall|id: usize| #[trigger]
                        final(self).gossip_manager.is_stale(id) <==> (
                        n0.gossip_manager.outstanding(id) && !n0.gossip_manager.is_stale(id)) by {
                        assert(self.gossip_manager.is_stale(id) == base.gossip_manager.is_stale(
                            id,
                        ));
                    }
                }
                Ok(out)
            },
            Payload::Gossip { messages } => {
                merge_into(&mut self.values, &messages);
                self.gossip_manager.verify_messages(src.as_str(), messages);
                let reply = Message {
                    src: dest,
                    dest: src,
                    body: Body {
                        msg_id: self.get_msg_id(),
                        in_reply_to: in_msg_id,
                        payload: Payload::GossipOk,
                    },
                };
                let mut out: Vec<Message<Payload>> = Vec::new();
                out.push(reply);
                Ok(out)
            },
            Payload::GossipOk => {
                let ack = Message {
                    src,
                    dest,
                    body: Body { msg_id: in_msg_id, in_reply_to, payload: Payload::GossipOk },
                };
                self.gossip_manager.handle_gossip_ok(ack);
                let out: Vec<Message<Payload>> = Vec::new();
                Ok(out)
            },
        }
    }
}

/// A fresh vector with the same names.
pub fn copy_strings(v: &Vec<String>) -> (r: Vec<String>)
    ensures
        r@ == v@,
{
    let mut r: Vec<String> = Vec::new();
    let mut i: usize = 0;
    while i < v.len()
        invariant
            0 <= i <= v@.len(),
            r@ == v@.take(i as int),
        decreases v@.len() - i,
    {
        r.push(v[i].clone());
        proof {
            assert(v@.take(i + 1 as int) =~= v@.take(i as int).push(v@[i as int]));
        }
        i = i + 1;
    }
    proof {
        assert(v@.take(v@.len() as int) =~= v@);
    }
    r
}

} // verus!
