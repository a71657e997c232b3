//! The counter service: a PN-counter replicated by gossip.
//!
//! Each node tracks one increment total and one decrement total per actor;
//! a write adds to this node's own totals, a read returns the increments'
//! sum minus the decrements' sum, and each gossip tick sends the full
//! per-actor vectors to every peer. Merging takes the pairwise maximum per
//! actor, so duplicated or reordered gossip cannot change the outcome.

use vstd::prelude::*;

use crate::counts::copy_counts;
use crate::counts::bump;
use crate::counts::distinct_actors;
use crate::counts::lemma_total_nonneg;
use crate::counts::lookup;
use crate::counts::merge_max;
use crate::counts::nonneg;
use crate::counts::sum_values;
use crate::counts::total;
use crate::message::is_reply_to;
use crate::message::Body;
use crate::message::Message;
use crate::node::FatalError;
use crate::node::Node;

verus! {

/// What a counter node sends and receives.
pub enum Payload {
    Init { node_id: String, node_ids: Vec<String> },
    InitOk,
    Add { delta: i64 },
    AddOk,
    Read,
    ReadOk { value: i64 },
    GossipSend,
    Gossip { inc_messages: Vec<(String, i64)>, dec_messages: Vec<(String, i64)> },
    GossipOk,
}

/// A node replicating a PN-counter: per-actor increment and decrement
/// totals, merged by pairwise maximum.
pub struct Counter {
    pub msg_id: usize,
    pub node_id: String,
    pub node_ids: Vec<String>,
    pub inc_values: Vec<(String, i64)>,
    pub dec_values: Vec<(String, i64)>,
}

impl Counter {
    /// Both vectors carry distinct actors and non-negative totals.
    pub open spec fn inv(self) -> bool {
        &&& distinct_actors(self.inc_values@)
        &&& nonneg(self.inc_values@)
        &&& distinct_actors(self.dec_values@)
        &&& nonneg(self.dec_values@)
    }

    /// A fresh counter node: no totals recorded.
    pub fn new() -> (r: Self)
        ensures
            r.inv(),
            r.msg_id == 0,
            r.node_ids@ == Seq::<String>::empty(),
            r.inc_values@ == Seq::<(String, i64)>::empty(),
            r.dec_values@ == Seq::<(String, i64)>::empty(),
    {
        broadcast use vstd::string::to_string_from_display_ensures_for_str;

        Counter {
            msg_id: 0,
            node_id: "0".to_string(),
            node_ids: Vec::new(),
            inc_values: Vec::new(),
            dec_values: Vec::new(),
        }
    }
}

impl Node<Payload> for Counter {
    /// The node is well formed, one round of message ids fits the counter,
    /// and the event respects the replica's arithmetic bounds: a write keeps
    /// this node's total within `i64`, a read's sums fit, and gossip carries
    /// well-formed non-negative per-actor vectors.
    open spec fn ready(&self, input: &Message<Payload>) -> bool {
        &&& self.inv()
        &&& self.msg_id + self.node_ids@.len() + 1 <= usize::MAX
        &&& match input.body.payload {
            Payload::Add { delta } => {
                &&& delta > i64::MIN
                &&& delta >= 0 ==> lookup(self.inc_values@, self.node_id@) + delta <= i64::MAX
                &&& delta < 0 ==> lookup(self.dec_values@, self.node_id@) - delta <= i64::MAX
            },
            Payload::Read => {
                &&& total(self.inc_values@) <= i64::MAX
                &&& total(self.dec_values@) <= i64::MAX
            },
            Payload::Gossip { inc_messages, dec_messages } => {
                &&& distinct_actors(inc_messages@)
                &&& nonneg(inc_messages@)
                &&& distinct_actors(dec_messages@)
                &&& nonneg(dec_messages@)
            },
            _ => true,
        }
    }

    open spec fn can_allocate(&self) -> bool {
        self.msg_id < usize::MAX
    }

    fn init(&mut self)
        ensures
            *final(self) == *old(self),
    {
    }

    fn get_msg_id(&mut self) -> (r: Option<usize>)
        ensures
            final(self).msg_id == old(self).msg_id + 1,
            r == Some((old(self).msg_id + 1) as usize),
            final(self).node_id == old(self).node_id,
            final(self).node_ids == old(self).node_ids,
            final(self).inc_values == old(self).inc_values,
            final(self).dec_values == old(self).dec_values,
    {
        self.msg_id = self.msg_id + 1;
        Some(self.msg_id)
    }

    fn handle(&mut self, input_msg: Message<Payload>) -> (r: Result<
        Vec<Message<Payload>>,
        FatalError,
    >)
        ensures
            final(self).inv(),
            match input_msg.body.payload {
                Payload::Init { node_id, node_ids } => {
                    &&& final(self).node_id == node_id
                    &&& final(self).node_ids == node_ids
                    &&& final(self).msg_id == old(self).msg_id + 1
                    &&& final(self).inc_values == old(self).inc_values
                    &&& final(self).dec_values == old(self).dec_values
                    &&& r matches Ok(out) && out@.len() == 1 && is_reply_to(
                        out@[0],
                        input_msg,
                        Some((old(self).msg_id + 1) as usize),
                    ) && out@[0].body.payload is InitOk
                },
                Payload::InitOk => r == Err::<Vec<Message<Payload>>, FatalError>(
                    FatalError::UnexpectedMessage,
                ) && *final(self) == *old(self),
                Payload::Add { delta } => {
                    &&& (delta >= 0 ==> {
                        &&& forall|k: Seq<char>|
                            #[trigger] lookup(final(self).inc_values@, k) == (if k == old(
                                self,
                            ).node_id@ {
                                lookup(old(self).inc_values@, k) + delta
                            } else {
                                lookup(old(self).inc_values@, k)
                            })
                        &&& final(self).dec_values == old(self).dec_values
                    })
                    &&& (delta < 0 ==> {
                        &&& forall|k: Seq<char>|
                            #[trigger] lookup(final(self).dec_values@, k) == (if k == old(
                                self,
                            ).node_id@ {
                                lookup(old(self).dec_values@, k) - delta
                            } else {
                                lookup(old(self).dec_values@, k)
                            })
                        &&& final(self).inc_values == old(self).inc_values
                    })
                    &&& final(self).msg_id == old(self).msg_id + 1
                    &&& final(self).node_id == old(self).node_id
                    &&& final(self).node_ids == old(self).node_ids
                    &&& r matches Ok(out) && out@.len() == 1 && is_reply_to(
                        out@[0],
                        input_msg,
                        Some((old(self).msg_id + 1) as usize),
                    ) && out@[0].body.payload is AddOk
                },
                Payload::AddOk => r == Err::<Vec<Message<Payload>>, FatalError>(
                    FatalError::UnexpectedMessage,
                ) && *final(self) == *old(self),
                Payload::Read => {
                    &&& final(self).inc_values == old(self).inc_values
                    &&& final(self).dec_values == old(self).dec_values
                    &&& final(self).msg_id == old(self).msg_id + 1
                    &&& final(self).node_id == old(self).node_id
                    &&& final(self).node_ids == old(self).node_ids
                    &&& r matches Ok(out) && out@.len() == 1 && is_reply_to(
                        out@[0],
                        input_msg,
                        Some((old(self).msg_id + 1) as usize),
                    ) && (out@[0].body.payload matches Payload::ReadOk { value } && value as int
                        == total(old(self).inc_values@) - total(old(self).dec_values@))
                },
                Payload::ReadOk { .. } => r == Err::<Vec<Message<Payload>>, FatalError>(
                    FatalError::UnexpectedMessage,
                ) && *final(self) == *old(self),
                Payload::GossipSend => {
                    &&& final(self).msg_id == old(self).msg_id + old(self).node_ids@.len()
                    &&& final(self).inc_values == old(self).inc_values
                    &&& final(self).dec_values == old(self).dec_values
                    &&& final(self).node_id == old(self).node_id
                    &&& final(self).node_ids == old(self).node_ids
                    &&& r matches Ok(out) && out@.len() == old(self).node_ids@.len() && (forall|
                        k: int,
                    |
                        0 <= k < out@.len() ==> {
                            &&& (#[trigger] out@[k]).src == old(self).node_id
                            &&& out@[k].dest == old(self).node_ids@[k]
                            &&& out@[k].body.msg_id == Some((old(self).msg_id + k + 1) as usize)
                            &&& out@[k].body.in_reply_to is None
                            &&& out@[k].body.payload matches Payload::Gossip {
                                inc_messages,
                                dec_messages,
                            } && inc_messages@ == old(self).inc_values@ && dec_messages@ == old(
                                self,
                            ).dec_values@
                        })
                },
                Payload::Gossip { inc_messages, dec_messages } => {
                    &&& forall|k: Seq<char>|
                        #[trigger] lookup(final(self).inc_values@, k) == vstd::math::max(
                            lookup(old(self).inc_values@, k),
                            lookup(inc_messages@, k),
                        )
                    &&& forall|k: Seq<char>|
                        #[trigger] lookup(final(self).dec_values@, k) == vstd::math::max(
                            lookup(old(self).dec_values@, k),
                            lookup(dec_messages@, k),
                        )
                    &&& final(self).msg_id == old(self).msg_id + 1
                    &&& final(self).node_id == old(self).node_id
                    &&& final(self).node_ids == old(self).node_ids
                    &&& r matches Ok(out) && out@.len() == 1 && is_reply_to(
                        out@[0],
                        input_msg,
                        Some((old(self).msg_id + 1) as usize),
                    ) && out@[0].body.payload is GossipOk
                },
                Payload::GossipOk => r matches Ok(out) && out@.len() == 0 && *final(self) == *old(
                    self,
                ),
            },
    {
        let Message { src, dest, body } = input_msg;
        let Body { msg_id: in_msg_id, in_reply_to: _, payload } = body;
        match payload {
            Payload::Init { node_id, node_ids } => {
                self.node_id = node_id;
                self.node_ids = node_ids;
                let reply = Message {
                    src: dest,
                    dest: src,
                    body: Body {
                        msg_id: self.get_msg_id(),
                        in_reply_to: in_msg_id,
                        payload: Payload::InitOk,
                    },
                };
                let mut out: Vec<Message<Payload>> = Vec::new();
                out.push(reply);
                Ok(out)
            },
            Payload::InitOk => Err(FatalError::UnexpectedMessage),
            Payload::Add { delta } => {
                if delta >= 0 {
                    let node = self.node_id.clone();
                    bump(&mut self.inc_values, &node, delta);
                } else {
                    let node = self.node_id.clone();
                    bump(&mut self.dec_values, &node, -delta);
                }
                let reply = Message {
                    src: dest,
                    dest: src,
                    body: Body {
                        msg_id: self.get_msg_id(),
                        in_reply_to: in_msg_id,
                        payload: Payload::AddOk,
                    },
                };
                let mut out: Vec<Message<Payload>> = Vec::new();
                out.push(reply);
                Ok(out)
            },
            Payload::AddOk => Err(FatalError::UnexpectedMessage),
            Payload::Read => {
                let inc_value = sum_values(&self.inc_values);
                let dec_value = sum_values(&self.dec_values);
                proof {
                    lemma_total_nonneg(self.inc_values@);
                    lemma_total_nonneg(self.dec_values@);
                }
                let reply = Message {
                    src: dest,
                    dest: src,
                    body: Body {
                        msg_id: self.get_msg_id(),
                        in_reply_to: in_msg_id,
                        payload: Payload::ReadOk { value: inc_value - dec_value },
                    },
                };
                let mut out: Vec<Message<Payload>> = Vec::new();
                out.push(reply);
                Ok(out)
            },
            Payload::ReadOk { .. } => Err(FatalError::UnexpectedMessage),
            Payload::GossipSend => {
                let ghost n0 = *old(self);
                let mut out: Vec<Message<Payload>> = Vec::new();
                let mut i: usize = 0;
                while i < self.node_ids.len()
                    invariant
                        0 <= i <= self.node_ids@.len(),
                        self.node_ids == n0.node_ids,
                        self.node_id == n0.node_id,
                        self.inc_values == n0.inc_values,
                        self.dec_values == n0.dec_values,
                        self.msg_id as int == n0.msg_id + i,
                        n0.msg_id + n0.node_ids@.len() + 1 <= usize::MAX,
                        out@.len() == i,
                        forall|k: int|
                            0 <= k < i ==> {
                                &&& (#[trigger] out@[k]).src == n0.node_id
                                &&& out@[k].dest == n0.node_ids@[k]
                                &&& out@[k].body.msg_id == Some((n0.msg_id + k + 1) as usize)
                                &&& out@[k].body.in_reply_to is None
                                &&& out@[k].body.payload matches Payload::Gossip {
                                    inc_messages,
                                    dec_messages,
                                } && inc_messages@ == n0.inc_values@ && dec_messages@
                                    == n0.dec_values@
                            },
                    decreases self.node_ids@.len() - i,
                {
                    let mid = match self.get_msg_id() {
                        Some(m) => m,
                        None => 0,
                    };
                    let inc_messages = copy_counts(&self.inc_values);
                    let dec_messages = copy_counts(&self.dec_values);
                    let gossip = Message {
                        src: self.node_id.clone(),
                        dest: self.node_ids[i].clone(),
                        body: Body {
                            msg_id: Some(mid),
                            in_reply_to: None,
                            payload: Payload::Gossip { inc_messages, dec_messages },
                        },
                    };
                    out.push(gossip);
                    i = i + 1;
                }
                Ok(out)
            },
            Payload::Gossip { inc_messages, dec_messages } => {
                merge_max(&mut self.inc_values, &inc_messages);
                merge_max(&mut self.dec_values, &dec_messages);
                let reply = Message {
                    src: dest,
                    dest: src,
                    body: Body {
                        msg_id: self.get_msg_id(),
                        in_reply_to: in_msg_id,
                        payload: Payload::GossipOk,
                    },
                };
                let mut out: Vec<Message<Payload>> = Vec::new();
                out.push(reply);
                Ok(out)
            },
            Payload::GossipOk => {
                let out: Vec<Message<Payload>> = Vec::new();
                Ok(out)
            },
        }
    }
}

} // verus!
