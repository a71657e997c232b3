//! The unique-ID service: answers every request with an id no other node,
//! and no later request on this node, can produce.

use vstd::prelude::*;

use crate::message::is_reply_to;
use crate::message::Body;
use crate::message::Message;
use crate::node::FatalError;
use crate::node::Node;

verus! {

/// A cluster-unique identifier: the issuing node's name paired with a
/// counter value that node never repeats.
pub struct GeneratedId {
    pub node: String,
    pub seq: usize,
}

/// What a unique-ID node sends and receives.
pub enum Payload {
    Init { node_id: String, node_ids: Vec<String> },
    InitOk,
    Generate,
    GenerateOk { id: GeneratedId },
}

/// A node issuing cluster-unique identifiers.
pub struct GenerateNode {
    pub node_id: String,
    pub msg_id: usize,
}

impl GenerateNode {
    /// A fresh unique-ID node.
    pub fn new() -> (r: Self)
        ensures
            r.msg_id == 1,
    {
        broadcast use vstd::string::to_string_from_display_ensures_for_str;

        GenerateNode { node_id: "0".to_string(), msg_id: 1 }
    }
}

impl Node<Payload> for GenerateNode {
    /// One message id is allocated per handled envelope.
    open spec fn ready(&self, input: &Message<Payload>) -> bool {
        self.msg_id < usize::MAX
    }

    open spec fn can_allocate(&self) -> bool {
        self.msg_id < usize::MAX
    }

    fn init(&mut self)
        ensures
            *final(self) == *old(self),
    {
    }

    fn get_msg_id(&mut self) -> (r: Option<usize>)
        ensures
            final(self).msg_id == old(self).msg_id + 1,
            final(self).node_id == old(self).node_id,
            r == Some((old(self).msg_id + 1) as usize),
    {
        self.msg_id = self.msg_id + 1;
        Some(self.msg_id)
    }

    fn handle(&mut self, input_msg: Message<Payload>) -> (r: Result<
        Vec<Message<Payload>>,
        FatalError,
    >)
        ensures
            match input_msg.body.payload {
                Payload::Init { node_id, .. } => {
                    &&& final(self).node_id == node_id
                    &&& final(self).msg_id == old(self).msg_id + 1
                    &&& r matches Ok(out) && out@.len() == 1 && is_reply_to(
                        out@[0],
                        input_msg,
                        Some((old(self).msg_id + 1) as usize),
                    ) && out@[0].body.payload is InitOk
                },
                Payload::InitOk => r == Err::<Vec<Message<Payload>>, FatalError>(
                    FatalError::UnexpectedMessage,
                ) && *final(self) == *old(self),
                Payload::Generate => {
                    &&& final(self).node_id == old(self).node_id
                    &&& final(self).msg_id == old(self).msg_id + 1
                    &&& r matches Ok(out) && out@.len() == 1 && is_reply_to(
                        out@[0],
                        input_msg,
                        Some((old(self).msg_id + 1) as usize),
                    ) && (out@[0].body.payload matches Payload::GenerateOk { id } && id.node == old(
                        self,
                    ).node_id && id.seq == old(self).msg_id + 1)
                },
                Payload::GenerateOk { .. } => r matches Ok(out) && out@.len() == 0 && *final(self)
                    == *old(self),
            },
    {
        let Message { src, dest, body } = input_msg;
        let Body { msg_id: in_msg_id, in_reply_to: _, payload } = body;
        match payload {
            Payload::Init { node_id, node_ids: _ } => {
                self.node_id = node_id;
                let reply = Message {
                    src: dest,
                    dest: src,
                    body: Body {
                        msg_id: self.get_msg_id(),
                        in_reply_to: in_msg_id,
                        payload: Payload::InitOk,
                    },
                };
                let mut out: Vec<Message<Payload>> = Vec::new();
                out.push(reply);
                Ok(out)
            },
            Payload::InitOk => Err(FatalError::UnexpectedMessage),
            Payload::Generate => {
                let msg_id = self.get_msg_id();
                let id = GeneratedId { node: self.node_id.clone(), seq: self.msg_id };
                let reply = Message {
                    src: dest,
                    dest: src,
                    body: Body {
                        msg_id,
                        in_reply_to: in_msg_id,
                        payload: Payload::GenerateOk { id },
                    },
                };
                let mut out: Vec<Message<Payload>> = Vec::new();
                out.push(reply);
                Ok(out)
            },
            Payload::GenerateOk { .. } => {
                let out: Vec<Message<Payload>> = Vec::new();
                Ok(out)
            },
        }
    }
}

} // verus!
