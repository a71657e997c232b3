//! The echo service: answers every echo request with the same text.

use vstd::prelude::*;

use crate::message::is_reply_to;
use crate::message::Body;
use crate::message::Message;
use crate::node::FatalError;
use crate::node::Node;

verus! {

/// What an echo node sends and receives.
pub enum Payload {
    Init { node_id: String, node_ids: Vec<String> },
    InitOk,
    Echo { echo: String },
    EchoOk { echo: String },
}

/// A node that echoes request payloads back to their sender.
pub struct EchoNode {
    pub node_id: String,
    pub msg_id: usize,
}

impl EchoNode {
    /// A fresh echo node, before its identity arrives.
    pub fn new() -> (r: Self)
        ensures
            r.msg_id == 1,
    {
        broadcast use vstd::string::to_string_from_display_ensures_for_str;

        EchoNode { node_id: "0".to_string(), msg_id: 1 }
    }
}

impl Node<Payload> for EchoNode {
    /// One message id is allocated per handled envelope.
    open spec fn ready(&self, input: &Message<Payload>) -> bool {
        self.msg_id < usize::MAX
    }

    open spec fn can_allocate(&self) -> bool {
        self.msg_id < usize::MAX
    }

    fn init(&mut self)
        ensures
            *final(self) == *old(self),
    {
    }

    fn get_msg_id(&mut self) -> (r: Option<usize>)
        ensures
            final(self).msg_id == old(self).msg_id + 1,
            final(self).node_id == old(self).node_id,
            r == Some((old(self).msg_id + 1) as usize),
    {
        self.msg_id = self.msg_id + 1;
        Some(self.msg_id)
    }

    fn handle(&mut self, input_msg: Message<Payload>) -> (r: Result<
        Vec<Message<Payload>>,
        FatalError,
    >)
        ensures
            match input_msg.body.payload {
                Payload::Init { node_id, .. } => {
                    &&& final(self).node_id == node_id
                    &&& final(self).msg_id == old(self).msg_id + 1
                    &&& r matches Ok(out) && out@.len() == 1
                    &&& r matches Ok(out) && is_reply_to(
                        out@[0],
                        input_msg,
                        Some((old(self).msg_id + 1) as usize),
                    ) && out@[0].body.payload is InitOk
                },
                Payload::InitOk => r == Err::<Vec<Message<Payload>>, FatalError>(
                    FatalError::UnexpectedMessage,
                ) && *final(self) == *old(self),
                Payload::Echo { echo } => {
                    &&& final(self).node_id == old(self).node_id
                    &&& final(self).msg_id == old(self).msg_id + 1
                    &&& r matches Ok(out) && out@.len() == 1
                    &&& r matches Ok(out) && is_reply_to(
                        out@[0],
                        input_msg,
                        Some((old(self).msg_id + 1) as usize),
                    ) && (out@[0].body.payload matches Payload::EchoOk { echo: e } && e == echo)
                },
                Payload::EchoOk { .. } => r matches Ok(out) && out@.len() == 0 && *final(self)
                    == *old(self),
            },
    {
        let Message { src, dest, body } = input_msg;
        let Body { msg_id: in_msg_id, in_reply_to: _, payload } = body;
        match payload {
            Payload::Init { node_id, node_ids: _ } => {
                self.node_id = node_id;
                let reply = Message {
                    src: dest,
                    dest: src,
                    body: Body {
                        msg_id: self.get_msg_id(),
                        in_reply_to: in_msg_id,
                        payload: Payload::InitOk,
                    },
                };
                let mut out: Vec<Message<Payload>> = Vec::new();
                out.push(reply);
                Ok(out)
            },
            Payload::InitOk => Err(FatalError::UnexpectedMessage),
            Payload::Echo { echo } => {
                let reply = Message {
                    src: dest,
                    dest: src,
                    body: Body {
                        msg_id: self.get_msg_id(),
                        in_reply_to: in_msg_id,
                        payload: Payload::EchoOk { echo },
                    },
                };
                let mut out: Vec<Message<Payload>> = Vec::new();
                out.push(reply);
                Ok(out)
            },
            Payload::EchoOk { .. } => {
                let out: Vec<Message<Payload>> = Vec::new();
                Ok(out)
            },
        }
    }
}

} // verus!
