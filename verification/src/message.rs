//! Message envelopes: the unit exchanged between nodes and clients.
//!
//! An envelope names its source and destination node and carries a body with
//! an optional correlation id (`msg_id`, present on requests that expect an
//! acknowledgment), an optional `in_reply_to` (present on replies, equal to
//! the request's `msg_id`), and a service-specific payload.

use vstd::prelude::*;

verus! {

/// One envelope on the wire: who sent it, who receives it, and its body.
pub struct Message<P> {
    pub src: String,
    pub dest: String,
    pub body: Body<P>,
}

/// The body of an envelope: correlation ids and the payload.
pub struct Body<P> {
    pub msg_id: Option<usize>,
    pub in_reply_to: Option<usize>,
    pub payload: P,
}

impl<P> Message<P> {
    /// Builds the reply to this envelope: endpoints swapped, `in_reply_to`
    /// set to this envelope's `msg_id`, and the given id and payload.
    pub fn into_reply(self, msg_id: Option<usize>, payload: P) -> (r: Self)
        ensures
            r.src == self.dest,
            r.dest == self.src,
            r.body.msg_id == msg_id,
            r.body.in_reply_to == self.body.msg_id,
            r.body.payload == payload,
    {
        Message {
            src: self.dest,
            dest: self.src,
            body: Body { msg_id, in_reply_to: self.body.msg_id, payload },
        }
    }
}

/// Whether `reply` answers `request`: endpoints swapped, `in_reply_to` equal
/// to the request's `msg_id`, and the given own id.
pub open spec fn is_reply_to<P>(
    reply: Message<P>,
    request: Message<P>,
    msg_id: Option<usize>,
) -> bool {
    &&& reply.src == request.dest
    &&& reply.dest == request.src
    &&& reply.body.msg_id == msg_id
    &&& reply.body.in_reply_to == request.body.msg_id
}

} // verus!
