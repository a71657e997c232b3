//! The node interface: every service implements `Node` and is driven by a
//! loop that feeds it one envelope at a time — external requests and the
//! internally generated "gossip due" events alike — and sends every envelope
//! the handler returns.

use vstd::prelude::*;

use crate::message::Message;

verus! {

/// A protocol invariant was violated; the caller must abort the process
/// rather than continue on corrupt state.
#[derive(Debug, Clone, Copy, PartialEq, Eq, Structural)]
pub enum FatalError {
    /// A reply-only message kind arrived as a request.
    UnexpectedMessage,
    /// A topology assignment carried no entry for this node.
    MissingTopology,
}

/// A per-service state machine: it owns the local replica state and answers
/// every event with the envelopes to send. Handlers never perform I/O; the
/// caller sends what they return, in order.
pub trait Node<Payload>: Sized {
    /// The precondition under which `handle` accepts this envelope: the
    /// machine limits (message-id headroom, counter bounds) the event must
    /// respect.
    spec fn ready(&self, input: &Message<Payload>) -> bool;

    /// Whether one more message id can be allocated.
    spec fn can_allocate(&self) -> bool;

    /// A lifecycle hook the driving loop calls once before the first event.
    fn init(&mut self);

    /// Allocates the next outgoing message id.
    fn get_msg_id(&mut self) -> (r: Option<usize>)
        requires
            old(self).can_allocate(),
    ;

    /// Processes one envelope and returns the envelopes to send, or the
    /// fatal protocol violation that must abort the process.
    fn handle(&mut self, input_msg: Message<Payload>) -> (r: Result<
        Vec<Message<Payload>>,
        FatalError,
    >)
        requires
            old(self).ready(&input_msg),
    ;
}

} // verus!
