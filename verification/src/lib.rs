//! Gossip-replicated nodes: message envelopes, a gossip manager that tracks
//! per-peer acknowledgment state, and the node state machines that answer
//! client requests while replicating their state by anti-entropy.
//!
//! Every node consumes one envelope at a time — external requests and the
//! periodic "gossip due" event alike — and returns the envelopes to send, so
//! the whole protocol logic is a function from state and event to state and
//! output, stated in each handler's contract.
//!
//! - [`message`]: the envelope and body types and what a reply looks like.
//! - [`node`]: the `Node` interface every service implements.
//! - [`gossip`]: the outstanding-gossip table, stale-gossip pruning, and
//!   acknowledgment bookkeeping.
//! - [`elements`] and [`counts`]: the set-union and counter merge policies,
//!   with their idempotence, commutativity, and convergence laws.
//! - [`echo`], [`generate`], [`broadcast`], [`gset`], [`counter`],
//!   [`kafka`]: the services themselves.

pub mod broadcast;
pub mod counter;
pub mod counts;
pub mod echo;
pub mod elements;
pub mod generate;
pub mod gossip;
pub mod gset;
pub mod kafka;
pub mod message;
pub mod node;

pub use message::Body;
pub use message::Message;
