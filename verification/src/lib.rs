//! Named-group message routing for an actor runtime.
//!
//! Actors find each other by a logical name instead of a direct reference.
//! A [`System`](distributor::System) owns the name interner, the subscriber
//! registry and the group dispatcher; a [`Distributor`](distributor::Distributor)
//! is a small copyable handle to one named group. The library decides which
//! endpoints a message goes to and how a reply, a timeout or a failure is
//! folded into one result; handing a message to a mailbox and waiting is left
//! to the runtime that drives it.
pub mod error;
pub mod envelope;
pub mod interner;
pub mod registry;
pub mod dispatcher;
pub mod request;
pub mod distributor;
