//! Decision core of a gateway shard runner.
//!
//! A shard runner supervises one persistent connection to a realtime event
//! service. It drains a queue of control messages, enforces the heartbeat,
//! takes decoded frames, decides whether the connection must resume or be
//! restarted, and fans events out to collector filters and handlers.
//!
//! The connection itself, the handlers and the collectors are driven by the
//! embedding application. The runner is a deterministic machine: it is told
//! what happened ([`protocol::Reply`]), and answers with what has to be done
//! next ([`protocol::Step`]). Every transition is specified by the pure model
//! in [`machine`], and the properties of whole sessions are proved in
//! [`laws`].

pub mod channel;
pub mod filters;
pub mod laws;
pub mod machine;
pub mod model;
pub mod protocol;
pub mod runner;
