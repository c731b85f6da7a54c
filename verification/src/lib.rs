//! Decision logic of a worker that drains a message queue: the poll cycle,
//! the event loop with its backoff policy, and the start-up choices around
//! them. Every function is a total function on plain values; the caller
//! performs the requests and reports back what happened.

pub mod message;
pub mod poll;
pub mod event_loop;
pub mod worker;
pub mod trace;
pub mod settings;
pub mod credentials;
pub mod version;
