//! Moderated store of truth-or-dare prompts.
//!
//! The crate holds the rules of the service as verified state machines:
//! the pool of approved prompts, the queue of submissions awaiting a
//! moderator, the time-bounded live review, and the access predicates that
//! admit a command. Storage, transport and time are the caller's business:
//! every function here takes and returns plain values.

pub mod model;
pub mod store;
pub mod moderation;
pub mod live;
pub mod channels;
pub mod gate;
pub mod retrieval;
