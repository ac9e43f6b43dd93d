//! Request-dispatch core of a small HTTP application framework.
//!
//! A request runs through an ordered chain of middleware and is then handed
//! to the first controller bound to its path. Workers own one pipeline each
//! and talk to the network side over a two-party channel.

pub mod fields;
pub mod message;
pub mod pipeline;
pub mod laws;
pub mod channel;
pub mod text;
pub mod example;
pub mod factory;
pub mod worker;
pub mod inbound;
