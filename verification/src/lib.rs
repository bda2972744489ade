//! RexMq: a verified core for a topic-based message broker and its clients.
//!
//! The library holds the wire protocol (commands, return codes, the framed
//! message codec and the packed `RexData` layout), the cluster routing state
//! (consistent hash ring, route table, failure detection) and the broker's
//! configuration model with its validation rules.

pub mod bridge;
pub mod cli;
pub mod client;
pub mod cluster;
pub mod config;
pub mod net;
pub mod protocol;
pub mod text;
pub mod utils;
