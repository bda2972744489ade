//! Cluster membership and routing.

pub mod failover;
pub mod forward;
pub mod gossip;
pub mod hash_ring;
pub mod manager;
pub mod node;
pub mod ring_history;
pub mod ring_moves;
pub mod ring_walk;
pub mod route_table;
pub mod sync;
pub mod transport;
pub mod types;
