//! The client side: what a connection knows of its client, and the
//! decisions a client makes about sending, receiving and reconnecting.

pub mod base;
pub mod inner;
