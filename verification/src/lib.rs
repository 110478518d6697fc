//! A peer-to-peer node core: a length-prefixed message codec, peer identity,
//! and the behavior state that a control loop drives over a network swarm.

pub mod identity;
pub mod msg;
pub mod turtle;
