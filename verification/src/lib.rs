//! A minimal in-memory blockchain node library: hash-linked blocks, chain
//! validation, a length-based fork-choice rule for reconciling foreign
//! chains, and a monotone peer registry for gossip.

pub mod block;
pub mod miner;
pub mod peer;
