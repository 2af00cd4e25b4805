//! A peer-to-peer blockchain node core: the wire codec, the peer registry,
//! the block-sync tracker, the mempool, the protocol handlers, the mining
//! orchestration steps and the remote-signing reply logic.
//!
//! The node's decisions are verified here; the surrounding process (TCP
//! listener, collaborator calls such as transaction verification, proof of
//! work and signing) performs the actions these functions return and hands
//! their outcomes back in.

pub mod codec;
pub mod handlers;
pub mod messages;
pub mod server;
pub mod types;
