//! Core of a peer-to-peer mesh node: gossip and a Kademlia-style hash table,
//! a ledger-backed account store with escrow, and a task marketplace driven
//! by a first-price auction.
//!
//! The node is a set of state machines over plain values. Sockets, timers,
//! the key-value engine on disk and the admin interface live with the
//! caller, which feeds events in and carries the returned actions out.
//! Wherever a function reads the clock or draws at random, a sibling takes
//! the moment or the draw as an argument and says exactly what it does.

pub mod capsule;
pub mod codec;
pub mod config;
pub mod dispatch;
pub mod error;
pub mod json;
pub mod ledger;
pub mod market;
pub mod memory_query;
pub mod order;
pub mod p2p;
pub mod reach;
pub mod records;
pub mod store;
pub mod supply;
pub mod table;
pub mod task;
pub mod task_bazaar;
pub mod task_worker;
pub mod text;
pub mod util;
pub mod wire;
