//! A key-value store served over a line protocol: the store itself, the
//! (simulated) replication hook, the command interpreter and the client's
//! input handling.

pub mod client;
pub mod protocol;
pub mod replication;
pub mod storage;
