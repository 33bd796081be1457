//! The replication hook of the store.

use vstd::prelude::*;

use super::storage::Storage;

verus! {

/// The record that a replication step leaves in the log.
pub open spec fn replication_note() -> Seq<char> {
    "Replicating data to other nodes"@
}

/// Replication to other nodes; there are no other nodes yet, so it holds
/// no state and sending updates does nothing.
pub struct Replication {}

impl Replication {
    /// A replication hook with no peers.
    pub fn new() -> (r: Self)
        ensures
            r == (Replication {}),
    {
        Replication {}
    }

    /// Sends the current contents of `storage` to the other nodes.  With
    /// no peers nothing is sent; the step is only recorded, and the record
    /// to log is returned.
    pub fn replicate(&self, storage: &Storage) -> (note: String)
        ensures
            note@ == replication_note(),
    {
        String::from_str("Replicating data to other nodes")
    }
}

} // verus!
