//! The records of the ranking store.

use vstd::prelude::*;

verus! {

/// A node as the ranking table holds it.
#[derive(Debug, Clone, PartialEq, Eq)]
pub struct Node {
    /// The partition key: the same for every node.
    pub pk: String,
    /// The sort key: the prefix `PUBLIC_KEY#` and the node's public key.
    pub sk: String,
    /// The rank by which the secondary index orders the nodes.
    pub lsi1: u64,
    pub channels: u64,
    pub public_key: String,
    pub alias: String,
    /// The capacity in BTC, as decimal text.
    pub capacity: String,
    /// The time the node was first seen, as ISO 8601 text, or empty.
    pub first_seen: String,
    pub updated_at: u64,
}

/// A node that is about to be written to the ranking table.
#[derive(Debug, Clone, PartialEq, Eq)]
pub struct NewNodeDTO {
    pub channels: u64,
    pub public_key: String,
    pub alias: String,
    /// The capacity in BTC, as decimal text.
    pub capacity_in_btc: String,
    /// The time the node was first seen, as ISO 8601 text, or empty.
    pub first_seen_iso: String,
    pub updated_at: u64,
}

} // verus!
