//! The requests of the consensus engine that carry more than one value.

use vstd::prelude::*;
use crate::time::DateTimeUtc;

verus! {

/// The request to set up the chain.
#[derive(Debug)]
pub struct InitChain {
    /// The chain that the consensus engine runs.
    pub chain_id: String,
    /// The time of the genesis.
    pub time: DateTimeUtc,
    /// The height of the first block.
    pub initial_height: u64,
}

/// A query, outside the block cycle.
#[derive(Debug)]
pub struct Query {
    /// The path that names the handler.
    pub path: String,
    /// The data for the handler.
    pub data: Vec<u8>,
}

} // verus!
