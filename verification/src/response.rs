//! The responses that the shell gives to the consensus engine.

use vstd::prelude::*;
use vstd::string::*;

verus! {

/// The status code of a request that succeeded.
pub const CODE_OK: u32 = 0;

/// The status code of a request that failed.
pub const CODE_ERR: u32 = 1;

/// The response to `init_chain`. It carries nothing: the chain keeps the
/// consensus parameters and the validators that the engine proposed.
#[derive(Clone, Copy, Debug, PartialEq, Eq, Structural)]
pub struct InitChain {}

/// The response to `end_block`. It carries nothing: the block changes
/// neither the validators nor the consensus parameters.
#[derive(Clone, Copy, Debug, PartialEq, Eq, Structural)]
pub struct EndBlock {}

/// The response to `info`: the last committed state.
#[derive(Debug)]
pub enum Info {
    /// No block was committed yet.
    Uninitialized,
    /// The root digest and the height of the last committed block.
    Committed { last_block_app_hash: Vec<u8>, last_block_height: u64 },
}

/// The response to a query.
#[derive(Debug)]
pub struct Query {
    /// Zero where the query succeeded.
    pub code: u32,
    /// The failure, where the query failed.
    pub log: String,
    /// What the query found.
    pub info: String,
}

impl Default for Query {
    fn default() -> (response: Self)
        ensures
            response.code == CODE_OK,
            response.log@ == Seq::<char>::empty(),
            response.info@ == Seq::<char>::empty(),
    {
        Query { code: CODE_OK, log: String::new(), info: String::new() }
    }
}

/// The response to `apply_tx`.
#[derive(Debug)]
pub struct DeliverTx {
    /// Zero where the transaction was accepted.
    pub code: u32,
    /// The gas that the response reports.
    pub gas_used: i64,
    /// The diagnostics.
    pub info: String,
}

/// The response to `commit`.
#[derive(Debug)]
pub struct Commit {
    /// The root digest of the committed state.
    pub data: Vec<u8>,
}

/// The response to `mempool_validate`.
#[derive(Debug)]
pub struct CheckTx {
    /// Zero where the transaction may enter the mempool.
    pub code: u32,
    /// The failure, where the transaction may not.
    pub log: String,
    /// A note on success.
    pub info: String,
}

} // verus!
