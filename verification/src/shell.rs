//! The shell: the state machine that the consensus engine drives.
//!
//! The engine calls `init_chain` once, then for each block `begin_block`,
//! `apply_tx` for each transaction, `end_block` and `commit`. Between the
//! blocks' calls it may call `last_state`, `query`, `mempool_validate` and
//! `dry_run_tx`, none of which changes the shell.
//!
//! The shell does not run transactions. The caller decodes a transaction
//! with `Tx::try_from`, runs it and its validity predicates over the `TxEnv`
//! that `begin_tx` gives, and hands the outcome to `apply_tx`, which charges
//! the gas and either merges the transaction's changes into the block's or
//! drops them.

use vstd::prelude::*;
use vstd::string::*;
use crate::digest::{DIGEST_LEN, state_digest};
use crate::error::{Error, chain_id_mismatch, chain_id_mismatch_text};
use crate::gas::{BLOCK_GAS_LIMIT, BlockGasMeter, as_i64, charged};
use crate::genesis::Genesis;
use crate::key::Key;
use crate::keymap::entry_views;
use crate::protocol::{TxEnv, TxOutcome};
use crate::tx::{Tx, parse_tx};
use crate::request;
use crate::response;
use crate::response::{CODE_ERR, CODE_OK};
use crate::byte_vec::copy_bytes;
use crate::storage::{LastState, Storage, StorageError, StorageState};
use crate::time::DateTimeUtc;
use crate::write_log::{StorageModification, WriteLog, WriteLogState, flush};

verus! {

/// How a transaction came to the mempool.
#[derive(Clone, Copy, Debug, PartialEq, Eq, Structural)]
pub enum MempoolTxType {
    /// A transaction that has not been validated by this node before.
    NewTransaction,
    /// A transaction that has been validated at some previous level and may
    /// need to be validated again.
    RecheckTransaction,
}

/// What the caller has to do for a query.
#[derive(Debug)]
pub enum QueryAction {
    /// Run the query's data as a transaction, without applying it, and hand
    /// the outcome to `Shell::dry_run_tx`.
    DryRunTx,
    /// Answer with this response.
    Respond(response::Query),
}

/// The cause that is reported for a transaction that takes the block over its
/// gas limit.
pub open spec fn gas_exceeded_cause() -> Seq<char> {
    "Block gas limit exceeded"@
}

/// The note that is reported for a transaction that may enter the mempool.
pub open spec fn mempool_passed_note() -> Seq<char> {
    "Mempool validation passed"@
}

/// The path of the query that runs a transaction without applying it.
pub open spec fn dry_run_path() -> Seq<char> {
    "dry_run_tx"@
}

/// What a `Shell` holds.
pub struct ShellState {
    /// The committed state.
    pub storage: StorageState,
    /// The gas that the block in progress has used.
    pub gas: int,
    /// The changes of the block in progress.
    pub write_log: WriteLogState,
}

impl ShellState {
    /// The value that a transaction reads under `key`: that of the write log,
    /// or else that of storage.
    pub open spec fn read(self, key: Seq<char>) -> Option<Seq<u8>> {
        self.write_log.read(self.storage.entries, key)
    }

    /// The state after `init_chain` succeeded: the writes of the genesis are
    /// in storage and the genesis epoch is set up.
    pub open spec fn init_chain(self, init: request::InitChain, genesis: Genesis) -> ShellState {
        ShellState {
            storage: self.storage.write_all(genesis.writes()).init_genesis_epoch(
                init.initial_height,
                init.time,
                genesis.parameters.epoch_duration,
            ),
            ..self
        }
    }

    /// The state after a block began: no gas is used, the block cursor is at
    /// the new block and the epoch is brought up to it.
    pub open spec fn begin_block(self, hash: Seq<u8>, height: u64, time: DateTimeUtc) -> ShellState {
        ShellState {
            storage: self.storage.begin_block(hash, height).update_epoch(height, time),
            gas: 0,
            ..self
        }
    }

    /// Whether the block has gas left for the outcome `outcome`.
    pub open spec fn affords(self, outcome: TxOutcome) -> bool {
        outcome matches TxOutcome::Applied { result, .. } && self.gas + result.gas_used
            <= BLOCK_GAS_LIMIT
    }

    /// Whether the changes of `outcome` join the block: the transaction ran,
    /// the block has gas left for it, and no validity predicate rejected it.
    pub open spec fn accepts(self, outcome: TxOutcome) -> bool {
        self.affords(outcome) && outcome->Applied_result.spec_is_accepted()
    }

    /// The state after the outcome `outcome` of a transaction was applied.
    ///
    /// A transaction that ran is charged its gas, up to the limit of the
    /// block. Its changes join those of the block where it is accepted, and
    /// are dropped where it is not.
    pub open spec fn apply_tx(self, outcome: TxOutcome) -> ShellState {
        match outcome {
            TxOutcome::Applied { changes, result } => ShellState {
                gas: charged(self.gas, result.gas_used as int),
                write_log: if self.accepts(outcome) {
                    self.write_log.apply(entry_views(changes@)).commit_tx()
                } else {
                    self.write_log.apply(entry_views(changes@)).drop_tx()
                },
                ..self
            },
            TxOutcome::Failed { .. } => self,
        }
    }

    /// The status code that is reported for `outcome`.
    pub open spec fn deliver_code(self, outcome: TxOutcome) -> u32 {
        if self.accepts(outcome) {
            CODE_OK
        } else {
            CODE_ERR
        }
    }

    /// The gas that is reported for `outcome`: what the transaction was
    /// charged or, where it did not run, what the block has used so far.
    pub open spec fn deliver_gas(self, outcome: TxOutcome) -> int {
        match outcome {
            TxOutcome::Applied { result, .. } => charged(self.gas, result.gas_used as int)
                - self.gas,
            TxOutcome::Failed { .. } => self.gas,
        }
    }

    /// The diagnostics that are reported for `outcome`.
    pub open spec fn deliver_info(self, outcome: TxOutcome) -> Seq<char> {
        match outcome {
            TxOutcome::Applied { result, .. } => if self.affords(outcome) {
                result.text()
            } else {
                "Error trying to apply a transaction: "@ + gas_exceeded_cause()
            },
            TxOutcome::Failed { error } => "Error trying to apply a transaction: "@ + error@,
        }
    }

    /// The state after the outcomes `outcomes` were applied in their order.
    pub open spec fn apply_all(self, outcomes: Seq<TxOutcome>) -> ShellState
        decreases outcomes.len(),
    {
        if outcomes.len() == 0 {
            self
        } else {
            self.apply_all(outcomes.drop_last()).apply_tx(outcomes.last())
        }
    }

    /// The root digest that a commit returns: that of the entries with the
    /// changes of the block made to them.
    pub open spec fn commit_root(self) -> Seq<u8> {
        state_digest(flush(self.storage.entries, self.write_log.block))
    }

    /// The state after a commit: the changes of the block are in storage and
    /// gone from the write log, and the block is the last committed one.
    pub open spec fn commit(self) -> ShellState {
        ShellState {
            storage: self.storage.with_entries(
                flush(self.storage.entries, self.write_log.block),
            ).commit(),
            write_log: self.write_log.commit_block(),
            ..self
        }
    }

    /// The status code that a dry run reports for `outcome`. A dry run has
    /// the gas of a whole block to itself.
    pub open spec fn dry_run_code(outcome: TxOutcome) -> u32 {
        match outcome {
            TxOutcome::Applied { result, .. } => if result.gas_used <= BLOCK_GAS_LIMIT {
                CODE_OK
            } else {
                CODE_ERR
            },
            TxOutcome::Failed { .. } => CODE_ERR,
        }
    }

    /// What a dry run found for `outcome`: the verdict and the gas, where the
    /// transaction ran within the gas of a block.
    pub open spec fn dry_run_info(outcome: TxOutcome) -> Seq<char> {
        match outcome {
            TxOutcome::Applied { result, .. } => if result.gas_used <= BLOCK_GAS_LIMIT {
                result.text()
            } else {
                Seq::empty()
            },
            TxOutcome::Failed { .. } => Seq::empty(),
        }
    }

    /// The failure that a dry run reports for `outcome`.
    pub open spec fn dry_run_log(outcome: TxOutcome) -> Seq<char> {
        match outcome {
            TxOutcome::Applied { result, .. } => if result.gas_used <= BLOCK_GAS_LIMIT {
                Seq::empty()
            } else {
                "Error trying to apply a transaction: "@ + gas_exceeded_cause()
            },
            TxOutcome::Failed { error } => "Error trying to apply a transaction: "@ + error@,
        }
    }
}

/// The shell of a ledger node. It owns the storage, the gas meter of the
/// block in progress and the write log.
#[derive(Debug)]
pub struct Shell {
    storage: Storage,
    gas_meter: BlockGasMeter,
    write_log: WriteLog,
}

impl View for Shell {
    type V = ShellState;

    closed spec fn view(&self) -> ShellState {
        ShellState { storage: self.storage@, gas: self.gas_meter@, write_log: self.write_log@ }
    }
}

impl Shell {
    /// The invariant of the type: its parts are well formed, and no
    /// transaction's changes are left in the write log between two calls.
    pub closed spec fn wf(&self) -> bool {
        &&& self.storage.wf()
        &&& self.gas_meter.wf()
        &&& self.write_log.wf()
        &&& self.write_log@.tx == Map::<Seq<char>, Option<Seq<u8>>>::empty()
    }

    /// A shell for the chain `chain_id`, with no gas used and an empty write
    /// log. `last_state` is the state that the store kept on disk, if it
    /// kept one: the shell starts from it, or from an empty store.
    ///
    /// A state whose root digest is not the digest of its entries is refused.
    pub fn new(last_state: Option<LastState>, chain_id: String) -> (result: Result<Shell, Error>)
        ensures
            result is Ok <==> (last_state matches Some(state) ==> state.is_sound()),
            result matches Ok(shell) ==> {
                &&& shell.wf()
                &&& shell@.gas == 0
                &&& shell@.write_log == WriteLogState::empty()
                &&& shell@.storage == match last_state {
                    Some(state) => state.loaded(chain_id@),
                    None => StorageState::fresh(chain_id@),
                }
            },
            result matches Err(error) ==> error matches Error::Storage(cause) && cause
                == StorageError::CorruptState,
    {
        let mut storage = Storage::open(chain_id);
        match storage.load_last_state(last_state) {
            Ok(()) => Ok(
                Shell {
                    storage,
                    gas_meter: BlockGasMeter::default(),
                    write_log: WriteLog::default(),
                },
            ),
            Err(cause) => Err(Error::Storage(cause)),
        }
    }

    /// The storage of the shell.
    pub fn storage(&self) -> (storage: &Storage)
        ensures
            storage@ == self@.storage,
            self.wf() ==> storage.wf(),
    {
        &self.storage
    }

    /// The write log of the shell. No transaction's changes are left in it.
    pub fn write_log(&self) -> (write_log: &WriteLog)
        ensures
            write_log@ == self@.write_log,
            self.wf() ==> write_log.wf() && write_log@.tx == Map::<
                Seq<char>,
                Option<Seq<u8>>,
            >::empty(),
    {
        &self.write_log
    }

    /// The gas that the block in progress has used: no more than the limit
    /// of a block.
    pub fn gas_used(&self) -> (gas: u64)
        ensures
            gas == self@.gas,
            self.wf() ==> gas <= BLOCK_GAS_LIMIT,
    {
        proof {
            if self.wf() {
                self.gas_meter.lemma_within_limit();
            }
        }
        self.gas_meter.block_gas()
    }

    /// The value that a transaction reads under `key`: the one that the block
    /// in progress has given it, or else the one in storage.
    pub fn read(&self, key: &Key) -> (value: Option<Vec<u8>>)
        requires
            self.wf(),
        ensures
            match value {
                Some(v) => self@.read(key@) == Some(v@),
                None => self@.read(key@) is None,
            },
    {
        match self.write_log.read(key) {
            Some(StorageModification::Write { value }) => Some(copy_bytes(value)),
            Some(StorageModification::Delete) => None,
            None => match self.storage.read(key) {
                Some(value) => Some(copy_bytes(value)),
                None => None,
            },
        }
    }

    /// The state for the run of one transaction: it reads what `read` reads,
    /// and records the changes and the gas of the transaction without
    /// changing the shell.
    pub fn begin_tx(&self) -> (env: TxEnv<'_>)
        requires
            self.wf(),
        ensures
            env.wf(),
            env@.entries == self@.storage.entries,
            env@.write_log == self@.write_log,
            env@.changes == Seq::<(Seq<char>, Option<Seq<u8>>)>::empty(),
            env@.gas_used == 0,
    {
        TxEnv::new(&self.storage, &self.write_log)
    }

    /// Sets up the chain `init.chain_id` from `genesis`.
    ///
    /// Where the store belongs to another chain, nothing is written and the
    /// mismatch is reported. Else the writes of the genesis go to storage, in
    /// their order, and the genesis epoch begins at `init.initial_height` and
    /// `init.time`.
    pub fn init_chain(&mut self, init: request::InitChain, genesis: Genesis) -> (result: Result<
        response::InitChain,
        Error,
    >)
        requires
            old(self).wf(),
            genesis.spec_fits(),
        ensures
            final(self).wf(),
            result is Ok <==> old(self)@.storage.chain_id == init.chain_id@,
            result is Ok ==> final(self)@ == old(self)@.init_chain(init, genesis),
            result matches Err(error) ==> {
                &&& final(self)@ == old(self)@
                &&& error matches Error::ChainIdError(cause)
                &&& cause@ == chain_id_mismatch(old(self)@.storage.chain_id, init.chain_id@)
            },
    {
        if !self.storage.is_chain(&init.chain_id) {
            let current = self.storage.get_chain_id();
            return Err(
                Error::ChainIdError(
                    chain_id_mismatch_text(current.as_str(), init.chain_id.as_str()),
                ),
            );
        }
        let writes = genesis.storage_writes();
        self.storage.write_all(writes);
        self.storage.init_genesis_epoch(
            init.initial_height,
            init.time,
            genesis.parameters.epoch_duration,
        );
        Ok(response::InitChain {  })
    }

    /// The root digest and the height of the last committed block, if a block
    /// was committed.
    pub fn last_state(&self) -> (info: response::Info)
        ensures
            match info {
                response::Info::Committed { last_block_app_hash, last_block_height } =>
                    self@.storage.last_committed == Some(
                    (last_block_app_hash@, last_block_height),
                ),
                response::Info::Uninitialized => self@.storage.last_committed is None,
            },
    {
        match self.storage.get_state() {
            Some((root, height)) => response::Info::Committed {
                last_block_app_hash: root,
                last_block_height: height,
            },
            None => response::Info::Uninitialized,
        }
    }

    /// Decides what a query asks for: the path `dry_run_tx` asks for a dry
    /// run of the query's data, every other path gets the default response.
    pub fn query(&self, query: &request::Query) -> (action: QueryAction)
        ensures
            query.path@ == dry_run_path() ==> action is DryRunTx,
            query.path@ != dry_run_path() ==> {
                &&& action matches QueryAction::Respond(response)
                &&& response.code == CODE_OK
                &&& response.log@ == Seq::<char>::empty()
                &&& response.info@ == Seq::<char>::empty()
            },
    {
        if query.path == String::from_str("dry_run_tx") {
            QueryAction::DryRunTx
        } else {
            QueryAction::Respond(response::Query::default())
        }
    }

    /// Begins the block with hash `hash` at `height` and `time`.
    ///
    /// Where `height` does not follow the last committed block, storage
    /// refuses the block and nothing changes. Else the gas meter starts from
    /// zero, the block cursor moves to the block, and the epoch is brought up
    /// to it.
    pub fn begin_block(&mut self, hash: Vec<u8>, height: u64, time: DateTimeUtc) -> (result:
        Result<(), Error>)
        requires
            old(self).wf(),
        ensures
            final(self).wf(),
            result is Ok <==> old(self)@.storage.expected_height() == Some(height),
            result is Ok ==> final(self)@ == old(self)@.begin_block(hash@, height, time),
            result matches Err(error) ==> {
                &&& final(self)@ == old(self)@
                &&& error matches Error::Storage(cause)
                &&& cause == StorageError::UnexpectedHeight
            },
    {
        match self.storage.begin_block(hash, height) {
            Ok(()) => {
                self.gas_meter.reset();
                self.storage.update_epoch(height, time);
                Ok(())
            },
            Err(cause) => Err(Error::Storage(cause)),
        }
    }

    /// Applies the outcome of one transaction to the block in progress.
    ///
    /// A transaction that ran is charged its gas whatever the verdict. Where
    /// it is accepted, its changes join those of the block; where a validity
    /// predicate rejected it, or the block has no gas left for it, they are
    /// dropped. A transaction that did not run changes nothing.
    pub fn apply_tx(&mut self, outcome: TxOutcome) -> (response: response::DeliverTx)
        requires
            old(self).wf(),
        ensures
            final(self).wf(),
            final(self)@ == old(self)@.apply_tx(outcome),
            final(self)@.gas >= old(self)@.gas,
            final(self)@.storage == old(self)@.storage,
            !old(self)@.accepts(outcome) ==> final(self)@.write_log == old(self)@.write_log,
            response.code == old(self)@.deliver_code(outcome),
            response.gas_used == old(self)@.deliver_gas(outcome),
            response.info@ == old(self)@.deliver_info(outcome),
    {
        proof {
            self.gas_meter.lemma_within_limit();
        }
        let before = self.gas_meter.block_gas();
        match outcome {
            TxOutcome::Applied { changes, result } => {
                self.write_log.apply(changes);
                match self.gas_meter.add(result.gas_used) {
                    Ok(()) => {
                        let info = result.to_string();
                        if result.is_accepted() {
                            self.write_log.commit_tx();
                            response::DeliverTx {
                                code: CODE_OK,
                                gas_used: as_i64(result.gas_used),
                                info,
                            }
                        } else {
                            self.write_log.drop_tx();
                            response::DeliverTx {
                                code: CODE_ERR,
                                gas_used: as_i64(result.gas_used),
                                info,
                            }
                        }
                    },
                    Err(_) => {
                        self.write_log.drop_tx();
                        let charged = self.gas_meter.block_gas() - before;
                        let error = Error::TxError(String::from_str("Block gas limit exceeded"));
                        response::DeliverTx {
                            code: CODE_ERR,
                            gas_used: as_i64(charged),
                            info: error.to_string(),
                        }
                    },
                }
            },
            TxOutcome::Failed { error } => {
                let error = Error::TxError(error);
                response::DeliverTx {
                    code: CODE_ERR,
                    gas_used: as_i64(before),
                    info: error.to_string(),
                }
            },
        }
    }

    /// Ends the block at `height`. Nothing changes: the block's effects on
    /// the validators and the parameters have their place here.
    pub fn end_block(&mut self, height: u64) -> (response: response::EndBlock)
        ensures
            *final(self) == *old(self),
    {
        response::EndBlock {  }
    }

    /// Commits the block in progress: the changes of the block go to storage,
    /// the write log is emptied and the block becomes the last committed one.
    /// Hands out the new root digest, which is the root digest of storage as
    /// it was where the block has changed nothing.
    pub fn commit(&mut self) -> (response: response::Commit)
        requires
            old(self).wf(),
        ensures
            final(self).wf(),
            final(self)@ == old(self)@.commit(),
            response.data@ == old(self)@.commit_root(),
            response.data@ == final(self)@.storage.root(),
            response.data@.len() == DIGEST_LEN,
            old(self)@.write_log.block == Map::<Seq<char>, Option<Seq<u8>>>::empty() ==> {
                &&& response.data@ == old(self)@.storage.root()
                &&& final(self)@.storage.entries == old(self)@.storage.entries
            },
    {
        proof {
            if self@.write_log.block == Map::<Seq<char>, Option<Seq<u8>>>::empty() {
                assert(flush(self@.storage.entries, self@.write_log.block)
                    =~= self@.storage.entries);
            }
        }
        self.write_log.commit_block(&mut self.storage);
        let root = self.storage.commit();
        response::Commit { data: root }
    }

    /// Decides whether the transaction in `tx_bytes` may enter the mempool:
    /// it may where the bytes decode to a transaction. Nothing else is
    /// looked at, and a new transaction and one that is checked again are
    /// treated alike.
    pub fn mempool_validate(&self, tx_bytes: &[u8], kind: MempoolTxType) -> (response:
        response::CheckTx)
        ensures
            parse_tx(tx_bytes@) is Ok ==> {
                &&& response.code == CODE_OK
                &&& response.info@ == mempool_passed_note()
                &&& response.log@ == Seq::<char>::empty()
            },
            parse_tx(tx_bytes@) matches Err(cause) ==> {
                &&& response.code == CODE_ERR
                &&& response.log@ == "Error decoding a transaction from bytes: "@
                    + cause.message()
                &&& response.info@ == Seq::<char>::empty()
            },
    {
        match Tx::try_from(tx_bytes) {
            Ok(_) => response::CheckTx {
                code: CODE_OK,
                log: String::new(),
                info: String::from_str("Mempool validation passed"),
            },
            Err(cause) => {
                let error = Error::TxDecodingError(cause.to_string());
                response::CheckTx { code: CODE_ERR, log: error.to_string(), info: String::new() }
            },
        }
    }

    /// Answers a dry run: reports what the outcome `outcome` of a transaction
    /// came to, with the gas of a whole block at its disposal, and applies
    /// nothing.
    pub fn dry_run_tx(&self, outcome: &TxOutcome) -> (response: response::Query)
        ensures
            response.code == ShellState::dry_run_code(*outcome),
            response.info@ == ShellState::dry_run_info(*outcome),
            response.log@ == ShellState::dry_run_log(*outcome),
    {
        let mut gas_meter = BlockGasMeter::default();
        match outcome {
            TxOutcome::Applied { changes, result } => {
                match gas_meter.add(result.gas_used) {
                    Ok(()) => response::Query {
                        code: CODE_OK,
                        log: String::new(),
                        info: result.to_string(),
                    },
                    Err(_) => {
                        let error = Error::TxError(String::from_str("Block gas limit exceeded"));
                        response::Query {
                            code: CODE_ERR,
                            log: error.to_string(),
                            info: String::new(),
                        }
                    },
                }
            },
            TxOutcome::Failed { error } => {
                let error = Error::TxError(error.clone());
                response::Query { code: CODE_ERR, log: error.to_string(), info: String::new() }
            },
        }
    }
}

} // verus!
