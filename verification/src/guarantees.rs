//! What holds of the shell over more than one call.
//!
//! Each statement here is about the states that the shell's functions move
//! between, as their contracts describe them, and is proved from the
//! definitions of those moves.

use vstd::prelude::*;
use crate::gas::BLOCK_GAS_LIMIT;
use crate::keymap::{apply_writes, entry_views};
use crate::protocol::{TxEnvState, TxOutcome};
use crate::response::CODE_OK;
use crate::shell::ShellState;
use crate::storage::{StorageState, saturating_sum};
use crate::time::DateTimeUtc;
use crate::write_log::{WriteLogState, flush};

verus! {

/// A layer without changes.
pub open spec fn no_changes() -> Map<Seq<char>, Option<Seq<u8>>> {
    Map::empty()
}

/// One block as the consensus engine drives it: where it begins, and the
/// outcomes of its transactions in their order.
pub struct Block {
    pub hash: Seq<u8>,
    pub height: u64,
    pub time: DateTimeUtc,
    pub outcomes: Seq<TxOutcome>,
}

/// The state after the block `block` was begun, filled and committed.
pub open spec fn run_block(state: ShellState, block: Block) -> ShellState {
    state.begin_block(block.hash, block.height, block.time).apply_all(block.outcomes).commit()
}

/// The root digest that the commit of the block `block` returns.
pub open spec fn block_root(state: ShellState, block: Block) -> Seq<u8> {
    state.begin_block(block.hash, block.height, block.time).apply_all(
        block.outcomes,
    ).commit_root()
}

/// The state after the blocks `blocks` were run in their order.
pub open spec fn run_chain(state: ShellState, blocks: Seq<Block>) -> ShellState
    decreases blocks.len(),
{
    if blocks.len() == 0 {
        state
    } else {
        run_block(run_chain(state, blocks.drop_last()), blocks.last())
    }
}

/// The root digests that the commits of the blocks `blocks` return.
pub open spec fn chain_roots(state: ShellState, blocks: Seq<Block>) -> Seq<Seq<u8>>
    decreases blocks.len(),
{
    if blocks.len() == 0 {
        Seq::empty()
    } else {
        chain_roots(state, blocks.drop_last()).push(
            block_root(run_chain(state, blocks.drop_last()), blocks.last()),
        )
    }
}

/// Two states hold the same data: the same entries in storage and the same
/// changes in the write log.
pub open spec fn same_data(a: ShellState, b: ShellState) -> bool {
    a.storage.entries == b.storage.entries && a.write_log == b.write_log
}

/// A transaction that is not accepted leaves no trace: storage and the write
/// log are as they were, and so is what every key reads.
pub proof fn lemma_rejected_tx_leaves_no_trace(state: ShellState, outcome: TxOutcome)
    requires
        state.write_log.tx == no_changes(),
        !state.accepts(outcome),
    ensures
        state.apply_tx(outcome).storage == state.storage,
        state.apply_tx(outcome).write_log == state.write_log,
        forall|key: Seq<char>| state.apply_tx(outcome).read(key) == state.read(key),
{
}

/// A transaction reads its own writes: a key that it wrote reads the value
/// written, a key that it deleted reads nothing, whatever the block or
/// storage hold for the key, and every other key reads as before.
pub proof fn lemma_read_your_writes(
    log: WriteLogState,
    entries: Map<Seq<char>, Seq<u8>>,
    key: Seq<char>,
    value: Seq<u8>,
)
    ensures
        log.write(key, value).read(entries, key) == Some(value),
        log.delete(key).read(entries, key) == None::<Seq<u8>>,
        forall|other: Seq<char>|
            other != key ==> log.write(key, value).read(entries, other) == log.read(
                entries,
                other,
            ),
        forall|other: Seq<char>|
            other != key ==> log.delete(key).read(entries, other) == log.read(entries, other),
{
}

/// The changes of an accepted transaction are seen by the transactions that
/// follow it in the block, and by storage only once the block is committed:
/// after the transaction a changed key reads what the transaction left
/// there, storage is as it was, and after the commit storage reads the same.
pub proof fn lemma_block_isolation(state: ShellState, outcome: TxOutcome, key: Seq<char>)
    requires
        state.write_log.tx == no_changes(),
        state.accepts(outcome),
        apply_writes(no_changes(), entry_views(outcome->Applied_changes@)).contains_key(key),
    ensures
        state.apply_tx(outcome).read(key) == apply_writes(
            no_changes(),
            entry_views(outcome->Applied_changes@),
        )[key],
        state.apply_tx(outcome).storage == state.storage,
        state.apply_tx(outcome).commit().storage.read(key) == state.apply_tx(outcome).read(key),
{
}

/// An accepted transaction leaves the block reading what the transaction
/// itself read at its end: for a run that started from the state `state` and
/// made the changes of `outcome`, every key reads after `apply_tx` what it
/// read in the run.
pub proof fn lemma_accepted_tx_reads_as_run(
    state: ShellState,
    env: TxEnvState,
    outcome: TxOutcome,
    key: Seq<char>,
)
    requires
        state.write_log.tx == no_changes(),
        env.entries == state.storage.entries,
        env.write_log.block == state.write_log.block,
        env.write_log.tx == apply_writes(no_changes(), env.changes),
        state.accepts(outcome),
        entry_views(outcome->Applied_changes@) == env.changes,
    ensures
        state.apply_tx(outcome).read(key) == env.read(key),
{
}

/// A commit makes storage read what the block read: for every key, storage
/// holds after the commit the value that the key read before it.
pub proof fn lemma_commit_publishes(state: ShellState, key: Seq<char>)
    requires
        state.write_log.tx == no_changes(),
    ensures
        state.commit().storage.read(key) == state.read(key),
        state.commit().read(key) == state.read(key),
{
}

/// Applying an outcome to two states that hold the same data and have used
/// the same gas leaves them so.
pub proof fn lemma_apply_tx_same_data(a: ShellState, b: ShellState, outcome: TxOutcome)
    requires
        same_data(a, b),
        a.gas == b.gas,
    ensures
        same_data(a.apply_tx(outcome), b.apply_tx(outcome)),
        a.apply_tx(outcome).gas == b.apply_tx(outcome).gas,
{
}

/// Applying a list of outcomes to two states that hold the same data and
/// have used the same gas leaves them so.
pub proof fn lemma_apply_all_same_data(a: ShellState, b: ShellState, outcomes: Seq<TxOutcome>)
    requires
        same_data(a, b),
        a.gas == b.gas,
    ensures
        same_data(a.apply_all(outcomes), b.apply_all(outcomes)),
        a.apply_all(outcomes).gas == b.apply_all(outcomes).gas,
    decreases outcomes.len(),
{
    if outcomes.len() > 0 {
        lemma_apply_all_same_data(a, b, outcomes.drop_last());
        lemma_apply_tx_same_data(
            a.apply_all(outcomes.drop_last()),
            b.apply_all(outcomes.drop_last()),
            outcomes.last(),
        );
    }
}

/// Two nodes that hold the same data and run the same blocks return the same
/// root digest at every commit, and hold the same data afterwards. Nothing
/// else of their states bears on the roots.
pub proof fn lemma_same_blocks_same_roots(a: ShellState, b: ShellState, blocks: Seq<Block>)
    requires
        same_data(a, b),
    ensures
        chain_roots(a, blocks) == chain_roots(b, blocks),
        same_data(run_chain(a, blocks), run_chain(b, blocks)),
    decreases blocks.len(),
{
    if blocks.len() > 0 {
        let earlier = blocks.drop_last();
        let block = blocks.last();
        lemma_same_blocks_same_roots(a, b, earlier);
        let a1 = run_chain(a, earlier).begin_block(block.hash, block.height, block.time);
        let b1 = run_chain(b, earlier).begin_block(block.hash, block.height, block.time);
        lemma_apply_all_same_data(a1, b1, block.outcomes);
    }
}

/// Within a block the gas used never goes down: each outcome applied leaves
/// at least the gas that was used before it, whether the transaction was
/// accepted, rejected or did not run.
pub proof fn lemma_gas_never_decreases(
    state: ShellState,
    outcomes: Seq<TxOutcome>,
    outcome: TxOutcome,
)
    requires
        0 <= state.gas <= BLOCK_GAS_LIMIT,
    ensures
        state.gas <= state.apply_all(outcomes).gas <= BLOCK_GAS_LIMIT,
        state.apply_all(outcomes.push(outcome)).gas >= state.apply_all(outcomes).gas,
    decreases outcomes.len(),
{
    assert(outcomes.push(outcome).drop_last() =~= outcomes);
    if outcomes.len() > 0 {
        lemma_gas_never_decreases(state, outcomes.drop_last(), outcomes.last());
        assert(outcomes.drop_last().push(outcomes.last()) =~= outcomes);
    }
}

/// An epoch lasts its least number of blocks and its least time: once a
/// block at `height` and `time` has begun an epoch, no block begins the next
/// one before the least number of blocks and the least number of seconds
/// have passed, counted up to the largest height and the last second that
/// there are.
pub proof fn lemma_epoch_lasts(
    storage: StorageState,
    height: u64,
    time: DateTimeUtc,
    later_height: u64,
    later_time: DateTimeUtc,
)
    requires
        time.is_valid(),
        later_time.is_valid(),
        storage.starts_new_epoch(height, time),
        storage.update_epoch(height, time).starts_new_epoch(later_height, later_time),
    ensures
        later_height >= saturating_sum(height, storage.epoch_duration.min_num_of_blocks),
        later_time.spec_seconds() >= time.spec_seconds()
            + storage.epoch_duration.min_duration || later_time.spec_seconds() == i64::MAX,
        storage.update_epoch(height, time).epoch == saturating_sum(storage.epoch, 1),
{
    time.lemma_plus_seconds(storage.epoch_duration.min_duration);
    let start = time.spec_plus_seconds(storage.epoch_duration.min_duration);
    later_time.lemma_valid();
    start.lemma_valid();
    assert(later_time.spec_seconds() >= start.spec_seconds()) by (nonlinear_arith)
        requires
            later_time.instant() >= start.instant(),
            later_time.instant() == later_time.spec_seconds() * 1_000_000_000
                + later_time.spec_nanos(),
            start.instant() == start.spec_seconds() * 1_000_000_000 + start.spec_nanos(),
            0 <= later_time.spec_nanos() < 1_000_000_000,
            0 <= start.spec_nanos() < 1_000_000_000,
    ;
}

/// Only the beginning of a block sets the gas back: a commit leaves the gas
/// as it is, and a block that begins has used none.
pub proof fn lemma_gas_reset_at_begin_block(
    state: ShellState,
    hash: Seq<u8>,
    height: u64,
    time: DateTimeUtc,
)
    ensures
        state.commit().gas == state.gas,
        state.begin_block(hash, height, time).gas == 0,
{
}

/// The commit of a block without changes returns the root digest of the
/// entries as they are, and leaves the entries as they are.
pub proof fn lemma_empty_block_keeps_root(state: ShellState)
    requires
        state.write_log.block == no_changes(),
    ensures
        state.commit_root() == state.storage.root(),
        state.commit().storage.entries == state.storage.entries,
{
    assert(flush(state.storage.entries, state.write_log.block) =~= state.storage.entries);
}

/// A block to which no transaction is applied commits to the root digest
/// that the commit before it returned.
pub proof fn lemma_commit_idempotent_root(
    state: ShellState,
    hash: Seq<u8>,
    height: u64,
    time: DateTimeUtc,
)
    ensures
        state.commit().begin_block(hash, height, time).commit_root() == state.commit_root(),
        state.commit().commit_root() == state.commit_root(),
{
    lemma_empty_block_keeps_root(state.commit());
    lemma_empty_block_keeps_root(state.commit().begin_block(hash, height, time));
}

/// A dry run of a transaction that the block would accept reports what
/// applying it reports: success, and the same verdict and gas.
pub proof fn lemma_dry_run_reports_as_apply(state: ShellState, outcome: TxOutcome)
    requires
        0 <= state.gas,
        state.accepts(outcome),
    ensures
        ShellState::dry_run_code(outcome) == CODE_OK,
        ShellState::dry_run_code(outcome) == state.deliver_code(outcome),
        ShellState::dry_run_info(outcome) == state.deliver_info(outcome),
        ShellState::dry_run_info(outcome) == outcome->Applied_result.text(),
{
}

} // verus!
