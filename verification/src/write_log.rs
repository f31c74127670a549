//! The write log: the changes that the transactions of the block in progress
//! have made and that storage does not hold yet.
//!
//! The log has two layers. The transaction layer holds the changes of the
//! transaction that is being applied; the block layer holds those of the
//! transactions that the block has accepted before it. A read looks in the
//! transaction layer first, then in the block layer, then in storage.

use vstd::prelude::*;
use crate::key::Key;
use crate::keymap::{KeyMap, apply_writes, entries_map, entry_views, lemma_entries_empty, lemma_entries_take_step};
use crate::byte_vec::copy_bytes;
use crate::storage::{Storage, StorageState};

verus! {

/// A change to the value under one key.
#[derive(Debug)]
pub enum StorageModification {
    /// The key gets this value.
    Write { value: Vec<u8> },
    /// The key loses its value.
    Delete,
}

impl View for StorageModification {
    type V = Option<Seq<u8>>;

    /// The value that the key has after the change, if it has one.
    open spec fn view(&self) -> Option<Seq<u8>> {
        match self {
            StorageModification::Write { value } => Some(value@),
            StorageModification::Delete => None,
        }
    }
}

impl Clone for StorageModification {
    fn clone(&self) -> (copy: Self)
        ensures
            copy@ == self@,
    {
        match self {
            StorageModification::Write { value } => StorageModification::Write {
                value: copy_bytes(value),
            },
            StorageModification::Delete => StorageModification::Delete,
        }
    }
}

/// One layer of changes: for each changed key, the value that it has after
/// the change, or `None` where the change deletes it.
pub type Layer = Map<Seq<char>, Option<Seq<u8>>>;

/// The entries `entries` with the changes of `layer` made to them.
pub open spec fn flush(entries: Map<Seq<char>, Seq<u8>>, layer: Layer) -> Map<
    Seq<char>,
    Seq<u8>,
> {
    Map::new(
        |key: Seq<char>|
            if layer.contains_key(key) {
                layer[key] is Some
            } else {
                entries.contains_key(key)
            },
        |key: Seq<char>|
            if layer.contains_key(key) {
                layer[key]->Some_0
            } else {
                entries[key]
            },
    )
}

/// What a `WriteLog` holds.
pub struct WriteLogState {
    /// The changes of the transactions that the block has accepted.
    pub block: Layer,
    /// The changes of the transaction that is being applied.
    pub tx: Layer,
}

impl WriteLogState {
    /// The log without changes.
    pub open spec fn empty() -> WriteLogState {
        WriteLogState { block: Map::empty(), tx: Map::empty() }
    }

    /// The change that the log holds for `key`, if it holds one: that of the
    /// transaction layer, or else that of the block layer.
    pub open spec fn lookup(self, key: Seq<char>) -> Option<Option<Seq<u8>>> {
        if self.tx.contains_key(key) {
            Some(self.tx[key])
        } else if self.block.contains_key(key) {
            Some(self.block[key])
        } else {
            None
        }
    }

    /// The value that a read of `key` gives over the entries `entries`.
    pub open spec fn read(self, entries: Map<Seq<char>, Seq<u8>>, key: Seq<char>) -> Option<
        Seq<u8>,
    > {
        match self.lookup(key) {
            Some(change) => change,
            None => if entries.contains_key(key) {
                Some(entries[key])
            } else {
                None
            },
        }
    }

    /// The log after the transaction wrote `value` under `key`.
    pub open spec fn write(self, key: Seq<char>, value: Seq<u8>) -> WriteLogState {
        WriteLogState { tx: self.tx.insert(key, Some(value)), ..self }
    }

    /// The log after the transaction deleted the value under `key`.
    pub open spec fn delete(self, key: Seq<char>) -> WriteLogState {
        WriteLogState { tx: self.tx.insert(key, None), ..self }
    }

    /// The log after the transaction made the changes `changes`, in their
    /// order.
    pub open spec fn apply(self, changes: Seq<(Seq<char>, Option<Seq<u8>>)>) -> WriteLogState {
        WriteLogState { tx: apply_writes(self.tx, changes), ..self }
    }

    /// The log after the transaction was accepted: its changes have joined
    /// those of the block, each in place of an earlier change to the same key.
    pub open spec fn commit_tx(self) -> WriteLogState {
        WriteLogState { block: self.block.union_prefer_right(self.tx), tx: Map::empty() }
    }

    /// The log after the transaction was rejected: its changes are gone.
    pub open spec fn drop_tx(self) -> WriteLogState {
        WriteLogState { tx: Map::empty(), ..self }
    }

    /// The log after the block was committed: the changes of the block are
    /// gone from it.
    pub open spec fn commit_block(self) -> WriteLogState {
        WriteLogState { block: Map::empty(), ..self }
    }
}

/// The write log of the block in progress.
#[derive(Debug)]
pub struct WriteLog {
    block_write_log: KeyMap<StorageModification>,
    tx_write_log: KeyMap<StorageModification>,
}

impl View for WriteLog {
    type V = WriteLogState;

    closed spec fn view(&self) -> WriteLogState {
        WriteLogState { block: self.block_write_log.view(), tx: self.tx_write_log.view() }
    }
}

/// A copy of one layer.
fn clone_layer(layer: &KeyMap<StorageModification>) -> (copy: KeyMap<StorageModification>)
    ensures
        copy.wf(),
        layer.wf() ==> copy.view() == layer.view(),
{
    let mut copy: KeyMap<StorageModification> = KeyMap::new();
    let n = layer.len();
    let ghost all = layer.entries();
    let mut i: usize = 0;
    proof {
        lemma_entries_empty(all.take(0));
    }
    while i < n
        invariant
            i <= n,
            n == all.len(),
            all == layer.entries(),
            copy.wf(),
            layer.wf() ==> copy.view() == entries_map(all.take(i as int)),
        decreases n - i,
    {
        proof {
            if layer.wf() {
                lemma_entries_take_step(all, i as int);
            }
        }
        copy.insert(layer.key_at(i).clone(), layer.value_at(i).clone());
        i += 1;
    }
    assert(all.take(n as int) =~= all);
    copy
}

impl Clone for WriteLog {
    fn clone(&self) -> (copy: Self)
        ensures
            copy.wf(),
            self.wf() ==> copy@ == self@,
    {
        WriteLog {
            block_write_log: clone_layer(&self.block_write_log),
            tx_write_log: clone_layer(&self.tx_write_log),
        }
    }
}

impl Default for WriteLog {
    fn default() -> (log: Self)
        ensures
            log.wf(),
            log@ == WriteLogState::empty(),
    {
        WriteLog { block_write_log: KeyMap::new(), tx_write_log: KeyMap::new() }
    }
}

impl WriteLog {
    /// The invariant of the type: neither layer holds a key twice.
    pub closed spec fn wf(&self) -> bool {
        self.block_write_log.wf() && self.tx_write_log.wf()
    }

    /// The change that the log holds for `key`, if it holds one: that of the
    /// transaction layer, or else that of the block layer.
    pub fn read(&self, key: &Key) -> (change: Option<&StorageModification>)
        requires
            self.wf(),
        ensures
            match change {
                Some(c) => self@.lookup(key@) == Some(c@),
                None => self@.lookup(key@) is None,
            },
    {
        match self.tx_write_log.get(key) {
            Some(change) => Some(change),
            None => self.block_write_log.get(key),
        }
    }

    /// Records that the transaction writes `value` under `key`.
    pub fn write(&mut self, key: Key, value: Vec<u8>)
        requires
            old(self).wf(),
        ensures
            final(self).wf(),
            final(self)@ == old(self)@.write(key@, value@),
    {
        self.tx_write_log.insert(key, StorageModification::Write { value });
    }

    /// Records that the transaction deletes the value under `key`.
    pub fn delete(&mut self, key: Key)
        requires
            old(self).wf(),
        ensures
            final(self).wf(),
            final(self)@ == old(self)@.delete(key@),
    {
        self.tx_write_log.insert(key, StorageModification::Delete);
    }

    /// Records the changes `changes` of the transaction, in their order.
    pub fn apply(&mut self, changes: Vec<(Key, StorageModification)>)
        requires
            old(self).wf(),
        ensures
            final(self).wf(),
            final(self)@ == old(self)@.apply(entry_views(changes@)),
    {
        self.tx_write_log.insert_all(changes);
    }

    /// Accepts the transaction: its changes join those of the block, and the
    /// transaction layer is empty again.
    pub fn commit_tx(&mut self)
        requires
            old(self).wf(),
        ensures
            final(self).wf(),
            final(self)@ == old(self)@.commit_tx(),
    {
        let ghost block = self.block_write_log.view();
        let ghost tx = self.tx_write_log.view();
        while !self.tx_write_log.is_empty()
            invariant
                self.wf(),
                self.block_write_log.view().union_prefer_right(self.tx_write_log.view())
                    == block.union_prefer_right(tx),
            decreases self.tx_write_log.entries().len(),
        {
            let ghost block_before = self.block_write_log.view();
            let ghost tx_before = self.tx_write_log.view();
            match self.tx_write_log.pop() {
                Some((key, change)) => {
                    self.block_write_log.insert(key, change);
                },
                None => {},
            }
            assert(self.block_write_log.view().union_prefer_right(self.tx_write_log.view())
                =~= block_before.union_prefer_right(tx_before));
        }
        assert(self.block_write_log.view() =~= block.union_prefer_right(tx));
    }

    /// Rejects the transaction: its changes are dropped.
    pub fn drop_tx(&mut self)
        requires
            old(self).wf(),
        ensures
            final(self).wf(),
            final(self)@ == old(self)@.drop_tx(),
    {
        self.tx_write_log.clear();
    }

    /// Commits the block: makes the changes of the block layer to `storage`
    /// and empties the layer.
    pub fn commit_block(&mut self, storage: &mut Storage)
        requires
            old(self).wf(),
            old(storage).wf(),
        ensures
            final(self).wf(),
            final(storage).wf(),
            final(self)@ == old(self)@.commit_block(),
            final(storage)@ == old(storage)@.with_entries(
                flush(old(storage)@.entries, old(self)@.block),
            ),
    {
        let ghost start: StorageState = storage@;
        let ghost block = self.block_write_log.view();
        assert(storage@ == start.with_entries(storage@.entries));
        while !self.block_write_log.is_empty()
            invariant
                self.wf(),
                storage.wf(),
                self.tx_write_log == old(self).tx_write_log,
                storage@ == start.with_entries(storage@.entries),
                flush(storage@.entries, self.block_write_log.view()) == flush(
                    start.entries,
                    block,
                ),
            decreases self.block_write_log.entries().len(),
        {
            let ghost entries_before = storage@.entries;
            let ghost layer_before = self.block_write_log.view();
            match self.block_write_log.pop() {
                Some((key, change)) => {
                    match change {
                        StorageModification::Write { value } => {
                            storage.write(key, value);
                        },
                        StorageModification::Delete => {
                            storage.delete(&key);
                        },
                    }
                },
                None => {},
            }
            assert(flush(storage@.entries, self.block_write_log.view()) =~= flush(
                entries_before,
                layer_before,
            ));
        }
        assert(storage@.entries =~= flush(start.entries, block));
    }

    /// Whether the block layer holds no change.
    pub fn is_block_empty(&self) -> (empty: bool)
        requires
            self.wf(),
        ensures
            empty == (self@.block == Map::<Seq<char>, Option<Seq<u8>>>::empty()),
    {
        self.block_write_log.is_empty()
    }
}

} // verus!
