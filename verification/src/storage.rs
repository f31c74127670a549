//! The committed key-value state of the ledger, with its block bookkeeping.
//!
//! `Storage` holds the entries that earlier blocks and the genesis wrote, the
//! height and hash of the block in progress, the current epoch, and the root
//! digest and height of the last committed block. Keeping the entries durable
//! is the caller's business: it reads them out after a commit.

use vstd::prelude::*;
use vstd::string::*;
use crate::digest::{DIGEST_LEN, digest_entry, lemma_digest_empty, lemma_digest_insert, state_digest, xor_into, zero_digest};
use crate::key::Key;
use crate::keymap::{KeyMap, apply_writes, distinct_keys, entries_map, entry_views, lemma_apply_writes_distinct, lemma_entries_empty, lemma_entries_take_step};
use crate::byte_vec::{copy_bytes, same_bytes};
use crate::time::DateTimeUtc;

verus! {

/// How long an epoch lasts at the least: a number of blocks and a number of
/// seconds, both of which must have passed before the next epoch begins.
#[derive(Clone, Copy, Debug, PartialEq, Eq, Structural)]
pub struct EpochDuration {
    pub min_num_of_blocks: u64,
    pub min_duration: u64,
}

/// Why storage refused an operation.
#[derive(Clone, Copy, Debug, PartialEq, Eq, Structural)]
pub enum StorageError {
    /// The height of a new block is not the one that follows the last
    /// committed block.
    UnexpectedHeight,
    /// The root digest of a state read back from disk is not the digest of
    /// its entries.
    CorruptState,
}

/// `a + b`, or the largest `u64` where the sum lies beyond it.
pub open spec fn saturating_sum(a: u64, b: u64) -> u64 {
    if a + b <= u64::MAX {
        (a + b) as u64
    } else {
        u64::MAX
    }
}

/// What a `Storage` holds.
pub struct StorageState {
    /// The chain that this state belongs to.
    pub chain_id: Seq<char>,
    /// The committed entries.
    pub entries: Map<Seq<char>, Seq<u8>>,
    /// The hash of the block in progress.
    pub block_hash: Seq<u8>,
    /// The height of the block in progress.
    pub block_height: u64,
    /// The current epoch.
    pub epoch: u64,
    /// The first height at which the next epoch may begin.
    pub next_epoch_min_start_height: u64,
    /// The first time at which the next epoch may begin.
    pub next_epoch_min_start_time: DateTimeUtc,
    /// The least length of an epoch.
    pub epoch_duration: EpochDuration,
    /// The height of the first block of the chain.
    pub first_height: u64,
    /// The root digest and the height of the last committed block.
    pub last_committed: Option<(Seq<u8>, u64)>,
}

impl StorageState {
    /// The state of an empty store for the chain `chain_id`: nothing is
    /// stored, no block was committed, and the chain's first block is
    /// expected at height 1.
    pub open spec fn fresh(chain_id: Seq<char>) -> StorageState {
        StorageState {
            chain_id,
            entries: Map::empty(),
            block_hash: Seq::empty(),
            block_height: 0,
            epoch: 0,
            next_epoch_min_start_height: 0,
            next_epoch_min_start_time: DateTimeUtc::spec_unix_epoch(),
            epoch_duration: EpochDuration { min_num_of_blocks: 0, min_duration: 0 },
            first_height: 1,
            last_committed: None,
        }
    }

    /// The value stored under `key`, if there is one.
    pub open spec fn read(self, key: Seq<char>) -> Option<Seq<u8>> {
        if self.entries.contains_key(key) {
            Some(self.entries[key])
        } else {
            None
        }
    }

    /// The state with other entries and all else as it is.
    pub open spec fn with_entries(self, entries: Map<Seq<char>, Seq<u8>>) -> StorageState {
        StorageState { entries, ..self }
    }

    /// The state after `value` was written under `key`.
    pub open spec fn write(self, key: Seq<char>, value: Seq<u8>) -> StorageState {
        self.with_entries(self.entries.insert(key, value))
    }

    /// The state after the value under `key` was deleted.
    pub open spec fn delete(self, key: Seq<char>) -> StorageState {
        self.with_entries(self.entries.remove(key))
    }

    /// The state after the writes `writes`, made in their order.
    pub open spec fn write_all(self, writes: Seq<(Seq<char>, Seq<u8>)>) -> StorageState {
        self.with_entries(apply_writes(self.entries, writes))
    }

    /// The root digest of the entries.
    pub open spec fn root(self) -> Seq<u8> {
        state_digest(self.entries)
    }

    /// The height that the next block must have: the one after the last
    /// committed block, or the chain's first height where no block was
    /// committed yet. `None` where no height can follow.
    pub open spec fn expected_height(self) -> Option<u64> {
        match self.last_committed {
            Some((_, height)) => if height < u64::MAX {
                Some((height + 1) as u64)
            } else {
                None
            },
            None => Some(self.first_height),
        }
    }

    /// The state after a block with hash `hash` began at `height`.
    pub open spec fn begin_block(self, hash: Seq<u8>, height: u64) -> StorageState {
        StorageState { block_hash: hash, block_height: height, ..self }
    }

    /// Whether a block at `height` and `time` begins a new epoch.
    pub open spec fn starts_new_epoch(self, height: u64, time: DateTimeUtc) -> bool {
        height >= self.next_epoch_min_start_height && time.instant()
            >= self.next_epoch_min_start_time.instant()
    }

    /// The state after the epoch was brought up to a block at `height` and
    /// `time`.
    pub open spec fn update_epoch(self, height: u64, time: DateTimeUtc) -> StorageState {
        if self.starts_new_epoch(height, time) {
            StorageState {
                epoch: saturating_sum(self.epoch, 1),
                next_epoch_min_start_height: saturating_sum(
                    height,
                    self.epoch_duration.min_num_of_blocks,
                ),
                next_epoch_min_start_time: time.spec_plus_seconds(
                    self.epoch_duration.min_duration,
                ),
                ..self
            }
        } else {
            self
        }
    }

    /// The state after the genesis epoch was set up: epoch zero begins at
    /// `initial_height` and `genesis_time`, and lasts `duration` at the least.
    pub open spec fn init_genesis_epoch(
        self,
        initial_height: u64,
        genesis_time: DateTimeUtc,
        duration: EpochDuration,
    ) -> StorageState {
        StorageState {
            block_height: initial_height,
            first_height: initial_height,
            epoch: 0,
            epoch_duration: duration,
            next_epoch_min_start_height: saturating_sum(initial_height, duration.min_num_of_blocks),
            next_epoch_min_start_time: genesis_time.spec_plus_seconds(duration.min_duration),
            ..self
        }
    }

    /// The state after the block in progress was committed.
    pub open spec fn commit(self) -> StorageState {
        StorageState { last_committed: Some((self.root(), self.block_height)), ..self }
    }
}

/// The state of the last committed block as a store keeps it on disk.
#[derive(Debug)]
pub struct LastState {
    /// The entries, in any order.
    pub entries: Vec<(Key, Vec<u8>)>,
    /// The hash of the block.
    pub block_hash: Vec<u8>,
    /// The height of the block.
    pub block_height: u64,
    /// The epoch of the block.
    pub epoch: u64,
    /// The first height at which the next epoch may begin.
    pub next_epoch_min_start_height: u64,
    /// The first time at which the next epoch may begin.
    pub next_epoch_min_start_time: DateTimeUtc,
    /// The least length of an epoch.
    pub epoch_duration: EpochDuration,
    /// The height of the first block of the chain.
    pub first_height: u64,
    /// The root digest of the entries.
    pub root: Vec<u8>,
}

impl LastState {
    /// The entries as a map: where a key occurs more than once, the last
    /// occurrence counts.
    pub open spec fn entries_map(&self) -> Map<Seq<char>, Seq<u8>> {
        apply_writes(Map::<Seq<char>, Seq<u8>>::empty(), entry_views(self.entries@))
    }

    /// Whether the root digest is the digest of the entries.
    pub open spec fn is_sound(&self) -> bool {
        self.root@ == state_digest(self.entries_map())
    }

    /// The state of the store of the chain `chain_id` that has loaded this
    /// state.
    pub open spec fn loaded(&self, chain_id: Seq<char>) -> StorageState {
        StorageState {
            chain_id,
            entries: self.entries_map(),
            block_hash: self.block_hash@,
            block_height: self.block_height,
            epoch: self.epoch,
            next_epoch_min_start_height: self.next_epoch_min_start_height,
            next_epoch_min_start_time: self.next_epoch_min_start_time,
            epoch_duration: self.epoch_duration,
            first_height: self.first_height,
            last_committed: Some((self.root@, self.block_height)),
        }
    }
}

/// The committed key-value state of the ledger.
#[derive(Debug)]
pub struct Storage {
    chain_id: String,
    entries: KeyMap<Vec<u8>>,
    block_hash: Vec<u8>,
    block_height: u64,
    epoch: u64,
    next_epoch_min_start_height: u64,
    next_epoch_min_start_time: DateTimeUtc,
    epoch_duration: EpochDuration,
    first_height: u64,
    last_committed: Option<(Vec<u8>, u64)>,
}

impl View for Storage {
    type V = StorageState;

    closed spec fn view(&self) -> StorageState {
        StorageState {
            chain_id: self.chain_id@,
            entries: self.entries.view(),
            block_hash: self.block_hash@,
            block_height: self.block_height,
            epoch: self.epoch,
            next_epoch_min_start_height: self.next_epoch_min_start_height,
            next_epoch_min_start_time: self.next_epoch_min_start_time,
            epoch_duration: self.epoch_duration,
            first_height: self.first_height,
            last_committed: match self.last_committed {
                Some((root, height)) => Some((root@, height)),
                None => None,
            },
        }
    }
}

/// `a + b`, or the largest `u64` where the sum lies beyond it.
fn saturating_add(a: u64, b: u64) -> (sum: u64)
    ensures
        sum == saturating_sum(a, b),
{
    if b <= u64::MAX - a {
        a + b
    } else {
        u64::MAX
    }
}

/// The root digest of the entries of `map`.
fn digest_of(map: &KeyMap<Vec<u8>>) -> (root: Vec<u8>)
    requires
        map.wf(),
    ensures
        root@ == state_digest(map.view()),
        root@.len() == DIGEST_LEN,
{
    let mut root = zero_digest();
    let n = map.len();
    let ghost all = map.entries();
    let mut i: usize = 0;
    proof {
        lemma_digest_empty();
        lemma_entries_empty(all.take(0));
    }
    while i < n
        invariant
            i <= n,
            n == all.len(),
            all == map.entries(),
            distinct_keys(all),
            root@.len() == DIGEST_LEN,
            root@ == state_digest(entries_map(all.take(i as int))),
            entries_map(all.take(i as int)).kv_pairs().finite(),
        decreases n - i,
    {
        let digest = digest_entry(map.key_at(i), map.value_at(i));
        proof {
            lemma_entries_take_step(all, i as int);
            lemma_digest_insert(entries_map(all.take(i as int)), all[i as int].0, all[i as int].1);
        }
        xor_into(&mut root, &digest);
        i += 1;
    }
    assert(all.take(n as int) =~= all);
    root
}

impl Storage {
    /// The invariant of the type: no key is stored twice.
    pub closed spec fn wf(&self) -> bool {
        self.entries.wf()
    }

    /// An empty store for the chain `chain_id`: nothing is stored, no block
    /// was committed, and the chain's first block is expected at height 1.
    pub fn open(chain_id: String) -> (storage: Storage)
        ensures
            storage.wf(),
            storage@ == StorageState::fresh(chain_id@),
    {
        Storage {
            chain_id,
            entries: KeyMap::new(),
            block_hash: Vec::new(),
            block_height: 0,
            epoch: 0,
            next_epoch_min_start_height: 0,
            next_epoch_min_start_time: DateTimeUtc::unix_epoch(),
            epoch_duration: EpochDuration { min_num_of_blocks: 0, min_duration: 0 },
            first_height: 1,
            last_committed: None,
        }
    }

    /// The chain that this store belongs to.
    pub fn get_chain_id(&self) -> (chain_id: String)
        ensures
            chain_id@ == self@.chain_id,
    {
        self.chain_id.clone()
    }

    /// Whether this store belongs to the chain `chain_id`.
    pub fn is_chain(&self, chain_id: &String) -> (same: bool)
        ensures
            same == (self@.chain_id == chain_id@),
    {
        self.chain_id == *chain_id
    }

    /// The height of the block in progress.
    pub fn current_height(&self) -> (height: u64)
        ensures
            height == self@.block_height,
    {
        self.block_height
    }

    /// The current epoch.
    pub fn current_epoch(&self) -> (epoch: u64)
        ensures
            epoch == self@.epoch,
    {
        self.epoch
    }

    /// The value stored under `key`, if there is one.
    pub fn read(&self, key: &Key) -> (value: Option<&Vec<u8>>)
        requires
            self.wf(),
        ensures
            match value {
                Some(v) => self@.read(key@) == Some(v@),
                None => self@.read(key@) is None,
            },
    {
        self.entries.get(key)
    }

    /// Whether a value is stored under `key`.
    pub fn has_key(&self, key: &Key) -> (found: bool)
        requires
            self.wf(),
        ensures
            found == self@.entries.contains_key(key@),
    {
        self.entries.contains_key(key)
    }

    /// Stores `value` under `key`, in place of what was stored there.
    pub fn write(&mut self, key: Key, value: Vec<u8>)
        requires
            old(self).wf(),
        ensures
            final(self).wf(),
            final(self)@ == old(self)@.write(key@, value@),
    {
        self.entries.insert(key, value);
    }

    /// Makes the writes `writes` in their order: each stores its value under
    /// its key, in place of what was stored there.
    pub fn write_all(&mut self, writes: Vec<(Key, Vec<u8>)>)
        requires
            old(self).wf(),
        ensures
            final(self).wf(),
            final(self)@ == old(self)@.write_all(entry_views(writes@)),
    {
        self.entries.insert_all(writes);
    }

    /// Deletes what is stored under `key`.
    pub fn delete(&mut self, key: &Key)
        requires
            old(self).wf(),
        ensures
            final(self).wf(),
            final(self)@ == old(self)@.delete(key@),
    {
        self.entries.remove(key);
    }

    /// The height that the next block must have, if any height can follow.
    pub fn expected_height(&self) -> (height: Option<u64>)
        ensures
            height == self@.expected_height(),
    {
        match &self.last_committed {
            Some((_, height)) => {
                if *height < u64::MAX {
                    Some(*height + 1)
                } else {
                    None
                }
            },
            None => Some(self.first_height),
        }
    }

    /// Moves the block cursor to the block with hash `hash` at `height`.
    ///
    /// The block is refused, and nothing changes, unless `height` is the
    /// height that follows the last committed block.
    pub fn begin_block(&mut self, hash: Vec<u8>, height: u64) -> (result: Result<(), StorageError>)
        ensures
            final(self).wf() == old(self).wf(),
            result is Ok <==> old(self)@.expected_height() == Some(height),
            result is Ok ==> final(self)@ == old(self)@.begin_block(hash@, height),
            result is Err ==> final(self)@ == old(self)@ && result == Err::<(), StorageError>(
                StorageError::UnexpectedHeight,
            ),
    {
        let accepted = match self.expected_height() {
            Some(expected) => expected == height,
            None => false,
        };
        if accepted {
            self.block_hash = hash;
            self.block_height = height;
            Ok(())
        } else {
            Err(StorageError::UnexpectedHeight)
        }
    }

    /// Brings the epoch up to a block at `height` and `time`: a new epoch
    /// begins where both the least number of blocks and the least time of the
    /// current one have passed.
    pub fn update_epoch(&mut self, height: u64, time: DateTimeUtc)
        ensures
            final(self).wf() == old(self).wf(),
            final(self)@ == old(self)@.update_epoch(height, time),
    {
        if height >= self.next_epoch_min_start_height && time.is_at_or_after(
            &self.next_epoch_min_start_time,
        ) {
            self.epoch = saturating_add(self.epoch, 1);
            self.next_epoch_min_start_height = saturating_add(
                height,
                self.epoch_duration.min_num_of_blocks,
            );
            self.next_epoch_min_start_time = time.plus_seconds(self.epoch_duration.min_duration);
        }
    }

    /// Sets up the genesis epoch: epoch zero begins at `initial_height` and
    /// `genesis_time`, and lasts `duration` at the least.
    pub fn init_genesis_epoch(
        &mut self,
        initial_height: u64,
        genesis_time: DateTimeUtc,
        duration: EpochDuration,
    )
        ensures
            final(self).wf() == old(self).wf(),
            final(self)@ == old(self)@.init_genesis_epoch(initial_height, genesis_time, duration),
    {
        self.block_height = initial_height;
        self.first_height = initial_height;
        self.epoch = 0;
        self.epoch_duration = duration;
        self.next_epoch_min_start_height = saturating_add(
            initial_height,
            duration.min_num_of_blocks,
        );
        self.next_epoch_min_start_time = genesis_time.plus_seconds(duration.min_duration);
    }

    /// The root digest of the entries as they are now.
    pub fn merkle_root(&self) -> (root: Vec<u8>)
        requires
            self.wf(),
        ensures
            root@ == self@.root(),
            root@.len() == DIGEST_LEN,
    {
        digest_of(&self.entries)
    }

    /// Takes over the state `state` that was read back from disk, if there
    /// is one.
    ///
    /// The state is refused, and nothing changes, unless its root digest is
    /// the digest of its entries.
    pub fn load_last_state(&mut self, state: Option<LastState>) -> (result: Result<
        (),
        StorageError,
    >)
        requires
            old(self).wf(),
        ensures
            final(self).wf(),
            result is Ok <==> (state matches Some(s) ==> s.is_sound()),
            result is Ok ==> final(self)@ == match state {
                Some(s) => s.loaded(old(self)@.chain_id),
                None => old(self)@,
            },
            result is Err ==> final(self)@ == old(self)@ && result == Err::<(), StorageError>(
                StorageError::CorruptState,
            ),
    {
        match state {
            None => Ok(()),
            Some(state) => {
                let mut entries: KeyMap<Vec<u8>> = KeyMap::new();
                entries.insert_all(state.entries);
                let root = digest_of(&entries);
                if !same_bytes(&root, &state.root) {
                    return Err(StorageError::CorruptState);
                }
                self.entries = entries;
                self.block_hash = state.block_hash;
                self.block_height = state.block_height;
                self.epoch = state.epoch;
                self.next_epoch_min_start_height = state.next_epoch_min_start_height;
                self.next_epoch_min_start_time = state.next_epoch_min_start_time;
                self.epoch_duration = state.epoch_duration;
                self.first_height = state.first_height;
                self.last_committed = Some((state.root, state.block_height));
                Ok(())
            },
        }
    }

    /// The state to keep on disk, if a block was committed: the entries as
    /// they are now, the block bookkeeping, and the root digest of the last
    /// committed block.
    pub fn last_state(&self) -> (state: Option<LastState>)
        requires
            self.wf(),
        ensures
            state is Some <==> self@.last_committed is Some,
            state matches Some(s) ==> {
                &&& s.entries_map() == self@.entries
                &&& s.block_hash@ == self@.block_hash
                &&& s.block_height == self@.block_height
                &&& s.epoch == self@.epoch
                &&& s.next_epoch_min_start_height == self@.next_epoch_min_start_height
                &&& s.next_epoch_min_start_time == self@.next_epoch_min_start_time
                &&& s.epoch_duration == self@.epoch_duration
                &&& s.first_height == self@.first_height
                &&& s.root@ == self@.last_committed->Some_0.0
            },
    {
        match &self.last_committed {
            None => None,
            Some((root, _)) => {
                let n = self.entries.len();
                let ghost all = self.entries.entries();
                let mut entries: Vec<(Key, Vec<u8>)> = Vec::new();
                let mut i: usize = 0;
                while i < n
                    invariant
                        i <= n,
                        n == all.len(),
                        all == self.entries.entries(),
                        entry_views(entries@) == all.take(i as int),
                    decreases n - i,
                {
                    let ghost before = entry_views(entries@);
                    entries.push(
                        (self.entries.key_at(i).clone(), copy_bytes(self.entries.value_at(i))),
                    );
                    assert(entry_views(entries@) =~= before.push(all[i as int]));
                    assert(all.take(i + 1) =~= before.push(all[i as int]));
                    i += 1;
                }
                proof {
                    assert(all.take(n as int) =~= all);
                    lemma_apply_writes_distinct(all);
                }
                Some(
                    LastState {
                        entries,
                        block_hash: copy_bytes(&self.block_hash),
                        block_height: self.block_height,
                        epoch: self.epoch,
                        next_epoch_min_start_height: self.next_epoch_min_start_height,
                        next_epoch_min_start_time: self.next_epoch_min_start_time,
                        epoch_duration: self.epoch_duration,
                        first_height: self.first_height,
                        root: copy_bytes(root),
                    },
                )
            },
        }
    }

    /// Commits the block in progress: its height and the root digest of the
    /// entries become the last committed state. Hands out the root digest.
    pub fn commit(&mut self) -> (root: Vec<u8>)
        requires
            old(self).wf(),
        ensures
            final(self).wf(),
            final(self)@ == old(self)@.commit(),
            root@ == old(self)@.root(),
            root@.len() == DIGEST_LEN,
    {
        let root = self.merkle_root();
        self.last_committed = Some((copy_bytes(&root), self.block_height));
        root
    }

    /// The root digest and the height of the last committed block, if a block
    /// was committed.
    pub fn get_state(&self) -> (state: Option<(Vec<u8>, u64)>)
        ensures
            match state {
                Some((root, height)) => self@.last_committed == Some((root@, height)),
                None => self@.last_committed is None,
            },
    {
        match &self.last_committed {
            Some((root, height)) => Some((copy_bytes(root), *height)),
            None => None,
        }
    }
}

} // verus!
