//! What the shell takes from the transaction application protocol.
//!
//! The protocol runs a decoded transaction and asks the validity predicates
//! of the accounts that it touches. The shell does not run it: the caller
//! does, over a `TxEnv`, and hands the outcome to the shell, which decides
//! what becomes of the changes and of the gas.

use vstd::prelude::*;
use vstd::string::*;
use crate::address::Address;
use crate::key::Key;
use crate::keymap::{apply_writes, entry_views, lemma_apply_writes_push};
use crate::byte_vec::copy_bytes;
use crate::storage::Storage;
use crate::text::{decimal, joined, to_decimal};
use crate::wire::DecodeError;
use crate::write_log::{StorageModification, WriteLog, WriteLogState};

verus! {

/// The verdicts of the validity predicates on one transaction.
#[derive(Debug)]
pub struct VpsResult {
    /// The accounts whose validity predicates accepted the transaction.
    pub accepted_vps: Vec<Address>,
    /// The accounts whose validity predicates rejected it.
    pub rejected_vps: Vec<Address>,
}

/// What the run of one transaction came to.
#[derive(Debug)]
pub struct TxResult {
    /// The gas that the run used.
    pub gas_used: u64,
    /// The verdicts of the validity predicates.
    pub vps_result: VpsResult,
}

/// The encoded texts of `addresses`.
pub open spec fn address_texts(addresses: Seq<Address>) -> Seq<Seq<char>> {
    Seq::new(addresses.len(), |i: int| addresses[i]@)
}

/// How a run is reported: whether the transaction is valid, the gas that it
/// used and, where it is not valid, the accounts that rejected it.
pub open spec fn verdict_text(accepted: bool, gas_used: u64, rejected: Seq<Seq<char>>) -> Seq<
    char,
> {
    if accepted {
        "Transaction is valid. Gas used: "@ + decimal(gas_used as nat) + ";"@
    } else {
        "Transaction is invalid. Gas used: "@ + decimal(gas_used as nat) + "; VPs rejected: "@
            + joined(rejected)
    }
}

/// The encoded texts of `addresses`, with a comma and a space between each
/// two.
fn join_addresses(addresses: &Vec<Address>) -> (text: String)
    ensures
        text@ == joined(address_texts(addresses@)),
{
    let ghost names = address_texts(addresses@);
    let mut text = String::new();
    let mut i: usize = 0;
    while i < addresses.len()
        invariant
            i <= addresses.len(),
            names == address_texts(addresses@),
            text@ == joined(names.take(i as int)),
        decreases addresses.len() - i,
    {
        proof {
            assert(names.take(i + 1).drop_last() =~= names.take(i as int));
            assert(names.take(i + 1).last() == addresses@[i as int]@);
        }
        if i == 0 {
            text = addresses[i].encode();
        } else {
            text = text.concat(", ").concat(addresses[i].as_str());
        }
        i += 1;
    }
    assert(names.take(addresses.len() as int) =~= names);
    text
}

impl TxResult {
    /// Whether the transaction was accepted: no validity predicate rejected it.
    pub open spec fn spec_is_accepted(&self) -> bool {
        self.vps_result.rejected_vps@.len() == 0
    }

    /// The verdict as text.
    pub open spec fn text(&self) -> Seq<char> {
        verdict_text(
            self.spec_is_accepted(),
            self.gas_used,
            address_texts(self.vps_result.rejected_vps@),
        )
    }

    /// Whether the transaction was accepted: no validity predicate rejected it.
    pub fn is_accepted(&self) -> (accepted: bool)
        ensures
            accepted == self.spec_is_accepted(),
    {
        self.vps_result.rejected_vps.len() == 0
    }

    /// The verdict as text.
    pub fn to_string(&self) -> (text: String)
        ensures
            text@ == self.text(),
    {
        if self.is_accepted() {
            String::from_str("Transaction is valid. Gas used: ").concat(
                to_decimal(self.gas_used).as_str(),
            ).concat(";")
        } else {
            String::from_str("Transaction is invalid. Gas used: ").concat(
                to_decimal(self.gas_used).as_str(),
            ).concat("; VPs rejected: ").concat(join_addresses(&self.vps_result.rejected_vps).as_str())
        }
    }
}

/// `a + b`, or the largest `u64` where the sum lies beyond it.
pub open spec fn capped_sum(a: u64, b: u64) -> u64 {
    if a + b <= u64::MAX {
        (a + b) as u64
    } else {
        u64::MAX
    }
}

/// What a `TxEnv` holds.
pub struct TxEnvState {
    /// The entries of storage.
    pub entries: Map<Seq<char>, Seq<u8>>,
    /// The changes of the block and, in the transaction layer, those of the
    /// transaction so far.
    pub write_log: WriteLogState,
    /// The changes of the transaction so far, in their order.
    pub changes: Seq<(Seq<char>, Option<Seq<u8>>)>,
    /// The gas that the transaction has used so far.
    pub gas_used: u64,
}

impl TxEnvState {
    /// The value that the transaction reads under `key`: the one that it
    /// wrote itself, or else the one that the block has given the key, or
    /// else the one in storage.
    pub open spec fn read(self, key: Seq<char>) -> Option<Seq<u8>> {
        self.write_log.read(self.entries, key)
    }
}

/// The state that one transaction runs in: what it reads, and the record of
/// what it changes and of the gas that it uses.
///
/// The protocol runs a transaction over a `TxEnv` that `Shell::begin_tx`
/// gave it and hands the shell the outcome that `TxEnv::finish` makes of it.
/// Nothing that the transaction does here changes the shell.
#[derive(Debug)]
pub struct TxEnv<'a> {
    storage: &'a Storage,
    write_log: WriteLog,
    changes: Vec<(Key, StorageModification)>,
    gas_used: u64,
}

impl<'a> View for TxEnv<'a> {
    type V = TxEnvState;

    closed spec fn view(&self) -> TxEnvState {
        TxEnvState {
            entries: self.storage@.entries,
            write_log: self.write_log@,
            changes: entry_views(self.changes@),
            gas_used: self.gas_used,
        }
    }
}

impl<'a> TxEnv<'a> {
    /// The invariant of the type: its parts are well formed, and the
    /// transaction layer of the write log holds the changes of the record.
    pub closed spec fn wf(&self) -> bool {
        &&& self.storage.wf()
        &&& self.write_log.wf()
        &&& self.write_log@.tx == apply_writes(
            Map::<Seq<char>, Option<Seq<u8>>>::empty(),
            entry_views(self.changes@),
        )
    }

    /// The state for a transaction over `storage` and the changes of the
    /// block in `write_log`: the transaction has changed nothing and used no
    /// gas.
    pub fn new(storage: &'a Storage, write_log: &WriteLog) -> (env: TxEnv<'a>)
        requires
            storage.wf(),
            write_log.wf(),
            write_log@.tx == Map::<Seq<char>, Option<Seq<u8>>>::empty(),
        ensures
            env.wf(),
            env@.entries == storage@.entries,
            env@.write_log == write_log@,
            env@.changes == Seq::<(Seq<char>, Option<Seq<u8>>)>::empty(),
            env@.gas_used == 0,
    {
        let env = TxEnv { storage, write_log: write_log.clone(), changes: Vec::new(), gas_used: 0 };
        assert(entry_views(env.changes@) =~= Seq::<(Seq<char>, Option<Seq<u8>>)>::empty());
        env
    }

    /// The value that the transaction reads under `key`: the one that it
    /// wrote itself, or else the one that the block has given the key, or
    /// else the one in storage.
    pub fn read(&self, key: &Key) -> (value: Option<Vec<u8>>)
        requires
            self.wf(),
        ensures
            match value {
                Some(v) => self@.read(key@) == Some(v@),
                None => self@.read(key@) is None,
            },
    {
        match self.write_log.read(key) {
            Some(StorageModification::Write { value }) => Some(copy_bytes(value)),
            Some(StorageModification::Delete) => None,
            None => match self.storage.read(key) {
                Some(value) => Some(copy_bytes(value)),
                None => None,
            },
        }
    }

    /// Records that the transaction writes `value` under `key`.
    pub fn write(&mut self, key: Key, value: Vec<u8>)
        requires
            old(self).wf(),
        ensures
            final(self).wf(),
            final(self)@ == (TxEnvState {
                write_log: old(self)@.write_log.write(key@, value@),
                changes: old(self)@.changes.push((key@, Some(value@))),
                ..old(self)@
            }),
            final(self)@.read(key@) == Some(value@),
    {
        let ghost before = entry_views(self.changes@);
        proof {
            lemma_apply_writes_push(
                Map::<Seq<char>, Option<Seq<u8>>>::empty(),
                before,
                key@,
                Some(value@),
            );
        }
        self.changes.push((key.clone(), StorageModification::Write { value: copy_bytes(&value) }));
        assert(entry_views(self.changes@) =~= before.push((key@, Some(value@))));
        self.write_log.write(key, value);
    }

    /// Records that the transaction deletes the value under `key`.
    pub fn delete(&mut self, key: Key)
        requires
            old(self).wf(),
        ensures
            final(self).wf(),
            final(self)@ == (TxEnvState {
                write_log: old(self)@.write_log.delete(key@),
                changes: old(self)@.changes.push((key@, None)),
                ..old(self)@
            }),
            final(self)@.read(key@) is None,
    {
        let ghost before = entry_views(self.changes@);
        proof {
            lemma_apply_writes_push(
                Map::<Seq<char>, Option<Seq<u8>>>::empty(),
                before,
                key@,
                None,
            );
        }
        self.changes.push((key.clone(), StorageModification::Delete));
        assert(entry_views(self.changes@) =~= before.push((key@, None)));
        self.write_log.delete(key);
    }

    /// Records that the transaction uses `gas` more gas. The count stops at
    /// the largest number that it can hold.
    pub fn add_gas(&mut self, gas: u64)
        ensures
            final(self).wf() == old(self).wf(),
            final(self)@ == (TxEnvState {
                gas_used: capped_sum(old(self)@.gas_used, gas),
                ..old(self)@
            }),
    {
        if gas <= u64::MAX - self.gas_used {
            self.gas_used = self.gas_used + gas;
        } else {
            self.gas_used = u64::MAX;
        }
    }

    /// The gas that the transaction has used so far.
    pub fn gas_used(&self) -> (gas: u64)
        ensures
            gas == self@.gas_used,
    {
        self.gas_used
    }

    /// The outcome of the transaction, whose validity predicates gave the
    /// verdicts `vps_result`: its changes in their order, and the gas that it
    /// used. The changes are those that the transaction layer of the run
    /// held.
    pub fn finish(self, vps_result: VpsResult) -> (outcome: TxOutcome)
        ensures
            outcome matches TxOutcome::Applied { changes, result } && {
                &&& entry_views(changes@) == self@.changes
                &&& result.gas_used == self@.gas_used
                &&& result.vps_result == vps_result
                &&& self.wf() ==> self@.write_log.tx == apply_writes(
                    Map::<Seq<char>, Option<Seq<u8>>>::empty(),
                    entry_views(changes@),
                )
            },
    {
        TxOutcome::Applied {
            changes: self.changes,
            result: TxResult { gas_used: self.gas_used, vps_result },
        }
    }
}

/// The outcome of the protocol on one transaction.
#[derive(Debug)]
pub enum TxOutcome {
    /// The transaction ran. `changes` are the changes that it made to the
    /// state, in their order; `result` holds the gas and the verdicts.
    Applied { changes: Vec<(Key, StorageModification)>, result: TxResult },
    /// The transaction did not run: its bytes could not be decoded, or the
    /// run failed. `error` is the cause.
    Failed { error: String },
}

impl TxOutcome {
    /// The outcome of a transaction whose bytes did not decode, for the
    /// cause `cause`.
    pub fn not_decoded(cause: DecodeError) -> (outcome: TxOutcome)
        ensures
            outcome matches TxOutcome::Failed { error } && error@
                == "Error decoding a transaction from bytes: "@ + cause.message(),
    {
        TxOutcome::Failed {
            error: String::from_str("Error decoding a transaction from bytes: ").concat(
                cause.to_string().as_str(),
            ),
        }
    }
}

} // verus!
