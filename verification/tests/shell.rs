use ledger_shell::account::{Account, PublicKey};
use ledger_shell::address::Address;
use ledger_shell::error::{Error, Severity};
use ledger_shell::gas::BLOCK_GAS_LIMIT;
use ledger_shell::genesis::{Genesis, Parameters};
use ledger_shell::key::Key;
use ledger_shell::protocol::{TxOutcome, TxResult, VpsResult};
use ledger_shell::request;
use ledger_shell::response;
use ledger_shell::shell::{MempoolTxType, QueryAction, Shell};
use ledger_shell::storage::{EpochDuration, StorageError};
use ledger_shell::time::DateTimeUtc;
use ledger_shell::tx::Tx;
use ledger_shell::write_log::StorageModification;

fn key(path: &str) -> Key {
    Key::new(path.to_string())
}

fn time(seconds: i64) -> DateTimeUtc {
    DateTimeUtc::new(seconds, 0).unwrap()
}

fn account(name: &str, byte: u8) -> Account {
    Account {
        address: Address::new(name.to_string()),
        public_key: PublicKey::new([byte; 32]),
    }
}

fn genesis() -> Genesis {
    Genesis {
        tokens: vec![Address::new("xan".to_string()), Address::new("btc".to_string())],
        users: vec![account("alice", 1), account("bob", 2)],
        matchmaker: account("matchmaker", 9),
        token_vp: vec![b't'],
        user_vp: vec![b'u'],
        pos: vec![(key("#pos/validators"), vec![1])],
        ibc: vec![(key("#ibc/clients"), vec![2])],
        parameters: Parameters {
            epoch_duration: EpochDuration { min_num_of_blocks: 2, min_duration: 10 },
        },
    }
}

fn init(chain_id: &str) -> request::InitChain {
    request::InitChain { chain_id: chain_id.to_string(), time: time(1000), initial_height: 1 }
}

fn new_shell() -> Shell {
    Shell::new(None, "anoma-test".to_string()).unwrap()
}

fn started_shell() -> Shell {
    let mut shell = new_shell();
    assert!(shell.init_chain(init("anoma-test"), genesis()).is_ok());
    shell
}

fn write(path: &str, value: &[u8]) -> (Key, StorageModification) {
    (key(path), StorageModification::Write { value: value.to_vec() })
}

fn delete(path: &str) -> (Key, StorageModification) {
    (key(path), StorageModification::Delete)
}

fn applied(changes: Vec<(Key, StorageModification)>, gas_used: u64, rejected: &[&str]) -> TxOutcome {
    TxOutcome::Applied {
        changes,
        result: TxResult {
            gas_used,
            vps_result: VpsResult {
                accepted_vps: Vec::new(),
                rejected_vps: rejected.iter().map(|a| Address::new(a.to_string())).collect(),
            },
        },
    }
}

fn failed(error: &str) -> TxOutcome {
    TxOutcome::Failed { error: error.to_string() }
}

fn reads(shell: &Shell, paths: &[&str]) -> Vec<Option<Vec<u8>>> {
    paths.iter().map(|p| shell.read(&key(p))).collect()
}

fn stored(shell: &Shell, paths: &[&str]) -> Vec<Option<Vec<u8>>> {
    paths.iter().map(|p| shell.storage().read(&key(p)).cloned()).collect()
}

const WATCHED: [&str; 6] = ["a", "b", "c", "#alice/?", "#xan/balance/#alice", "#xan/?"];

#[test]
fn new_shell_is_uninitialized() {
    let shell = new_shell();
    assert!(matches!(shell.last_state(), response::Info::Uninitialized));
    assert_eq!(shell.gas_used(), 0);
    assert!(shell.write_log().is_block_empty());
    assert_eq!(shell.storage().get_chain_id(), "anoma-test");
    assert_eq!(shell.read(&key("a")), None);
}

#[test]
fn init_chain_seeds_storage() {
    let mut shell = new_shell();
    let response = shell.init_chain(init("anoma-test"), genesis());
    assert_eq!(response.unwrap(), response::InitChain {});
    let storage = shell.storage();
    assert_eq!(storage.read(&key("#xan/?")), Some(&vec![b't']));
    assert_eq!(storage.read(&key("#btc/?")), Some(&vec![b't']));
    assert_eq!(storage.read(&key("#alice/?")), Some(&vec![b'u']));
    assert_eq!(storage.read(&key("#bob/?")), Some(&vec![b'u']));
    assert_eq!(
        storage.read(&key("#btc/balance/#bob")),
        Some(&vec![0, 16, 165, 212, 232, 0, 0, 0])
    );
    assert_eq!(storage.read(&key("#alice/ed25519_pk")), Some(&vec![1u8; 32]));
    assert_eq!(storage.read(&key("#matchmaker/ed25519_pk")), Some(&vec![9u8; 32]));
    assert_eq!(storage.read(&key("#matchmaker/?")), Some(&vec![b'u']));
    assert_eq!(storage.read(&key("#pos/validators")), Some(&vec![1]));
    assert_eq!(storage.read(&key("#ibc/clients")), Some(&vec![2]));
    assert!(storage.has_key(&key("#parameters/epoch_duration")));
    assert_eq!(storage.current_height(), 1);
    assert_eq!(storage.current_epoch(), 0);
    assert_eq!(storage.expected_height(), Some(1));
    // The genesis goes to storage, not to the write log.
    assert!(shell.write_log().is_block_empty());
    assert!(matches!(shell.last_state(), response::Info::Uninitialized));
}

#[test]
fn init_chain_refuses_another_chain() {
    let mut shell = new_shell();
    let empty_root = shell.storage().merkle_root();
    let result = shell.init_chain(init("other-chain"), genesis());
    match result {
        Err(Error::ChainIdError(cause)) => {
            assert_eq!(cause, "Current chain ID: anoma-test, Tendermint chain ID: other-chain");
        }
        other => panic!("unexpected result: {:?}", other),
    }
    // Nothing was written.
    assert_eq!(shell.storage().merkle_root(), empty_root);
    assert_eq!(shell.storage().read(&key("#xan/?")), None);
    assert_eq!(shell.storage().current_height(), 0);
    assert_eq!(shell.storage().expected_height(), Some(1));
}

#[test]
fn chain_id_error_is_fatal() {
    let mut shell = new_shell();
    let error = shell.init_chain(init("x"), genesis()).unwrap_err();
    assert_eq!(error.severity(), Severity::Fatal);
    assert_eq!(
        error.to_string(),
        "chain ID mismatch: Current chain ID: anoma-test, Tendermint chain ID: x"
    );
}

#[test]
fn init_chain_at_another_height() {
    let mut shell = new_shell();
    let request =
        request::InitChain { chain_id: "anoma-test".to_string(), time: time(5), initial_height: 42 };
    assert!(shell.init_chain(request, genesis()).is_ok());
    assert_eq!(shell.storage().expected_height(), Some(42));
    assert!(shell.begin_block(vec![], 1, time(6)).is_err());
    assert!(shell.begin_block(vec![], 42, time(6)).is_ok());
}

#[test]
fn begin_block_resets_gas() {
    let mut shell = started_shell();
    assert!(shell.begin_block(vec![1], 1, time(1001)).is_ok());
    shell.apply_tx(applied(vec![], 50, &[]));
    assert_eq!(shell.gas_used(), 50);
    shell.end_block(1);
    assert_eq!(shell.gas_used(), 50);
    shell.commit();
    assert_eq!(shell.gas_used(), 50);
    assert!(shell.begin_block(vec![2], 2, time(1002)).is_ok());
    assert_eq!(shell.gas_used(), 0);
}

#[test]
fn begin_block_refuses_a_wrong_height() {
    let mut shell = started_shell();
    assert!(shell.begin_block(vec![1], 1, time(1001)).is_ok());
    shell.apply_tx(applied(vec![write("a", &[1])], 50, &[]));
    shell.commit();
    shell.apply_tx(applied(vec![write("b", &[1])], 70, &[]));
    let before = reads(&shell, &WATCHED);
    let result = shell.begin_block(vec![2], 3, time(1002));
    match result {
        Err(Error::Storage(StorageError::UnexpectedHeight)) => {}
        other => panic!("unexpected result: {:?}", other),
    }
    // Nothing changed, the gas neither.
    assert_eq!(shell.gas_used(), 120);
    assert_eq!(shell.storage().current_height(), 1);
    assert_eq!(reads(&shell, &WATCHED), before);
}

#[test]
fn begin_block_advances_the_epoch() {
    let mut shell = started_shell();
    assert!(shell.begin_block(vec![], 1, time(1001)).is_ok());
    assert_eq!(shell.storage().current_epoch(), 0);
    shell.commit();
    assert!(shell.begin_block(vec![], 2, time(1005)).is_ok());
    assert_eq!(shell.storage().current_epoch(), 0);
    shell.commit();
    assert!(shell.begin_block(vec![], 3, time(1010)).is_ok());
    assert_eq!(shell.storage().current_epoch(), 1);
    assert_eq!(shell.storage().current_height(), 3);
}

#[test]
fn accepted_tx_joins_the_block() {
    let mut shell = started_shell();
    assert!(shell.begin_block(vec![], 1, time(1001)).is_ok());
    let response = shell.apply_tx(applied(
        vec![write("a", &[1]), write("b", &[2]), delete("#xan/?")],
        10,
        &[],
    ));
    assert_eq!(response.code, 0);
    assert_eq!(response.gas_used, 10);
    assert_eq!(response.info, "Transaction is valid. Gas used: 10;");
    assert_eq!(shell.read(&key("a")), Some(vec![1]));
    assert_eq!(shell.read(&key("b")), Some(vec![2]));
    assert_eq!(shell.read(&key("#xan/?")), None);
    assert_eq!(shell.gas_used(), 10);
}

#[test]
fn rejected_tx_leaves_no_trace() {
    let mut shell = started_shell();
    assert!(shell.begin_block(vec![], 1, time(1001)).is_ok());
    shell.apply_tx(applied(vec![write("a", &[1])], 10, &[]));
    let before_reads = reads(&shell, &WATCHED);
    let before_stored = stored(&shell, &WATCHED);
    let before_root = shell.storage().merkle_root();
    let response = shell.apply_tx(applied(
        vec![write("a", &[7]), write("c", &[8]), delete("#alice/?")],
        25,
        &["alice", "xan"],
    ));
    assert_eq!(response.code, 1);
    assert_eq!(response.gas_used, 25);
    assert_eq!(
        response.info,
        "Transaction is invalid. Gas used: 25; VPs rejected: alice, xan"
    );
    assert_eq!(reads(&shell, &WATCHED), before_reads);
    assert_eq!(stored(&shell, &WATCHED), before_stored);
    assert_eq!(shell.storage().merkle_root(), before_root);
    // The gas is charged all the same.
    assert_eq!(shell.gas_used(), 35);
}

#[test]
fn failed_tx_reports_the_gas_of_the_block() {
    let mut shell = started_shell();
    assert!(shell.begin_block(vec![], 1, time(1001)).is_ok());
    shell.apply_tx(applied(vec![write("a", &[1])], 10, &[]));
    let before = reads(&shell, &WATCHED);
    let response = shell.apply_tx(failed("invalid varint"));
    assert_eq!(response.code, 1);
    assert_eq!(response.gas_used, 10);
    assert_eq!(response.info, "Error trying to apply a transaction: invalid varint");
    assert_eq!(shell.gas_used(), 10);
    assert_eq!(reads(&shell, &WATCHED), before);
}

#[test]
fn tx_over_the_gas_limit_is_dropped() {
    let mut shell = started_shell();
    assert!(shell.begin_block(vec![], 1, time(1001)).is_ok());
    shell.apply_tx(applied(vec![write("a", &[1])], BLOCK_GAS_LIMIT - 5, &[]));
    let before = reads(&shell, &WATCHED);
    let response = shell.apply_tx(applied(vec![write("a", &[2])], 6, &[]));
    assert_eq!(response.code, 1);
    assert_eq!(response.gas_used, 5);
    assert_eq!(
        response.info,
        "Error trying to apply a transaction: Block gas limit exceeded"
    );
    assert_eq!(shell.gas_used(), BLOCK_GAS_LIMIT);
    assert_eq!(reads(&shell, &WATCHED), before);
    // A transaction that fits exactly is taken.
    let mut shell = started_shell();
    shell.apply_tx(applied(vec![], BLOCK_GAS_LIMIT - 5, &[]));
    let response = shell.apply_tx(applied(vec![write("a", &[2])], 5, &[]));
    assert_eq!(response.code, 0);
    assert_eq!(shell.read(&key("a")), Some(vec![2]));
    // And the largest gas there is does not overflow.
    let response = shell.apply_tx(applied(vec![write("a", &[3])], u64::MAX, &[]));
    assert_eq!(response.code, 1);
    assert_eq!(response.gas_used, 0);
    assert_eq!(shell.read(&key("a")), Some(vec![2]));
}

#[test]
fn block_changes_reach_storage_at_commit() {
    let mut shell = started_shell();
    assert!(shell.begin_block(vec![], 1, time(1001)).is_ok());
    shell.apply_tx(applied(vec![write("a", &[1]), delete("#xan/?")], 10, &[]));
    // A later transaction of the block sees the change, storage does not.
    assert_eq!(shell.read(&key("a")), Some(vec![1]));
    assert_eq!(shell.read(&key("#xan/?")), None);
    assert_eq!(shell.storage().read(&key("a")), None);
    assert_eq!(shell.storage().read(&key("#xan/?")), Some(&vec![b't']));
    shell.apply_tx(applied(vec![write("b", &[2])], 10, &[]));
    shell.end_block(1);
    assert_eq!(shell.storage().read(&key("a")), None);
    shell.commit();
    assert_eq!(shell.storage().read(&key("a")), Some(&vec![1]));
    assert_eq!(shell.storage().read(&key("b")), Some(&vec![2]));
    assert_eq!(shell.storage().read(&key("#xan/?")), None);
    assert_eq!(shell.read(&key("a")), Some(vec![1]));
    assert!(shell.write_log().is_block_empty());
}

#[test]
fn commit_returns_the_new_root() {
    let mut shell = started_shell();
    let genesis_root = shell.storage().merkle_root();
    assert!(shell.begin_block(vec![], 1, time(1001)).is_ok());
    shell.apply_tx(applied(vec![write("a", &[1])], 10, &[]));
    let response = shell.commit();
    assert_eq!(response.data.len(), 32);
    assert_ne!(response.data, genesis_root);
    assert_eq!(response.data, shell.storage().merkle_root());
    match shell.last_state() {
        response::Info::Committed { last_block_app_hash, last_block_height } => {
            assert_eq!(last_block_app_hash, response.data);
            assert_eq!(last_block_height, 1);
        }
        other => panic!("unexpected state: {:?}", other),
    }
}

#[test]
fn commit_of_an_empty_block_keeps_the_root() {
    let mut shell = started_shell();
    assert!(shell.begin_block(vec![], 1, time(1001)).is_ok());
    shell.apply_tx(applied(vec![write("a", &[1])], 10, &[]));
    shell.end_block(1);
    let first = shell.commit();
    assert!(shell.begin_block(vec![], 2, time(1002)).is_ok());
    shell.end_block(2);
    let second = shell.commit();
    assert_eq!(first.data, second.data);
    // A block of rejected transactions only is empty too.
    assert!(shell.begin_block(vec![], 3, time(1003)).is_ok());
    shell.apply_tx(applied(vec![write("a", &[2])], 10, &["alice"]));
    shell.apply_tx(failed("no code"));
    let third = shell.commit();
    assert_eq!(first.data, third.data);
    match shell.last_state() {
        response::Info::Committed { last_block_height, .. } => assert_eq!(last_block_height, 3),
        other => panic!("unexpected state: {:?}", other),
    }
}

#[test]
fn two_nodes_reach_the_same_roots() {
    let mut a = started_shell();
    let mut b = started_shell();
    let mut roots_a = Vec::new();
    let mut roots_b = Vec::new();
    for height in 1..4u64 {
        for shell_and_roots in [(&mut a, &mut roots_a), (&mut b, &mut roots_b)] {
            let (shell, roots) = shell_and_roots;
            assert!(shell.begin_block(vec![height as u8], height, time(1000 + height as i64)).is_ok());
            shell.apply_tx(applied(vec![write("a", &[height as u8])], 10, &[]));
            shell.apply_tx(applied(vec![write("b", &[0])], 10, &["bob"]));
            shell.apply_tx(applied(vec![delete("#btc/?"), write("c", &[1, 2])], 10, &[]));
            shell.end_block(height);
            roots.push(shell.commit().data);
        }
    }
    assert_eq!(roots_a, roots_b);
    assert_ne!(roots_a[0], roots_a[1]);
}

#[test]
fn gas_never_goes_down_within_a_block() {
    let mut shell = started_shell();
    assert!(shell.begin_block(vec![], 1, time(1001)).is_ok());
    let outcomes = vec![
        applied(vec![], 5, &[]),
        applied(vec![], 7, &["alice"]),
        failed("broken"),
        applied(vec![], 0, &[]),
        applied(vec![], BLOCK_GAS_LIMIT, &[]),
        applied(vec![], 3, &[]),
    ];
    let mut seen = vec![shell.gas_used()];
    for outcome in outcomes {
        shell.apply_tx(outcome);
        seen.push(shell.gas_used());
    }
    assert_eq!(
        seen,
        vec![0, 5, 12, 12, 12, BLOCK_GAS_LIMIT, BLOCK_GAS_LIMIT]
    );
}

#[test]
fn end_block_changes_nothing() {
    let mut shell = started_shell();
    assert!(shell.begin_block(vec![], 1, time(1001)).is_ok());
    shell.apply_tx(applied(vec![write("a", &[1])], 10, &[]));
    let before = reads(&shell, &WATCHED);
    assert_eq!(shell.end_block(1), response::EndBlock {});
    assert_eq!(reads(&shell, &WATCHED), before);
    assert_eq!(shell.gas_used(), 10);
}

#[test]
fn query_routes_by_path() {
    let shell = started_shell();
    let dry_run = request::Query { path: "dry_run_tx".to_string(), data: vec![1, 2] };
    assert!(matches!(shell.query(&dry_run), QueryAction::DryRunTx));
    for path in ["", "dry_run", "dry_run_tx/", "value/#alice"] {
        let query = request::Query { path: path.to_string(), data: Vec::new() };
        match shell.query(&query) {
            QueryAction::Respond(response) => {
                assert_eq!(response.code, 0);
                assert_eq!(response.log, "");
                assert_eq!(response.info, "");
            }
            other => panic!("unexpected action: {:?}", other),
        }
    }
}

#[test]
fn dry_run_reports_and_applies_nothing() {
    let mut shell = started_shell();
    assert!(shell.begin_block(vec![], 1, time(1001)).is_ok());
    shell.apply_tx(applied(vec![write("a", &[1])], 10, &[]));
    let before_reads = reads(&shell, &WATCHED);
    let before_stored = stored(&shell, &WATCHED);
    let outcome = applied(vec![write("a", &[5]), write("c", &[6])], 77, &[]);
    let response = shell.dry_run_tx(&outcome);
    assert_eq!(response.code, 0);
    assert_eq!(response.log, "");
    assert_eq!(response.info, "Transaction is valid. Gas used: 77;");
    assert_eq!(reads(&shell, &WATCHED), before_reads);
    assert_eq!(stored(&shell, &WATCHED), before_stored);
    assert_eq!(shell.gas_used(), 10);
    // Applying it for real reports the same.
    let real = shell.apply_tx(outcome);
    assert_eq!(real.code, response.code);
    assert_eq!(real.info, response.info);
    assert_eq!(real.gas_used, 77);
}

#[test]
fn dry_run_of_a_rejected_or_failed_tx() {
    let shell = started_shell();
    let response = shell.dry_run_tx(&applied(vec![], 3, &["bob"]));
    assert_eq!(response.code, 0);
    assert_eq!(response.info, "Transaction is invalid. Gas used: 3; VPs rejected: bob");
    let response = shell.dry_run_tx(&failed("no timestamp"));
    assert_eq!(response.code, 1);
    assert_eq!(response.log, "Error trying to apply a transaction: no timestamp");
    assert_eq!(response.info, "");
    let response = shell.dry_run_tx(&applied(vec![], BLOCK_GAS_LIMIT + 1, &[]));
    assert_eq!(response.code, 1);
    assert_eq!(response.log, "Error trying to apply a transaction: Block gas limit exceeded");
}

#[test]
fn shell_starts_from_a_kept_state() {
    let mut shell = started_shell();
    assert!(shell.begin_block(vec![4], 1, time(1001)).is_ok());
    shell.apply_tx(applied(vec![write("a", &[1])], 10, &[]));
    let root = shell.commit().data;
    let kept = shell.storage().last_state().unwrap();
    let mut restarted = Shell::new(Some(kept), "anoma-test".to_string()).unwrap();
    match restarted.last_state() {
        response::Info::Committed { last_block_app_hash, last_block_height } => {
            assert_eq!(last_block_app_hash, root);
            assert_eq!(last_block_height, 1);
        }
        other => panic!("unexpected state: {:?}", other),
    }
    assert_eq!(restarted.read(&key("a")), Some(vec![1]));
    assert_eq!(restarted.gas_used(), 0);
    assert!(restarted.begin_block(vec![5], 2, time(1002)).is_ok());
    assert_eq!(restarted.commit().data, root);
}

#[test]
fn shell_refuses_a_corrupt_state() {
    let mut shell = started_shell();
    assert!(shell.begin_block(vec![4], 1, time(1001)).is_ok());
    shell.commit();
    let mut kept = shell.storage().last_state().unwrap();
    kept.entries.push((key("smuggled"), vec![1]));
    match Shell::new(Some(kept), "anoma-test".to_string()) {
        Err(Error::Storage(StorageError::CorruptState)) => {}
        other => panic!("unexpected result: {:?}", other.map(|_| ())),
    }
}

#[test]
fn tx_that_does_not_decode_is_a_failed_tx() {
    let mut shell = started_shell();
    let cause = Tx::try_from(&[0x0a, 0x05, 1]).unwrap_err();
    let response = shell.apply_tx(TxOutcome::not_decoded(cause));
    assert_eq!(response.code, 1);
    assert_eq!(response.gas_used, 0);
    assert_eq!(
        response.info,
        "Error trying to apply a transaction: Error decoding a transaction from bytes: buffer underflow"
    );
}

#[test]
fn mempool_tx_types_differ() {
    assert_ne!(MempoolTxType::NewTransaction, MempoolTxType::RecheckTransaction);
}
