use ledger_shell::address::Address;
use ledger_shell::error::{chain_id_mismatch_text, Error, Severity};
use ledger_shell::protocol::{TxResult, VpsResult};
use ledger_shell::storage::StorageError;
use ledger_shell::text::to_decimal;

fn result(gas_used: u64, rejected: &[&str]) -> TxResult {
    TxResult {
        gas_used,
        vps_result: VpsResult {
            accepted_vps: vec![Address::new("ok".to_string())],
            rejected_vps: rejected.iter().map(|a| Address::new(a.to_string())).collect(),
        },
    }
}

#[test]
fn decimal_of_small_and_large_numbers() {
    assert_eq!(to_decimal(0), "0");
    assert_eq!(to_decimal(7), "7");
    assert_eq!(to_decimal(10), "10");
    assert_eq!(to_decimal(1905), "1905");
    assert_eq!(to_decimal(1_000_000), "1000000");
    assert_eq!(to_decimal(u64::MAX), "18446744073709551615");
}

#[test]
fn accepted_result_text() {
    let r = result(12, &[]);
    assert!(r.is_accepted());
    assert_eq!(r.to_string(), "Transaction is valid. Gas used: 12;");
}

#[test]
fn rejected_result_text() {
    let r = result(340, &["alice"]);
    assert!(!r.is_accepted());
    assert_eq!(r.to_string(), "Transaction is invalid. Gas used: 340; VPs rejected: alice");
    let r = result(0, &["alice", "bob", "carol"]);
    assert_eq!(
        r.to_string(),
        "Transaction is invalid. Gas used: 0; VPs rejected: alice, bob, carol"
    );
}

#[test]
fn chain_mismatch_text() {
    assert_eq!(
        chain_id_mismatch_text("anoma-1", "other-2"),
        "Current chain ID: anoma-1, Tendermint chain ID: other-2"
    );
}

#[test]
fn error_texts() {
    assert_eq!(
        Error::RemoveDB("permission denied".to_string()).to_string(),
        "Error removing the DB data: permission denied"
    );
    assert_eq!(
        Error::ChainIdError("x".to_string()).to_string(),
        "chain ID mismatch: x"
    );
    assert_eq!(
        Error::TxDecodingError("invalid varint".to_string()).to_string(),
        "Error decoding a transaction from bytes: invalid varint"
    );
    assert_eq!(
        Error::TxError("out of gas".to_string()).to_string(),
        "Error trying to apply a transaction: out of gas"
    );
    assert_eq!(Error::Tendermint("node stopped".to_string()).to_string(), "node stopped");
    assert_eq!(
        Error::Storage(StorageError::UnexpectedHeight).to_string(),
        "Error in storage: the block height does not follow the last committed height"
    );
    assert_eq!(
        Error::Storage(StorageError::CorruptState).to_string(),
        "Error in storage: the stored root is not the root of the stored entries"
    );
}

#[test]
fn error_severities() {
    assert_eq!(Error::RemoveDB(String::new()).severity(), Severity::Fatal);
    assert_eq!(Error::ChainIdError(String::new()).severity(), Severity::Fatal);
    assert_eq!(Error::Tendermint(String::new()).severity(), Severity::Fatal);
    assert_eq!(Error::Storage(StorageError::UnexpectedHeight).severity(), Severity::Fatal);
    assert_eq!(Error::Storage(StorageError::CorruptState).severity(), Severity::Fatal);
    assert_eq!(Error::TxDecodingError(String::new()).severity(), Severity::Recoverable);
    assert_eq!(Error::TxError(String::new()).severity(), Severity::Recoverable);
}
