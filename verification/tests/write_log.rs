use ledger_shell::key::Key;
use ledger_shell::storage::Storage;
use ledger_shell::write_log::{StorageModification, WriteLog};

fn key(path: &str) -> Key {
    Key::new(path.to_string())
}

fn written(log: &WriteLog, path: &str) -> Option<Option<Vec<u8>>> {
    match log.read(&key(path)) {
        Some(StorageModification::Write { value }) => Some(Some(value.clone())),
        Some(StorageModification::Delete) => Some(None),
        None => None,
    }
}

#[test]
fn empty_log_holds_nothing() {
    let log = WriteLog::default();
    assert_eq!(written(&log, "a"), None);
    assert!(log.is_block_empty());
}

#[test]
fn a_transaction_reads_its_own_writes() {
    let mut log = WriteLog::default();
    log.write(key("a"), vec![1]);
    assert_eq!(written(&log, "a"), Some(Some(vec![1])));
    log.write(key("a"), vec![2]);
    assert_eq!(written(&log, "a"), Some(Some(vec![2])));
    log.delete(key("a"));
    assert_eq!(written(&log, "a"), Some(None));
    assert_eq!(written(&log, "b"), None);
}

#[test]
fn the_transaction_layer_hides_the_block_layer() {
    let mut log = WriteLog::default();
    log.write(key("a"), vec![1]);
    log.commit_tx();
    assert_eq!(written(&log, "a"), Some(Some(vec![1])));
    log.write(key("a"), vec![2]);
    assert_eq!(written(&log, "a"), Some(Some(vec![2])));
    log.drop_tx();
    assert_eq!(written(&log, "a"), Some(Some(vec![1])));
}

#[test]
fn commit_tx_merges_into_the_block() {
    let mut log = WriteLog::default();
    log.write(key("a"), vec![1]);
    log.write(key("b"), vec![2]);
    log.commit_tx();
    assert!(!log.is_block_empty());
    log.write(key("b"), vec![3]);
    log.delete(key("a"));
    log.write(key("c"), vec![4]);
    log.commit_tx();
    assert_eq!(written(&log, "a"), Some(None));
    assert_eq!(written(&log, "b"), Some(Some(vec![3])));
    assert_eq!(written(&log, "c"), Some(Some(vec![4])));
    log.drop_tx();
    assert_eq!(written(&log, "b"), Some(Some(vec![3])));
}

#[test]
fn drop_tx_leaves_the_block_untouched() {
    let mut log = WriteLog::default();
    log.write(key("a"), vec![1]);
    log.drop_tx();
    assert_eq!(written(&log, "a"), None);
    assert!(log.is_block_empty());
}

#[test]
fn apply_makes_changes_in_order() {
    let mut log = WriteLog::default();
    log.apply(vec![
        (key("a"), StorageModification::Write { value: vec![1] }),
        (key("b"), StorageModification::Write { value: vec![2] }),
        (key("a"), StorageModification::Delete),
        (key("b"), StorageModification::Write { value: vec![5] }),
    ]);
    assert_eq!(written(&log, "a"), Some(None));
    assert_eq!(written(&log, "b"), Some(Some(vec![5])));
}

#[test]
fn commit_block_flushes_writes_and_deletes() {
    let mut storage = Storage::open("chain".to_string());
    storage.write(key("old"), vec![9]);
    storage.write(key("gone"), vec![8]);
    let mut log = WriteLog::default();
    log.write(key("new"), vec![1]);
    log.write(key("old"), vec![2]);
    log.delete(key("gone"));
    log.delete(key("never"));
    log.commit_tx();
    assert_eq!(storage.read(&key("new")), None);
    log.commit_block(&mut storage);
    assert!(log.is_block_empty());
    assert_eq!(storage.read(&key("new")), Some(&vec![1]));
    assert_eq!(storage.read(&key("old")), Some(&vec![2]));
    assert_eq!(storage.read(&key("gone")), None);
    assert_eq!(storage.read(&key("never")), None);
}

#[test]
fn commit_block_leaves_the_open_transaction() {
    let mut storage = Storage::open("chain".to_string());
    let mut log = WriteLog::default();
    log.write(key("a"), vec![1]);
    log.commit_block(&mut storage);
    assert_eq!(storage.read(&key("a")), None);
    assert_eq!(written(&log, "a"), Some(Some(vec![1])));
}

#[test]
fn a_clone_is_a_separate_log() {
    let mut log = WriteLog::default();
    log.write(key("a"), vec![1]);
    log.commit_tx();
    log.write(key("b"), vec![2]);
    let mut copy = log.clone();
    assert_eq!(written(&copy, "a"), Some(Some(vec![1])));
    assert_eq!(written(&copy, "b"), Some(Some(vec![2])));
    copy.write(key("a"), vec![7]);
    copy.commit_tx();
    assert_eq!(written(&log, "a"), Some(Some(vec![1])));
    assert_eq!(written(&copy, "a"), Some(Some(vec![7])));
}
