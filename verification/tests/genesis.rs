use ledger_shell::account::{Account, PublicKey};
use ledger_shell::address::Address;
use ledger_shell::genesis::{Genesis, Parameters, GENESIS_BALANCE};
use ledger_shell::key::Key;
use ledger_shell::storage::EpochDuration;
use ledger_shell::token::{Amount, MAX_WHOLE, SCALE};

fn account(name: &str, byte: u8) -> Account {
    Account {
        address: Address::new(name.to_string()),
        public_key: PublicKey::new([byte; 32]),
    }
}

fn genesis(users: &[(&str, u8)], tokens: &[&str]) -> Genesis {
    Genesis {
        tokens: tokens.iter().map(|t| Address::new(t.to_string())).collect(),
        users: users.iter().map(|(name, byte)| account(name, *byte)).collect(),
        matchmaker: account("matchmaker", 0xaa),
        token_vp: vec![b't'],
        user_vp: vec![b'u'],
        pos: vec![(Key::new("#pos/validators".to_string()), vec![1, 2])],
        ibc: vec![(Key::new("#ibc/clients".to_string()), vec![3])],
        parameters: Parameters {
            epoch_duration: EpochDuration { min_num_of_blocks: 10, min_duration: 3600 },
        },
    }
}

fn paths(writes: &[(Key, Vec<u8>)]) -> Vec<String> {
    writes.iter().map(|(k, _)| k.path().to_string()).collect()
}

const BALANCE: [u8; 8] = [0, 16, 165, 212, 232, 0, 0, 0];

#[test]
fn whole_amounts_are_scaled() {
    assert_eq!(SCALE, 1_000_000);
    assert_eq!(Amount::whole(0).micro(), 0);
    assert_eq!(Amount::whole(3).micro(), 3_000_000);
    assert_eq!(Amount::whole(GENESIS_BALANCE).micro(), 1_000_000_000_000);
    assert_eq!(Amount::whole(MAX_WHOLE).micro(), 18_446_744_073_709_000_000);
}

#[test]
fn amounts_are_stored_least_significant_byte_first() {
    assert_eq!(Amount::whole(0).try_to_vec(), vec![0u8; 8]);
    assert_eq!(
        Amount::whole(1).try_to_vec(),
        vec![0x40, 0x42, 0x0f, 0, 0, 0, 0, 0]
    );
    assert_eq!(Amount::whole(GENESIS_BALANCE).try_to_vec(), BALANCE.to_vec());
}

#[test]
fn public_keys_are_stored_as_their_bytes() {
    let mut bytes = [0u8; 32];
    for (i, b) in bytes.iter_mut().enumerate() {
        *b = i as u8;
    }
    assert_eq!(PublicKey::new(bytes).try_to_vec(), bytes.to_vec());
}

#[test]
fn genesis_writes_come_in_order() {
    let g = genesis(&[("alice", 1), ("bob", 2)], &["xan", "btc", "eth"]);
    assert!(g.fits());
    let writes = g.storage_writes();
    assert_eq!(
        paths(&writes),
        vec![
            "#xan/?",
            "#btc/?",
            "#eth/?",
            "#alice/?",
            "#xan/balance/#alice",
            "#alice/ed25519_pk",
            "#alice/?",
            "#btc/balance/#alice",
            "#alice/ed25519_pk",
            "#alice/?",
            "#eth/balance/#alice",
            "#alice/ed25519_pk",
            "#bob/?",
            "#xan/balance/#bob",
            "#bob/ed25519_pk",
            "#bob/?",
            "#btc/balance/#bob",
            "#bob/ed25519_pk",
            "#bob/?",
            "#eth/balance/#bob",
            "#bob/ed25519_pk",
            "#matchmaker/ed25519_pk",
            "#matchmaker/?",
            "#pos/validators",
            "#ibc/clients",
            "#parameters/epoch_duration",
        ]
    );
}

#[test]
fn genesis_writes_carry_the_values() {
    let g = genesis(&[("alice", 1)], &["xan"]);
    let writes = g.storage_writes();
    let values: Vec<Vec<u8>> = writes.into_iter().map(|(_, v)| v).collect();
    let mut duration = 10u64.to_le_bytes().to_vec();
    duration.extend_from_slice(&3600u64.to_le_bytes());
    assert_eq!(
        values,
        vec![
            vec![b't'],
            vec![b'u'],
            BALANCE.to_vec(),
            vec![1u8; 32],
            vec![0xaau8; 32],
            vec![b'u'],
            vec![1, 2],
            vec![3],
            duration,
        ]
    );
}

#[test]
fn genesis_without_users_or_tokens() {
    let g = genesis(&[], &["xan"]);
    assert!(g.fits());
    assert_eq!(
        paths(&g.storage_writes()),
        vec![
            "#xan/?",
            "#matchmaker/ed25519_pk",
            "#matchmaker/?",
            "#pos/validators",
            "#ibc/clients",
            "#parameters/epoch_duration",
        ]
    );
    let g = genesis(&[("alice", 1)], &[]);
    assert!(g.fits());
    assert_eq!(
        paths(&g.storage_writes()),
        vec![
            "#matchmaker/ed25519_pk",
            "#matchmaker/?",
            "#pos/validators",
            "#ibc/clients",
            "#parameters/epoch_duration",
        ]
    );
}

#[test]
fn genesis_of_the_default_accounts() {
    let users = [("alberto", 1u8), ("bertha", 2), ("christel", 3)];
    let tokens = ["xan", "btc", "eth", "dot", "schnitzel", "apfel", "kartoffel"];
    let g = genesis(&users, &tokens);
    let writes = g.storage_writes();
    assert_eq!(writes.len(), 7 + 3 * 7 * 3 + 2 + 1 + 1 + 1);
    // The pair at place 9 of the product is (bertha, eth).
    let at = 7 + 9 * 3;
    assert_eq!(writes[at].0.path(), "#bertha/?");
    assert_eq!(writes[at + 1].0.path(), "#eth/balance/#bertha");
    assert_eq!(writes[at + 1].1, BALANCE.to_vec());
    assert_eq!(writes[at + 2].0.path(), "#bertha/ed25519_pk");
    assert_eq!(writes[at + 2].1, vec![2u8; 32]);
}
