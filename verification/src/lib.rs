//! The block-execution core of a ledger node: the state machine that a
//! consensus engine drives through `init_chain`, `begin_block`, `apply_tx`,
//! `end_block` and `commit`, together with the layered write log, the block
//! gas meter and the key-value storage that the state machine owns.
//!
//! Every function of this library is verified against its contract. The few
//! calls into other crates stand behind wrappers whose contracts are assumed;
//! each of them says in its documentation what is assumed.

pub mod byte_vec;
pub mod address;
pub mod key;
pub mod keymap;
pub mod time;
pub mod gas;
pub mod digest;
pub mod storage;
pub mod write_log;
pub mod text;
pub mod token;
pub mod account;
pub mod error;
pub mod request;
pub mod response;
pub mod wire;
pub mod tx;
pub mod protocol;
pub mod genesis;
pub mod shell;
pub mod guarantees;

