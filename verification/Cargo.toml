[package]
name = "ledger_shell"
version = "0.1.0"
edition = "2021"
publish = false

[dependencies]
borsh = "=0.9.3"
itertools = "=0.10.5"
sha2 = "=0.10.9"
tendermint = "=0.40.4"
tendermint-proto = "=0.40.4"
thiserror = "=1.0.69"
tower = "=0.5.3"
tower-abci = "=0.19.1"
tracing = "=0.1.44"

[dev-dependencies]
prost = "=0.13.5"
