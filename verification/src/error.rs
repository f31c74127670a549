//! The failures that the shell reports.

use vstd::prelude::*;
use vstd::string::*;
use crate::storage::StorageError;

verus! {

/// How a failure bears on the node.
#[derive(Clone, Copy, Debug, PartialEq, Eq, Structural)]
pub enum Severity {
    /// The node cannot go on: an operator has to step in.
    Fatal,
    /// Only the request at hand failed.
    Recoverable,
}

/// A failure of the shell. Each variant but the last carries the text of its
/// cause.
#[derive(Debug)]
pub enum Error {
    /// The database files could not be removed.
    RemoveDB(String),
    /// The chain of the request is not the chain of the store.
    ChainIdError(String),
    /// The bytes of a transaction could not be decoded.
    TxDecodingError(String),
    /// A transaction could not be applied.
    TxError(String),
    /// The consensus engine failed.
    Tendermint(String),
    /// Storage refused an operation.
    Storage(StorageError),
}

/// The text by which a storage failure is reported.
pub open spec fn storage_error_text(error: StorageError) -> Seq<char> {
    match error {
        StorageError::UnexpectedHeight =>
            "the block height does not follow the last committed height"@,
        StorageError::CorruptState => "the stored root is not the root of the stored entries"@,
    }
}

/// The cause of a chain mismatch, as text.
pub open spec fn chain_id_mismatch(current: Seq<char>, requested: Seq<char>) -> Seq<char> {
    "Current chain ID: "@ + current + ", Tendermint chain ID: "@ + requested
}

/// The cause of a chain mismatch, as text.
pub fn chain_id_mismatch_text(current: &str, requested: &str) -> (text: String)
    ensures
        text@ == chain_id_mismatch(current@, requested@),
{
    String::from_str("Current chain ID: ").concat(current).concat(", Tendermint chain ID: ").concat(
        requested,
    )
}

impl Error {
    /// The text by which the failure is reported.
    pub open spec fn message(&self) -> Seq<char> {
        match self {
            Error::RemoveDB(cause) => "Error removing the DB data: "@ + cause@,
            Error::ChainIdError(cause) => "chain ID mismatch: "@ + cause@,
            Error::TxDecodingError(cause) => "Error decoding a transaction from bytes: "@
                + cause@,
            Error::TxError(cause) => "Error trying to apply a transaction: "@ + cause@,
            Error::Tendermint(cause) => cause@,
            Error::Storage(error) => "Error in storage: "@ + storage_error_text(*error),
        }
    }

    /// How the failure bears on the node: a transaction that cannot be decoded
    /// or applied fails alone, every other failure stops the node.
    pub open spec fn spec_severity(&self) -> Severity {
        match self {
            Error::TxDecodingError(_) | Error::TxError(_) => Severity::Recoverable,
            _ => Severity::Fatal,
        }
    }

    /// The text by which the failure is reported.
    pub fn to_string(&self) -> (text: String)
        ensures
            text@ == self.message(),
    {
        match self {
            Error::RemoveDB(cause) => String::from_str("Error removing the DB data: ").concat(
                cause.as_str(),
            ),
            Error::ChainIdError(cause) => String::from_str("chain ID mismatch: ").concat(
                cause.as_str(),
            ),
            Error::TxDecodingError(cause) => String::from_str(
                "Error decoding a transaction from bytes: ",
            ).concat(cause.as_str()),
            Error::TxError(cause) => String::from_str(
                "Error trying to apply a transaction: ",
            ).concat(cause.as_str()),
            Error::Tendermint(cause) => cause.clone(),
            Error::Storage(error) => match error {
                StorageError::UnexpectedHeight => String::from_str("Error in storage: ").concat(
                    "the block height does not follow the last committed height",
                ),
                StorageError::CorruptState => String::from_str("Error in storage: ").concat(
                    "the stored root is not the root of the stored entries",
                ),
            },
        }
    }

    /// How the failure bears on the node.
    pub fn severity(&self) -> (severity: Severity)
        ensures
            severity == self.spec_severity(),
    {
        match self {
            Error::TxDecodingError(_) => Severity::Recoverable,
            Error::TxError(_) => Severity::Recoverable,
            _ => Severity::Fatal,
        }
    }
}

} // verus!
