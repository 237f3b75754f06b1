//! Errors of the client core.

use vstd::prelude::*;

use crate::felt::FeltError;

verus! {

/// Why a value of the Starknet core contract on L1 could not be had.
#[derive(Clone, Debug)]
pub enum L1ValueError {
    /// The L1 call failed, with the message of the L1 client.
    Call(String),
    /// The returned word is not a field element.
    Decode(FeltError),
}

/// Why a storage proof could not be had.
#[derive(Clone, Debug)]
pub enum StorageProofError {
    /// The HTTP client could not be built.
    Build(String),
    /// The proof request could not be sent.
    Request(String),
    /// The proof response could not be read.
    Response(String),
    /// The node answered with an error, given here as it was received.
    Rpc(String),
    /// The node answered with neither a proof nor an error.
    Undefined,
}

/// Errors of the client core.
#[derive(Clone, Debug)]
pub enum CoreError {
    /// A value of the core contract on L1 could not be had.
    FetchL1Val(L1ValueError),
    /// A storage proof could not be had.
    StorageProof(StorageProofError),
}

} // verus!
