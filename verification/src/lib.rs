//! Verified core of a Starknet light client: field elements read from L1,
//! the local node state, and the decision logic of the L1/L2 synchronisation.

pub mod felt;
pub mod error;
pub mod core_contract;
pub mod node;
pub mod sync;
pub mod l2_client;
pub mod storage_proof;
