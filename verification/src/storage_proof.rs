//! Storage proofs: the request that the client sends to the untrusted L2
//! node, and what it makes of the answer.

use vstd::prelude::*;

use crate::error::{CoreError, StorageProofError};
use crate::felt::{hex_value, lower_hex, Felt};
use crate::node::{spec_local_block_id, BlockId, NodeData};

verus! {

/// The parameters of a `pathfinder_getProof` request.
#[derive(Clone, Debug)]
pub struct ProofRequest {
    /// The block the proof is asked at.
    pub block_id: BlockId,
    /// The contract, in `0x` lowercase hexadecimal.
    pub contract_address: String,
    /// The storage keys, in `0x` lowercase hexadecimal.
    pub keys: Vec<String>,
}

/// The parameters of a request for the proof of `keys` in the storage of
/// `contract_address` at `block_id`: the block is the one that the node
/// answers at (see `NodeData::local_block_id`), and the address and keys are
/// written in `0x` lowercase hexadecimal.
pub fn proof_request(node: &NodeData, block_id: BlockId, contract_address: &Felt, keys: &[Felt]) -> (res:
    ProofRequest)
    ensures
        res.block_id == spec_local_block_id(node.l1_block_number, block_id),
        (block_id matches BlockId::Number(num) && num < node.l1_block_number) ==> res.block_id
            == block_id,
        !(block_id matches BlockId::Number(num) && num < node.l1_block_number) ==> res.block_id
            == BlockId::Number(node.l1_block_number),
        hex_value(res.contract_address@.skip(2)) == contract_address@,
        forall|i: int|
            0 <= i < keys@.len() ==> hex_value(#[trigger] res.keys@[i]@.skip(2)) == keys@[i]@,
        res.contract_address@ == lower_hex(contract_address@),
        res.keys@.len() == keys@.len(),
        forall|i: int| 0 <= i < keys@.len() ==> #[trigger] res.keys@[i]@ == lower_hex(keys@[i]@),
{
    let mut hex_keys: Vec<String> = Vec::new();
    let mut i: usize = 0;
    while i < keys.len()
        invariant
            i <= keys@.len(),
            hex_keys@.len() == i,
            forall|j: int| 0 <= j < i ==> #[trigger] hex_keys@[j]@ == lower_hex(keys@[j]@),
        decreases keys@.len() - i,
    {
        hex_keys.push(keys[i].to_lower_hex());
        i = i + 1;
    }
    let addr = contract_address.to_lower_hex();
    let block_id = node.local_block_id(block_id);
    proof {
        crate::felt::lemma_lower_hex_reads_back(contract_address@);
        assert forall|i: int| 0 <= i < keys@.len() implies hex_value(
            #[trigger] hex_keys@[i]@.skip(2),
        ) == keys@[i]@ by {
            crate::felt::lemma_lower_hex_reads_back(keys@[i]@);
        }
    }
    ProofRequest { block_id, contract_address: addr, keys: hex_keys }
}

/// The proof of an answer that holds one; otherwise the node's error, or
/// `Undefined` when the answer holds neither.
pub fn proof_from_response<P>(result: Option<P>, error: Option<String>) -> (res: Result<P, CoreError>)
    ensures
        result matches Some(p) ==> res == Ok::<P, CoreError>(p),
        result is None && error is Some ==> res == Err::<P, CoreError>(
            CoreError::StorageProof(StorageProofError::Rpc(error->Some_0)),
        ),
        result is None && error is None ==> res == Err::<P, CoreError>(
            CoreError::StorageProof(StorageProofError::Undefined),
        ),
{
    match result {
        Some(p) => Ok(p),
        None => match error {
            Some(e) => Err(CoreError::StorageProof(StorageProofError::Rpc(e))),
            None => Err(CoreError::StorageProof(StorageProofError::Undefined)),
        },
    }
}

} // verus!
