//! The state that the client keeps of the Starknet chain, and what the
//! client answers from it.

use vstd::prelude::*;

use crate::felt::Felt;
use crate::sync::{LocalSyncState, UpdateType};

verus! {

/// A tag for a block that has no fixed number.
#[derive(Clone, Copy, Debug, PartialEq, Eq, Structural)]
pub enum BlockTag {
    /// The latest accepted block.
    Latest,
    /// The block being built.
    Pending,
}

/// How a request names a Starknet block.
#[derive(Clone, Copy, Debug)]
pub enum BlockId {
    /// By hash.
    Hash(Felt),
    /// By number.
    Number(u64),
    /// By tag.
    Tag(BlockTag),
}

/// How far a block has been verified.
#[derive(Clone, Copy, Debug, PartialEq, Eq, Structural)]
pub enum VerifiedBlock {
    /// Proven on L1, with its number.
    L1Verified(u64),
    /// Checked by this client, with its number.
    LocallyVerified(u64),
}

/// What the client knows of the chain.
#[derive(Clone, Copy, Debug)]
pub struct NodeData {
    /// The last state root read from the core contract on L1.
    pub l1_state_root: Felt,
    /// The number of the last block proven on L1.
    pub l1_block_number: u64,
    /// The last verified block.
    pub verified_block: VerifiedBlock,
    /// The root of the locally synchronised state.
    pub sync_root: Felt,
    /// The number of the locally synchronised block.
    pub sync_block_number: u64,
}

/// The block that a request is answered at: a block number below the last
/// one proven on L1 is kept, and any other block is answered at the last
/// proven block.
pub open spec fn spec_local_block_id(local_block_num: u64, provided: BlockId) -> BlockId {
    match provided {
        BlockId::Number(num) => if local_block_num > num {
            provided
        } else {
            BlockId::Number(local_block_num)
        },
        _ => BlockId::Number(local_block_num),
    }
}

/// The node data once it has taken in the state `state` of the
/// synchronisation.
pub open spec fn node_after_state(node: NodeData, state: LocalSyncState) -> NodeData {
    match state.type_ {
        UpdateType::L1Synchronized => NodeData {
            l1_block_number: state.block_number,
            l1_state_root: state.state_root,
            ..node
        },
        UpdateType::L2Unproven => NodeData {
            sync_block_number: state.block_number,
            sync_root: state.state_root,
            ..node
        },
        UpdateType::L2Verified => node,
    }
}

/// The node data once it has taken in `states` in turn.
pub open spec fn node_after_states(node: NodeData, states: Seq<LocalSyncState>) -> NodeData
    decreases states.len(),
{
    if states.len() == 0 {
        node
    } else {
        node_after_states(node_after_state(node, states[0]), states.drop_first())
    }
}

/// A block number below the last block proven on L1, however far below,
/// is answered at itself; any other block id (a number at or above it, a
/// hash, a tag) is answered at the last proven block.
pub proof fn lemma_local_block_id_keeps_history(local_block_num: u64, provided: BlockId)
    ensures
        (provided matches BlockId::Number(num) && num < local_block_num) ==> spec_local_block_id(
            local_block_num,
            provided,
        ) == provided,
        !(provided matches BlockId::Number(num) && num < local_block_num) ==> spec_local_block_id(
            local_block_num,
            provided,
        ) == BlockId::Number(local_block_num),
{
}

impl NodeData {
    /// The state of a client that has read nothing yet: zero roots, block
    /// numbers 0, and block 0 locally verified.
    pub fn new() -> (res: NodeData)
        ensures
            res.l1_state_root@ == 0,
            res.l1_block_number == 0,
            res.verified_block == VerifiedBlock::LocallyVerified(0),
            res.sync_root@ == 0,
            res.sync_block_number == 0,
    {
        NodeData {
            l1_state_root: Felt::zero(),
            l1_block_number: 0,
            verified_block: VerifiedBlock::LocallyVerified(0),
            sync_root: Felt::zero(),
            sync_block_number: 0,
        }
    }

    /// Records the last block proven on L1 and its state root.
    pub fn update(&mut self, l1_block_number: u64, l1_state_root: Felt)
        ensures
            final(self).l1_block_number == l1_block_number,
            final(self).l1_state_root == l1_state_root,
            final(self).verified_block == old(self).verified_block,
            final(self).sync_root == old(self).sync_root,
            final(self).sync_block_number == old(self).sync_block_number,
    {
        self.l1_block_number = l1_block_number;
        self.l1_state_root = l1_state_root;
    }

    /// Records the latest L2 block, not yet proven, as the local state.
    pub fn record_unproven(&mut self, block_number: u64, root: Felt)
        ensures
            final(self).sync_block_number == block_number,
            final(self).sync_root == root,
            final(self).l1_block_number == old(self).l1_block_number,
            final(self).l1_state_root == old(self).l1_state_root,
            final(self).verified_block == old(self).verified_block,
    {
        self.sync_block_number = block_number;
        self.sync_root = root;
    }

    /// Takes in one state of the synchronisation: a state synchronised
    /// from L1 becomes the last proven block and root; the latest L2 block
    /// becomes the local unproven state; a block verified on L2 changes
    /// nothing.
    pub fn apply_sync_state(&mut self, state: &LocalSyncState)
        ensures
            state.type_ == UpdateType::L1Synchronized ==> final(self).l1_block_number
                == state.block_number && final(self).l1_state_root == state.state_root
                && final(self).verified_block == old(self).verified_block
                && final(self).sync_root == old(self).sync_root
                && final(self).sync_block_number == old(self).sync_block_number,
            state.type_ == UpdateType::L2Unproven ==> final(self).sync_block_number
                == state.block_number && final(self).sync_root == state.state_root
                && final(self).l1_block_number == old(self).l1_block_number
                && final(self).l1_state_root == old(self).l1_state_root
                && final(self).verified_block == old(self).verified_block,
            state.type_ == UpdateType::L2Verified ==> *final(self) == *old(self),
            *final(self) == node_after_state(*old(self), *state),
    {
        match state.type_ {
            UpdateType::L1Synchronized => self.update(state.block_number, state.state_root),
            UpdateType::L2Unproven => self.record_unproven(state.block_number, state.state_root),
            UpdateType::L2Verified => {},
        }
    }

    /// The block at which a request for `provided` is answered.
    pub fn local_block_id(&self, provided: BlockId) -> (res: BlockId)
        ensures
            res == spec_local_block_id(self.l1_block_number, provided),
            res matches BlockId::Number(n) && n <= self.l1_block_number,
            (provided matches BlockId::Number(num) && num < self.l1_block_number) ==> res
                == provided,
            !(provided matches BlockId::Number(num) && num < self.l1_block_number) ==> res
                == BlockId::Number(self.l1_block_number),
    {
        let local_block_num = self.l1_block_number;
        match provided {
            BlockId::Number(num) => {
                if local_block_num > num {
                    provided
                } else {
                    BlockId::Number(local_block_num)
                }
            },
            _ => BlockId::Number(local_block_num),
        }
    }
}

impl Default for NodeData {
    fn default() -> (res: NodeData)
        ensures
            res.l1_state_root@ == 0,
            res.l1_block_number == 0,
            res.verified_block == VerifiedBlock::LocallyVerified(0),
            res.sync_root@ == 0,
            res.sync_block_number == 0,
    {
        NodeData::new()
    }
}

} // verus!
