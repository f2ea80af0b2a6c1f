//! The events that tell what happened to a block.
use vstd::prelude::*;
use crate::chunk::{BlockGlobalPos, BlockPos, ChunkCords};
use crate::face::Face;

verus! {

/// The type of update that happened to a block.
#[derive(Clone, Copy, Debug, PartialEq, Eq, Structural, Hash)]
pub struct BlockUpdateType {
    pub id: u128,
}

/// Whether the update happened to the block itself or to an adjacent block.
#[derive(Clone, Copy, Debug)]
pub enum BlockUpdate {
    /// This block was updated.
    Pure(BlockUpdateType),
    /// A reaction to an adjacent block being updated. The face is the direction of
    /// said adjacent block.
    Reaction(Face, BlockUpdateType),
}

/// An event that is fired when a block is updated.
#[derive(Clone, Copy, Debug)]
pub struct BlockWorldUpdateEvent {
    pub block_pos: BlockPos,
    pub chunk_cords: ChunkCords,
    pub block_update: BlockUpdate,
}

/// The update type of a block that was removed.
pub const BLOCK_REMOVED_ID: u128 = 48124891481412311;

/// The update type of a block that was placed.
pub const BLOCK_PLACED_ID: u128 = 48124891481412312;

impl BlockUpdateType {
    pub fn from_u128(id: u128) -> (r: Self)
        ensures
            r.id == id,
    {
        Self { id }
    }

    pub fn is(&self, id: u128) -> (r: bool)
        ensures
            r == (self.id == id),
    {
        self.id == id
    }
}

impl BlockUpdate {
    /// Whether this block itself was updated, in a way that `predicate` accepts.
    pub fn is_pure_and<F>(&self, predicate: F) -> (r: bool) where F: Fn(BlockUpdateType) -> bool
        requires
            *self matches BlockUpdate::Pure(t) ==> call_requires(predicate, (t,)),
        ensures
            match *self {
                BlockUpdate::Pure(t) => call_ensures(predicate, (t,), r),
                BlockUpdate::Reaction(_, _) => !r,
            },
    {
        match self {
            BlockUpdate::Pure(block_update) => predicate(*block_update),
            _ => false,
        }
    }

    /// Whether an adjacent block was updated, in a way that `predicate` accepts.
    pub fn is_reaction_and<F>(&self, predicate: F) -> (r: bool) where
        F: Fn(Face, BlockUpdateType) -> bool,

        requires
            *self matches BlockUpdate::Reaction(f, t) ==> call_requires(predicate, (f, t)),
        ensures
            match *self {
                BlockUpdate::Pure(_) => !r,
                BlockUpdate::Reaction(f, t) => call_ensures(predicate, (f, t), r),
            },
    {
        match self {
            BlockUpdate::Reaction(face, block_update) => predicate(*face, *block_update),
            _ => false,
        }
    }
}

impl BlockWorldUpdateEvent {
    pub fn new(block_pos: BlockPos, chunk_cords: ChunkCords, block_update: BlockUpdate) -> (r: Self)
        ensures
            r.block_pos == block_pos,
            r.chunk_cords == chunk_cords,
            r.block_update == block_update,
    {
        Self { block_pos, chunk_cords, block_update }
    }

    pub fn block_pos(&self) -> (r: BlockPos)
        ensures
            r == self.block_pos,
    {
        self.block_pos
    }

    pub fn chunk_cords(&self) -> (r: ChunkCords)
        ensures
            r == self.chunk_cords,
    {
        self.chunk_cords
    }

    pub fn global_block_pos(&self) -> (r: BlockGlobalPos)
        ensures
            r == (BlockGlobalPos { pos: self.block_pos, cords: self.chunk_cords, valid: true }),
    {
        BlockGlobalPos::new(self.block_pos, self.chunk_cords)
    }

    pub fn block_update(&self) -> (r: BlockUpdate)
        ensures
            r == self.block_update,
    {
        self.block_update
    }
}

} // verus!
