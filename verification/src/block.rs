//! Block identifiers and the types that can stand for a block in a grid.
use vstd::prelude::*;
use crate::chunk::BlockId;

verus! {

/// A type that represents a block in a grid. It doesn't have to be the block itself,
/// just something that carries the unique id of the block type.
pub trait BlockInGrid: Copy + Sized {
    /// The id that the value carries.
    spec fn spec_id(&self) -> BlockId;

    fn id(&self) -> (r: BlockId)
        ensures
            r == self.spec_id(),
    ;

    fn from_id(id: BlockId) -> (r: Self)
        ensures
            r.spec_id() == id,
    ;

    fn into_id(self) -> (r: BlockId)
        ensures
            r == self.spec_id(),
    ;
}

/// A block in the grid, made up of an id alone.
#[derive(Clone, Copy, Debug, PartialEq, Eq, Structural, Hash)]
pub struct GridBlock {
    pub id: BlockId,
}

/// Name of a block type.
pub type BlockName = &'static str;

impl BlockInGrid for GridBlock {
    open spec fn spec_id(&self) -> BlockId {
        self.id
    }

    fn id(&self) -> (r: BlockId) {
        self.id
    }

    fn from_id(id: BlockId) -> (r: Self) {
        GridBlock { id }
    }

    fn into_id(self) -> (r: BlockId) {
        self.id
    }
}

impl BlockInGrid for BlockId {
    open spec fn spec_id(&self) -> BlockId {
        *self
    }

    fn id(&self) -> (r: BlockId) {
        *self
    }

    fn from_id(id: BlockId) -> (r: Self) {
        id
    }

    fn into_id(self) -> (r: BlockId) {
        self
    }
}

} // verus!
