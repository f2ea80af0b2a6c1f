//! The three merged meshes of a chunk and their metadata under one roof.
use vstd::prelude::*;
use crate::block_mesh::BlockMeshType;
use crate::chunk::{BlockId, BlockPos, SurroundingBlocks};
use crate::cube::md::CubeMD;
use crate::custom::md::CustomMD;
use crate::xsprite::md::XSpriteMD;
use crate::BlockMeshChange;

verus! {

/// The kinds of merged mesh that a chunk has.
#[derive(Clone, Copy, Debug, PartialEq, Eq, Structural, Hash)]
pub enum ChunkMeshType {
    Cube,
    XSprite,
    Custom,
}

impl ChunkMeshType {
    /// The merged mesh that blocks with meshes of the given kind go to. Air, which
    /// has no geometry, counts to the cubes.
    pub open spec fn spec_from_block(mesh_type: BlockMeshType) -> ChunkMeshType {
        match mesh_type {
            BlockMeshType::XSprite => ChunkMeshType::XSprite,
            BlockMeshType::Custom => ChunkMeshType::Custom,
            _ => ChunkMeshType::Cube,
        }
    }

    pub fn from_block(mesh_type: BlockMeshType) -> (r: Self)
        ensures
            r == Self::spec_from_block(mesh_type),
    {
        match mesh_type {
            BlockMeshType::XSprite => ChunkMeshType::XSprite,
            BlockMeshType::Custom => ChunkMeshType::Custom,
            _ => ChunkMeshType::Cube,
        }
    }
}

impl From<BlockMeshType> for ChunkMeshType {
    fn from(mesh_type: BlockMeshType) -> (r: Self) {
        ChunkMeshType::from_block(mesh_type)
    }
}

impl vstd::std_specs::convert::FromSpecImpl<BlockMeshType> for ChunkMeshType {
    open spec fn obeys_from_spec() -> bool {
        true
    }

    open spec fn from_spec(mesh_type: BlockMeshType) -> Self {
        ChunkMeshType::spec_from_block(mesh_type)
    }
}

/// The metadata of one of the merged meshes of a chunk.
pub enum ChunkMeshMd {
    Cube(CubeMD),
    Xsprite(XSpriteMD),
    Custom(CustomMD),
}

impl ChunkMeshMd {
    /// The changes that wait in the log of a cube mesh.
    pub open spec fn cube_log(self) -> Seq<crate::cube::md::VoxelChange> {
        match self {
            ChunkMeshMd::Cube(md) => md.changed_voxels@,
            _ => Seq::empty(),
        }
    }

    /// The changes that wait in the log of a mesh of whole blocks.
    pub open spec fn block_log(self) -> Seq<crate::xsprite::md::BlockChange> {
        match self {
            ChunkMeshMd::Cube(_) => Seq::empty(),
            ChunkMeshMd::Xsprite(md) => md.log@,
            ChunkMeshMd::Custom(md) => md.log@,
        }
    }

    /// Logs that the block at `block_pos` was broken.
    pub fn log_block_break(
        &mut self,
        block_pos: BlockPos,
        block_id: BlockId,
        surrounding_blocks: SurroundingBlocks<BlockId>,
    )
        ensures
            final(self).cube_log() == (if *old(self) is Cube {
                old(self).cube_log().push(
                    (block_id, block_pos, BlockMeshChange::Broken, surrounding_blocks),
                )
            } else {
                old(self).cube_log()
            }),
            final(self).block_log() == (if *old(self) is Cube {
                old(self).block_log()
            } else {
                old(self).block_log().push((BlockMeshChange::Broken, block_id, block_pos))
            }),
    {
        match self {
            ChunkMeshMd::Cube(md) => md.log(
                BlockMeshChange::Broken,
                block_pos,
                block_id,
                surrounding_blocks,
            ),
            ChunkMeshMd::Xsprite(md) => md.log_break(block_id, block_pos),
            ChunkMeshMd::Custom(md) => md.log_break(block_id, block_pos),
        }
    }

    /// Logs that a block was placed at `block_pos`.
    pub fn log_block_add(
        &mut self,
        block_pos: BlockPos,
        placed_block_id: BlockId,
        surrounding_blocks: SurroundingBlocks<BlockId>,
    )
        ensures
            final(self).cube_log() == (if *old(self) is Cube {
                old(self).cube_log().push(
                    (placed_block_id, block_pos, BlockMeshChange::Added, surrounding_blocks),
                )
            } else {
                old(self).cube_log()
            }),
            final(self).block_log() == (if *old(self) is Cube {
                old(self).block_log()
            } else {
                old(self).block_log().push((BlockMeshChange::Added, placed_block_id, block_pos))
            }),
    {
        match self {
            ChunkMeshMd::Cube(md) => md.log(
                BlockMeshChange::Added,
                block_pos,
                placed_block_id,
                surrounding_blocks,
            ),
            ChunkMeshMd::Xsprite(md) => md.log_add(placed_block_id, block_pos),
            ChunkMeshMd::Custom(md) => md.log_add(placed_block_id, block_pos),
        }
    }

    /// Logs a change of the given kind. Only meshes of cubes take changes other
    /// than adding and breaking; the others leave it.
    pub fn update_block(
        &mut self,
        update_type: BlockMeshChange,
        block_pos: BlockPos,
        block_id: BlockId,
        surrounding_blocks: SurroundingBlocks<BlockId>,
    )
        ensures
            final(self).cube_log() == (if *old(self) is Cube {
                old(self).cube_log().push((block_id, block_pos, update_type, surrounding_blocks))
            } else {
                old(self).cube_log()
            }),
            final(self).block_log() == old(self).block_log(),
    {
        match self {
            ChunkMeshMd::Cube(md) => md.log(update_type, block_pos, block_id, surrounding_blocks),
            ChunkMeshMd::Xsprite(_) | ChunkMeshMd::Custom(_) => {},
        }
    }
}

} // verus!
