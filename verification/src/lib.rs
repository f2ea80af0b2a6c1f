//! Meshing backend of a voxel world: chunk grids, merged chunk meshes with their
//! voxel-to-vertex bookkeeping, incremental updates, chunk stitching and static
//! smooth lighting.
use vstd::prelude::*;

pub mod adj;
pub mod block;
pub mod block_mesh;
pub mod chunk;
pub mod chunk_mesh;
pub mod cube;
pub mod custom;
pub mod dir;
pub mod face;
pub mod merge;
pub mod mesh;
pub mod mesh_reg;
pub mod sl;
pub mod update_event;
pub mod xsprite;

verus! {

/// The ways in which the mesh of a voxel can change.
#[derive(Clone, Copy, Debug, PartialEq, Eq, Structural)]
pub enum BlockMeshChange {
    /// The block was taken away.
    Broken,
    /// The block was put in place.
    Added,
    /// Quads of the block became hidden behind new neighbors.
    CullFaces,
    /// Quads of the block became visible again.
    AddFaces,
}

/// Why a mesh operation was refused.
#[derive(Clone, Copy, Debug, PartialEq, Eq, Structural)]
pub enum MeshError {
    /// A change names a position outside the chunk.
    OutOfBounds,
    /// The registry holds a prototype that cannot serve for the kind of mesh that
    /// is being built or updated.
    RegistryMismatch,
    /// A change does not agree with what the mesh holds: a face of a cube is to be
    /// shown that the voxel has a quad for already, a block is added where there is
    /// one or broken where there is none, or the mesh has no room for a block.
    InvariantViolation,
}

} // verus!
