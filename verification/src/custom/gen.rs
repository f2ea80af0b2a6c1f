//! Wrapping a free-form mesh as the mesh of a block.
use vstd::prelude::*;
use crate::block_mesh::BlockMesh;
use crate::mesh::Mesh;

verus! {

/// A free-form mesh on its way to become the mesh of a block: wrap the mesh in
/// this struct and call [`MeshCaster::into_block_mesh`].
pub struct MeshCaster(pub Mesh);

impl MeshCaster {
    pub fn into_block_mesh(self) -> (r: BlockMesh)
        ensures
            r == BlockMesh::Custom(self.0),
    {
        BlockMesh::Custom(self.0)
    }
}

} // verus!
