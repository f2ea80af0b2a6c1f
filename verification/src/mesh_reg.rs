//! The registry that tells the mesh of each block type.
use vstd::prelude::*;
use crate::block_mesh::{Aabb, BlockMesh, BlockMeshRef, BlockMeshType};
use crate::chunk::BlockId;
use crate::mesh::{
    AttributeId, VertexValue, ATTRIBUTE_COLOR, ATTRIBUTE_NORMAL, ATTRIBUTE_POSITION,
    ATTRIBUTE_UV_0, UNITS_PER_BLOCK,
};

verus! {

/// A registry of block meshes: it tells the kind and the prototype geometry of
/// every block type.
pub trait MeshRegistry {
    /// The mesh that the registry holds for `block`.
    spec fn block_mesh(&self, block: BlockId) -> BlockMesh;

    /// Returns a reference to the mesh of the block.
    fn get_block_mesh_ref(&self, block: &BlockId) -> (r: BlockMeshRef<'_>)
        ensures
            r.spec_owned() == self.block_mesh(*block),
    ;

    /// Returns the kind of the mesh of the block.
    fn get_block_mesh_type(&self, block: &BlockId) -> (r: BlockMeshType)
        ensures
            r == self.block_mesh(*block).spec_get_type(),
    ;
}

/// The extents of one block along the three axes.
pub open spec fn spec_block_dims() -> VertexValue {
    VertexValue { x: UNITS_PER_BLOCK, y: UNITS_PER_BLOCK, z: UNITS_PER_BLOCK, w: 0 }
}

/// The center of a prototype mesh.
pub open spec fn spec_block_center() -> VertexValue {
    VertexValue { x: 0, y: 0, z: 0, w: 0 }
}

/// The attributes that a merged mesh of cubes tracks.
pub open spec fn spec_all_attributes() -> Seq<AttributeId> {
    seq![ATTRIBUTE_POSITION, ATTRIBUTE_NORMAL, ATTRIBUTE_UV_0, ATTRIBUTE_COLOR]
}

/// The attributes that a merged mesh of free-form blocks tracks.
pub open spec fn spec_custom_attributes() -> Seq<AttributeId> {
    seq![ATTRIBUTE_POSITION, ATTRIBUTE_NORMAL, ATTRIBUTE_COLOR]
}

/// What every [`MeshRegistry`] offers on top of its own methods.
pub trait MeshRegistryCommon: MeshRegistry {
    /// Return the amount of vertices in a block mesh.
    fn get_block_mesh_vertex_count(&self, block: &BlockId) -> (r: usize)
        ensures
            r == match self.block_mesh(*block).spec_mesh() {
                Some(m) => m.spec_count_vertices(),
                None => 0,
            },
    ;

    /// Return the amount of indices in a block mesh.
    fn get_block_mesh_indices_len(&self, block: &BlockId) -> (r: usize)
        ensures
            r == match self.block_mesh(*block).spec_mesh() {
                Some(m) => m.indices@.len(),
                None => 0,
            },
    ;

    fn is_air(&self, block: &BlockId) -> (r: bool)
        ensures
            r == (self.block_mesh(*block).spec_get_type() == BlockMeshType::Air),
    ;

    fn is_custom(&self, block: &BlockId) -> (r: bool)
        ensures
            r == (self.block_mesh(*block).spec_get_type() == BlockMeshType::Custom),
    ;

    fn is_xsprite(&self, block: &BlockId) -> (r: bool)
        ensures
            r == (self.block_mesh(*block).spec_get_type() == BlockMeshType::XSprite),
    ;

    fn is_cube(&self, block: &BlockId) -> (r: bool)
        ensures
            r == (self.block_mesh(*block).spec_get_type() == BlockMeshType::Cube),
    ;

    fn get_default_mesh(&self) -> (r: BlockMeshRef<'static>)
        ensures
            r.spec_owned() == BlockMesh::Air,
    ;

    fn get_block_dims(&self) -> (r: VertexValue)
        ensures
            r == spec_block_dims(),
    ;

    fn get_block_center(&self) -> (r: VertexValue)
        ensures
            r == spec_block_center(),
    ;

    fn custom_attributes(&self) -> (r: Vec<AttributeId>)
        ensures
            r@ == spec_custom_attributes(),
    ;

    fn all_attributes(&self) -> (r: Vec<AttributeId>)
        ensures
            r@ == spec_all_attributes(),
    ;
}

impl<M: MeshRegistry> MeshRegistryCommon for M {
    fn get_block_mesh_vertex_count(&self, block: &BlockId) -> (r: usize) {
        self.get_block_mesh_ref(block).get_vertex_count()
    }

    fn get_block_mesh_indices_len(&self, block: &BlockId) -> (r: usize) {
        self.get_block_mesh_ref(block).get_indices_count()
    }

    fn is_air(&self, block: &BlockId) -> (r: bool) {
        self.get_block_mesh_ref(block).is_air()
    }

    fn is_custom(&self, block: &BlockId) -> (r: bool) {
        self.get_block_mesh_ref(block).is_custom()
    }

    fn is_xsprite(&self, block: &BlockId) -> (r: bool) {
        self.get_block_mesh_ref(block).is_xsprite()
    }

    fn is_cube(&self, block: &BlockId) -> (r: bool) {
        self.get_block_mesh_ref(block).is_cube()
    }

    fn get_default_mesh(&self) -> (r: BlockMeshRef<'static>) {
        BlockMeshRef::Air
    }

    fn get_block_dims(&self) -> (r: VertexValue) {
        VertexValue { x: UNITS_PER_BLOCK, y: UNITS_PER_BLOCK, z: UNITS_PER_BLOCK, w: 0 }
    }

    fn get_block_center(&self) -> (r: VertexValue) {
        VertexValue { x: 0, y: 0, z: 0, w: 0 }
    }

    fn custom_attributes(&self) -> (r: Vec<AttributeId>) {
        let mut r: Vec<AttributeId> = Vec::new();
        r.push(ATTRIBUTE_POSITION);
        r.push(ATTRIBUTE_NORMAL);
        r.push(ATTRIBUTE_COLOR);
        assert(r@ =~= spec_custom_attributes());
        r
    }

    fn all_attributes(&self) -> (r: Vec<AttributeId>) {
        let mut r: Vec<AttributeId> = Vec::new();
        r.push(ATTRIBUTE_POSITION);
        r.push(ATTRIBUTE_NORMAL);
        r.push(ATTRIBUTE_UV_0);
        r.push(ATTRIBUTE_COLOR);
        assert(r@ =~= spec_all_attributes());
        r
    }
}

/// The bounding box of the mesh of `block`.
pub fn get_block_mesh_aabb<M: MeshRegistry>(reg: &M, block: &BlockId) -> (r: Aabb)
    requires
        reg.block_mesh(*block).spec_has_aabb(),
    ensures
        match reg.block_mesh(*block).spec_mesh() {
            None => r == crate::block_mesh::spec_empty_aabb(),
            Some(m) => exists|a: int|
                0 <= a < m.attributes@.len() && (#[trigger] m.attributes@[a]).id
                    == ATTRIBUTE_POSITION && crate::block_mesh::spec_bounds(
                    m.attributes@[a].values@,
                    r,
                ),
        },
{
    reg.get_block_mesh_ref(block).get_aabb()
}

/// A registry that holds the mesh of block `id` at place `id` of a table. A block
/// past the end of the table is air.
pub struct MeshReg {
    pub meshes: Vec<BlockMesh>,
}

impl MeshReg {
    pub fn new() -> (r: Self)
        ensures
            r.meshes@.len() == 0,
    {
        Self { meshes: Vec::new() }
    }
}

impl MeshRegistry for MeshReg {
    open spec fn block_mesh(&self, block: BlockId) -> BlockMesh {
        if block < self.meshes@.len() {
            self.meshes@[block as int]
        } else {
            BlockMesh::Air
        }
    }

    fn get_block_mesh_ref(&self, block: &BlockId) -> (r: BlockMeshRef<'_>) {
        if (*block as usize) < self.meshes.len() {
            self.meshes[*block as usize].as_ref()
        } else {
            BlockMeshRef::Air
        }
    }

    fn get_block_mesh_type(&self, block: &BlockId) -> (r: BlockMeshType) {
        if (*block as usize) < self.meshes.len() {
            self.meshes[*block as usize].get_type()
        } else {
            BlockMeshType::Air
        }
    }
}

} // verus!
