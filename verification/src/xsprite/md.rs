//! The bookkeeping that ties the sprites of a merged mesh to their voxels.
use vstd::prelude::*;
use crate::chunk::{BlockId, BlockPos, Dimensions};
use crate::merge::{proto_column, proto_indices};
use crate::mesh::{AttributeId, Mesh, VertexValue};
use crate::BlockMeshChange;

verus! {

/// What a voxel records of its sprite: where its vertices start and end, and where
/// its indices start and end. A voxel without sprite records four zeros.
pub type SpriteRecord = (usize, usize, u32, u32);

/// For every voxel of the chunk the record of its sprite.
pub type XSpriteVIVI = Vec<SpriteRecord>;

/// A logged change of a block that is added or removed as a whole.
pub type BlockChange = (BlockMeshChange, BlockId, BlockPos);

/// A merged mesh of sprites as plain sequences.
pub struct SpriteState {
    /// The attribute columns.
    pub columns: Seq<Seq<VertexValue>>,
    /// The triangle indices.
    pub indices: Seq<u32>,
    /// The voxel of each sprite, in buffer order.
    pub owners: Seq<usize>,
}

/// A column without the `unit` values of sprite `j`: the last `unit` values take
/// their place, unless they are those values themselves.
pub open spec fn swap_remove_block(col: Seq<VertexValue>, j: int, unit: int) -> Seq<VertexValue> {
    Seq::new(
        (col.len() - unit) as nat,
        |i: int|
            if unit * j <= i < unit * j + unit {
                col[col.len() - unit + (i - unit * j)]
            } else {
                col[i]
            },
    )
}

/// An index list without the `length` indices of sprite `j`: the indices of the
/// sprite `last`, which stand at the end, take their place, unless they are those
/// indices themselves, and point at the vertices of the sprite in its new place.
pub open spec fn swap_remove_indices(indices: Seq<u32>, j: int, last: int, unit: int, length: int) -> Seq<
    u32,
> {
    Seq::new(
        (indices.len() - length) as nat,
        |i: int|
            if length * j <= i < length * j + length {
                (indices[length * last + (i - length * j)] - unit * last + unit * j) as u32
            } else {
                indices[i]
            },
    )
}

impl SpriteState {
    /// The index at place `i`, which is one of the `length` indices of a sprite,
    /// points at one of the `unit` vertices of that sprite.
    pub open spec fn index_ok(self, unit: nat, length: nat, i: int) -> bool {
        unit * (i / (length as int)) <= self.indices[i] < unit * (i / (length as int)) + unit
    }

    /// No voxel has two sprites, every sprite has `unit` vertices in every column
    /// and `length` indices, which make up triangles over its own vertices.
    pub open spec fn wf(self, unit: nat, length: nat, voxels: nat) -> bool {
        &&& self.owners.no_duplicates()
        &&& forall|j: int| 0 <= j < self.owners.len() ==> (#[trigger] self.owners[j]) < voxels
        &&& unit * self.owners.len() <= u32::MAX
        &&& length * self.owners.len() <= u32::MAX
        &&& length % 3 == 0
        &&& forall|a: int|
            0 <= a < self.columns.len() ==> (#[trigger] self.columns[a]).len() == unit
                * self.owners.len()
        &&& self.indices.len() == length * self.owners.len()
        &&& forall|i: int|
            0 <= i < self.indices.len() ==> #[trigger] self.index_ok(unit, length, i)
    }

    /// The state with the sprite of `voxel` at the end.
    pub open spec fn push(
        self,
        voxel: usize,
        proto: Mesh,
        ids: Seq<AttributeId>,
        offset: VertexValue,
    ) -> SpriteState {
        SpriteState {
            columns: Seq::new(
                self.columns.len(),
                |a: int| self.columns[a] + proto_column(proto, ids[a], offset),
            ),
            indices: self.indices + proto_indices(
                proto,
                (proto.spec_count_vertices() * self.owners.len()) as int,
            ),
            owners: self.owners.push(voxel),
        }
    }

    /// The state without sprite `j`: the last sprite takes its place, with its
    /// vertices and with its indices, which point at the vertices where they stand
    /// now.
    pub open spec fn remove(self, j: int, unit: nat, indices: nat) -> SpriteState {
        SpriteState {
            columns: Seq::new(
                self.columns.len(),
                |a: int| swap_remove_block(self.columns[a], j, unit as int),
            ),
            indices: swap_remove_indices(
                self.indices,
                j,
                self.owners.len() - 1,
                unit as int,
                indices as int,
            ),
            owners: self.owners.update(j, self.owners.last()).drop_last(),
        }
    }

    /// The place of the sprite of `voxel`, if it has one.
    pub open spec fn slot_of(self, voxel: usize) -> Option<int> {
        if self.owners.contains(voxel) {
            Some(choose|j: int| 0 <= j < self.owners.len() && self.owners[j] == voxel)
        } else {
            None
        }
    }

    /// The state without the sprite of `voxel`, if it had one.
    pub open spec fn remove_voxel(self, voxel: usize, unit: nat, indices: nat) -> SpriteState {
        match self.slot_of(voxel) {
            Some(j) => self.remove(j, unit, indices),
            None => self,
        }
    }
}

/// The index at place `t` of sprite `j` stands at place `length * j + t` of the
/// index list, and that place belongs to sprite `j`.
pub proof fn lemma_sprite_place(length: int, j: int, t: int)
    requires
        0 <= j,
        0 <= t < length,
    ensures
        (length * j + t) / length == j,
        length * j + t >= 0,
{
    assert(length * j + t == j * length + t) by (nonlinear_arith);
    assert(length * j >= 0) by (nonlinear_arith)
        requires
            length >= 0,
            j >= 0,
    ;
    vstd::arithmetic::div_mod::lemma_fundamental_div_mod_converse(length * j + t, length, j, t);
}

/// Mesh meta-data for a merged mesh of sprites. Holds all the information needed to
/// update the mesh at run-time.
pub struct XSpriteMD {
    /// The record of each voxel.
    pub vivi: XSpriteVIVI,
    /// The changes that wait to be applied.
    pub log: Vec<BlockChange>,
    pub dims: Dimensions,
    /// Number of vertices of one sprite. All sprites of a mesh are alike in this.
    pub sprite_vertices: usize,
    /// Number of indices of one sprite. All sprites of a mesh are alike in this.
    pub sprite_indices: usize,
    /// The voxel of each sprite of the mesh, in buffer order.
    pub owners: Vec<usize>,
}

impl XSpriteMD {
    /// The record that sprite `j` has in a mesh with these units.
    pub open spec fn record_of(self, j: int) -> SpriteRecord {
        (
            (self.sprite_vertices * j) as usize,
            (self.sprite_vertices * (j + 1)) as usize,
            (self.sprite_indices * j) as u32,
            (self.sprite_indices * (j + 1)) as u32,
        )
    }

    /// The voxel `v` records nothing, or the sprite that it owns.
    pub open spec fn record_ok(self, v: int) -> bool {
        let r = self.vivi@[v];
        ||| r == (0usize, 0usize, 0u32, 0u32)
        ||| {
            let j = (r.0 as int) / (self.sprite_vertices as int);
            &&& self.sprite_vertices > 0
            &&& 0 <= j < self.owners@.len()
            &&& self.owners@[j] == v
            &&& r == self.record_of(j)
        }
    }

    /// The owner of sprite `j` records it.
    pub open spec fn owner_ok(self, j: int) -> bool {
        &&& self.owners@[j] < self.vivi@.len()
        &&& self.vivi@[self.owners@[j] as int] == self.record_of(j)
    }

    /// The records agree with the owners of the sprites, for a chunk of the
    /// dimensions of the metadata.
    pub open spec fn wf(self) -> bool {
        &&& self.vivi@.len() == self.dims.volume()
        &&& (self.sprite_vertices > 0 || self.owners@.len() == 0)
        &&& forall|v: int| 0 <= v < self.vivi@.len() ==> #[trigger] self.record_ok(v)
        &&& forall|j: int| 0 <= j < self.owners@.len() ==> #[trigger] self.owner_ok(j)
    }

    /// The record of a sprite of a mesh in order holds the bounds of the sprite.
    pub proof fn lemma_record_of(self, j: int)
        requires
            0 <= j < self.owners@.len(),
            self.sprite_vertices * self.owners@.len() <= u32::MAX,
            self.sprite_indices * self.owners@.len() <= u32::MAX,
        ensures
            self.record_of(j).0 == self.sprite_vertices * j,
            self.record_of(j).1 == self.sprite_vertices * j + self.sprite_vertices,
            self.record_of(j).2 == self.sprite_indices * j,
            self.record_of(j).3 == self.sprite_indices * j + self.sprite_indices,
            self.record_of(j).1 <= self.sprite_vertices * self.owners@.len(),
            self.record_of(j).3 <= self.sprite_indices * self.owners@.len(),
            self.sprite_vertices > 0 ==> (self.sprite_vertices * j) / (self.sprite_vertices as int)
                == j,
            j < self.owners@.len() - 1 ==> self.record_of(j).1 <= self.sprite_vertices * (
            self.owners@.len() - 1),
            self.sprite_vertices * (self.owners@.len() - 1) == self.sprite_vertices
                * self.owners@.len() - self.sprite_vertices,
            self.sprite_indices * (self.owners@.len() - 1) == self.sprite_indices
                * self.owners@.len() - self.sprite_indices,
    {
        let unit = self.sprite_vertices as int;
        let k = self.sprite_indices as int;
        let count = self.owners@.len() as int;
        assert(unit * (j + 1) == unit * j + unit) by (nonlinear_arith);
        assert(k * (j + 1) == k * j + k) by (nonlinear_arith);
        assert(0 <= unit * j && unit * (j + 1) <= unit * count) by (nonlinear_arith)
            requires
                0 <= j,
                j + 1 <= count,
                unit >= 0,
        ;
        assert(0 <= k * j && k * (j + 1) <= k * count) by (nonlinear_arith)
            requires
                0 <= j,
                j + 1 <= count,
                k >= 0,
        ;
        if unit > 0 {
            assert((unit * j) / unit == j) by (nonlinear_arith)
                requires
                    unit > 0,
                    j >= 0,
            ;
        }
        if j < count - 1 {
            assert(unit * (j + 1) <= unit * (count - 1)) by (nonlinear_arith)
                requires
                    j + 1 <= count - 1,
                    unit >= 0,
            ;
        }
        assert(unit * (count - 1) == unit * count - unit) by (nonlinear_arith);
        assert(k * (count - 1) == k * count - k) by (nonlinear_arith);
    }

    /// The state that a mesh and this metadata stand for.
    pub open spec fn state(self, mesh: Mesh) -> SpriteState {
        SpriteState { columns: mesh.columns(), indices: mesh.indices@, owners: self.owners@ }
    }

    /// The metadata and `mesh` belong together.
    pub open spec fn consistent(self, mesh: Mesh) -> bool {
        &&& self.wf()
        &&& mesh.attributes@.len() > 0
        &&& mesh.ids().no_duplicates()
        &&& self.state(mesh).wf(
            self.sprite_vertices as nat,
            self.sprite_indices as nat,
            self.vivi@.len(),
        )
    }

    /// A mesh that belongs to its metadata is in order: all its attribute columns
    /// have the same length, its indices form triangles, and they point at its
    /// vertices.
    pub proof fn lemma_consistent_mesh_wf(self, mesh: Mesh)
        requires
            self.consistent(mesh),
        ensures
            mesh.wf(),
    {
        let s = self.state(mesh);
        let unit = self.sprite_vertices as int;
        let k = self.sprite_indices as int;
        let count = self.owners@.len() as int;
        assert(s.columns[0].len() == unit * count);
        assert forall|a: int| 0 <= a < mesh.attributes@.len() implies (
        #[trigger] mesh.attributes@[a]).values@.len() == mesh.spec_count_vertices() by {
            assert(s.columns[a].len() == unit * count);
        }
        let third = k / 3;
        vstd::arithmetic::div_mod::lemma_fundamental_div_mod(k, 3);
        assert(k * count == (third * count) * 3) by (nonlinear_arith)
            requires
                k == 3 * third,
        ;
        vstd::arithmetic::div_mod::lemma_mod_multiples_basic(third * count, 3);
        assert forall|i: int| 0 <= i < mesh.indices@.len() implies (#[trigger] mesh.indices@[i])
            < mesh.spec_count_vertices() by {
            assert(s.index_ok(unit as nat, self.sprite_indices as nat, i));
            assert(k > 0) by (nonlinear_arith)
                requires
                    0 <= i < k * count,
                    k >= 0,
                    count >= 0,
            ;
            vstd::arithmetic::div_mod::lemma_fundamental_div_mod(i, k);
            vstd::arithmetic::div_mod::lemma_mod_pos_bound(i, k);
            vstd::arithmetic::div_mod::lemma_div_pos_is_pos(i, k);
            let j = i / k;
            assert(j < count) by (nonlinear_arith)
                requires
                    i == k * j + i % k,
                    i % k >= 0,
                    i < k * count,
                    k > 0,
            ;
            assert(unit * j + unit <= unit * count) by (nonlinear_arith)
                requires
                    j + 1 <= count,
                    unit >= 0,
            ;
        }
    }

    /// Log a block break
    pub fn log_break(&mut self, block: BlockId, pos: BlockPos)
        ensures
            final(self).log@ == old(self).log@.push((BlockMeshChange::Broken, block, pos)),
            final(self).vivi == old(self).vivi,
            final(self).dims == old(self).dims,
            final(self).sprite_vertices == old(self).sprite_vertices,
            final(self).sprite_indices == old(self).sprite_indices,
            final(self).owners == old(self).owners,
    {
        self.log.push((BlockMeshChange::Broken, block, pos));
    }

    /// Log a block add
    pub fn log_add(&mut self, block: BlockId, pos: BlockPos)
        ensures
            final(self).log@ == old(self).log@.push((BlockMeshChange::Added, block, pos)),
            final(self).vivi == old(self).vivi,
            final(self).dims == old(self).dims,
            final(self).sprite_vertices == old(self).sprite_vertices,
            final(self).sprite_indices == old(self).sprite_indices,
            final(self).owners == old(self).owners,
    {
        self.log.push((BlockMeshChange::Added, block, pos));
    }
}

} // verus!
