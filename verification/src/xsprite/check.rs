//! Telling at run time whether a mesh of sprites and its metadata belong together.
use vstd::prelude::*;
use crate::chunk::Dimensions;
use crate::mesh::Mesh;
use crate::xsprite::md::{SpriteRecord, XSpriteMD};
use crate::xsprite::update::product_fits;

verus! {

impl XSpriteMD {
    /// Whether `mesh` and the metadata belong together: what the updates of a mesh
    /// of sprites ask of the mesh and the metadata that are handed to them.
    pub fn is_consistent(&self, mesh: &Mesh) -> (r: bool)
        ensures
            r == self.consistent(*mesh),
    {
        let dims: Dimensions = self.dims;
        proof {
            let w = dims.x as int;
            let h = dims.y as int;
            let l = dims.z as int;
            assert(w * h <= 0xffff_ffff * 0xffff_ffff) by (nonlinear_arith)
                requires
                    0 <= w <= 0xffff_ffff,
                    0 <= h <= 0xffff_ffff,
            ;
            assert(w * h * l <= 0xffff_ffff * 0xffff_ffff * 0xffff_ffff) by (nonlinear_arith)
                requires
                    0 <= w * h <= 0xffff_ffff * 0xffff_ffff,
                    0 <= l <= 0xffff_ffff,
            ;
            if self.consistent(*mesh) {
                self.lemma_consistent_mesh_wf(*mesh);
            }
        }
        let volume: u128 = (dims.x as u128) * (dims.y as u128) * (dims.z as u128);
        let voxels: usize = self.vivi.len();
        if volume != voxels as u128 {
            return false;
        }
        let unit: usize = self.sprite_vertices;
        let count: usize = self.owners.len();
        let length: usize = self.sprite_indices;
        if unit == 0 && count != 0 {
            return false;
        }
        if mesh.attributes.len() == 0 || !mesh.is_wf() {
            return false;
        }
        let ghost s = self.state(*mesh);
        if !product_fits(unit, count) || !product_fits(length, count) {
            return false;
        }
        if mesh.count_vertices() != unit * count || mesh.indices.len() != length * count {
            proof {
                if self.consistent(*mesh) {
                    assert(s.columns[0].len() == unit * count);
                }
            }
            return false;
        }
        if length % 3 != 0 {
            return false;
        }
        // every sprite is recorded by its owner
        let mut j: usize = 0;
        while j < count
            invariant
                j <= count,
                count == self.owners@.len(),
                voxels == self.vivi@.len(),
                unit == self.sprite_vertices,
                length == self.sprite_indices,
                unit * count <= u32::MAX,
                length * count <= u32::MAX,
                forall|i: int| 0 <= i < j ==> #[trigger] self.owner_ok(i),
            decreases count - j,
        {
            let owner: usize = self.owners[j];
            if owner >= voxels {
                assert(!self.owner_ok(j as int));
                return false;
            }
            proof {
                self.lemma_record_of(j as int);
            }
            let record: SpriteRecord = self.vivi[owner];
            if record.0 != unit * j || record.1 != unit * j + unit || record.2 as usize != length
                * j || record.3 as usize != length * j + length {
                assert(!self.owner_ok(j as int));
                return false;
            }
            j = j + 1;
        }
        // every record is that of a sprite
        let mut v: usize = 0;
        while v < voxels
            invariant
                v <= voxels,
                count == self.owners@.len(),
                voxels == self.vivi@.len(),
                unit == self.sprite_vertices,
                length == self.sprite_indices,
                unit * count <= u32::MAX,
                length * count <= u32::MAX,
                forall|i: int| 0 <= i < count ==> #[trigger] self.owner_ok(i),
                forall|w: int| 0 <= w < v ==> #[trigger] self.record_ok(w),
            decreases voxels - v,
        {
            let record: SpriteRecord = self.vivi[v];
            if record.0 != 0 || record.1 != 0 || record.2 != 0 || record.3 != 0 {
                if unit == 0 {
                    assert(!self.record_ok(v as int));
                    return false;
                }
                let place: usize = record.0 / unit;
                if place >= count || self.owners[place] != v {
                    assert(!self.record_ok(v as int));
                    return false;
                }
                proof {
                    assert(self.owner_ok(place as int));
                }
            }
            v = v + 1;
        }
        let mut i: usize = 0;
        while i < mesh.indices.len()
            invariant
                i <= mesh.indices@.len(),
                s == self.state(*mesh),
                count == self.owners@.len(),
                unit == self.sprite_vertices,
                length == self.sprite_indices,
                mesh.indices@.len() == length * count,
                unit * count <= u32::MAX,
                forall|p: int|
                    0 <= p < i ==> #[trigger] s.index_ok(unit as nat, length as nat, p),
            decreases mesh.indices@.len() - i,
        {
            proof {
                let k = length as int;
                let n = i as int;
                assert(k > 0) by (nonlinear_arith)
                    requires
                        0 <= n < k * count,
                        k >= 0,
                        count >= 0,
                ;
                vstd::arithmetic::div_mod::lemma_fundamental_div_mod(n, k);
                vstd::arithmetic::div_mod::lemma_mod_pos_bound(n, k);
                vstd::arithmetic::div_mod::lemma_div_pos_is_pos(n, k);
                let q = n / k;
                assert(q < count) by (nonlinear_arith)
                    requires
                        n == k * q + n % k,
                        n % k >= 0,
                        n < k * count,
                        k > 0,
                ;
                assert(unit * q + unit <= unit * count) by (nonlinear_arith)
                    requires
                        q + 1 <= count,
                        unit >= 0,
                ;
            }
            let sprite: usize = i / length;
            let value: usize = mesh.indices[i] as usize;
            if value < unit * sprite || value >= unit * sprite + unit {
                assert(!s.index_ok(unit as nat, length as nat, i as int));
                return false;
            }
            i = i + 1;
        }
        proof {
            // no voxel owns two sprites
            assert forall|a: int, b: int|
                0 <= a < count && 0 <= b < count && a != b implies self.owners@[a]
                != self.owners@[b] by {
                assert(self.owner_ok(a));
                assert(self.owner_ok(b));
                self.lemma_record_of(a);
                self.lemma_record_of(b);
                if self.owners@[a] == self.owners@[b] {
                    assert(unit * a == unit * b);
                    assert(a == b) by (nonlinear_arith)
                        requires
                            unit * a == unit * b,
                            unit > 0,
                    ;
                }
            }
            assert forall|a: int| 0 <= a < count implies (#[trigger] self.owners@[a]) < voxels by {
                assert(self.owner_ok(a));
            }
            assert forall|a: int| 0 <= a < s.columns.len() implies (#[trigger] s.columns[a]).len()
                == unit * count by {
                assert(mesh.attributes@[a].values@.len() == mesh.spec_count_vertices());
            }
        }
        true
    }
}

} // verus!
