//! Telling at run time whether a mesh and its metadata belong together.
use vstd::prelude::*;
use crate::chunk::Dimensions;
use crate::cube::md::{CubeMD, CubeVIVI, QuadEntry};
use crate::cube::state::{cube_consistent, state_of};
use crate::mesh::Mesh;

verus! {

impl CubeVIVI {
    /// Whether the two tables agree and no slot is vacant.
    pub fn is_wf(&self) -> (r: bool)
        ensures
            r == self.wf(),
    {
        let quads: usize = self.map.len();
        if quads > 0x3fff_ffff {
            return false;
        }
        let mut k: usize = 0;
        while k < quads
            invariant
                k <= quads,
                quads <= 0x3fff_ffff,
                quads == self.map@.len(),
                forall|j: int| 0 <= j < k ==> #[trigger] self.slot_ok(None, j),
            decreases quads - k,
        {
            match self.map[k] {
                None => {
                    assert(!self.slot_ok(None, k as int));
                    return false;
                },
                Some(o) => {
                    if o.voxel >= self.vivi.len() {
                        assert(!self.slot_ok(None, k as int));
                        return false;
                    }
                    let list = &self.vivi[o.voxel];
                    let wanted = QuadEntry { face: o.face, vertex: (4 * k) as u32 };
                    let mut found: bool = false;
                    let mut j: usize = 0;
                    while j < list.len()
                        invariant
                            j <= list@.len(),
                            found <==> exists|i: int| 0 <= i < j && list@[i] == wanted,
                        decreases list@.len() - j,
                    {
                        if list[j].face == wanted.face && list[j].vertex == wanted.vertex {
                            found = true;
                            assert(list@[j as int] == wanted);
                        }
                        j = j + 1;
                    }
                    if !found {
                        assert(!list@.contains(wanted));
                        assert(!self.slot_ok(None, k as int));
                        return false;
                    }
                    proof {
                        let i = choose|i: int| 0 <= i < list@.len() && list@[i] == wanted;
                        assert(list@[i] == wanted);
                        assert(list@.contains(wanted));
                    }
                },
            }
            k = k + 1;
        }
        let mut v: usize = 0;
        while v < self.vivi.len()
            invariant
                v <= self.vivi@.len(),
                quads == self.map@.len(),
                forall|w: int, j: int|
                    0 <= w < v && 0 <= j < self.vivi@[w]@.len() ==> #[trigger] self.entry_ok(w, j),
                forall|w: int, i: int, j: int|
                    0 <= w < v && 0 <= i < j < self.vivi@[w]@.len() ==> #[trigger] self.faces_differ(
                        w,
                        i,
                        j,
                    ),
            decreases self.vivi@.len() - v,
        {
            let list = &self.vivi[v];
            let mut j: usize = 0;
            while j < list.len()
                invariant
                    j <= list@.len(),
                    v < self.vivi@.len(),
                    *list == self.vivi@[v as int],
                    quads == self.map@.len(),
                    forall|i: int| 0 <= i < j ==> #[trigger] self.entry_ok(v as int, i),
                    forall|a: int, b: int|
                        0 <= a < b < j ==> #[trigger] self.faces_differ(v as int, a, b),
                decreases list@.len() - j,
            {
                let e: QuadEntry = list[j];
                if e.vertex % 4 != 0 || (e.vertex / 4) as usize >= quads {
                    assert(!self.entry_ok(v as int, j as int));
                    return false;
                }
                let fits: bool = match self.map[(e.vertex / 4) as usize] {
                    Some(o) => o.voxel == v && o.face == e.face,
                    None => false,
                };
                if !fits {
                    assert(!self.entry_ok(v as int, j as int));
                    return false;
                }
                let mut i: usize = 0;
                while i < j
                    invariant
                        i <= j < list@.len(),
                        v < self.vivi@.len(),
                        *list == self.vivi@[v as int],
                        e == list@[j as int],
                        forall|a: int| 0 <= a < i ==> #[trigger] self.faces_differ(
                            v as int,
                            a,
                            j as int,
                        ),
                    decreases j - i,
                {
                    if list[i].face == e.face {
                        assert(!self.faces_differ(v as int, i as int, j as int));
                        return false;
                    }
                    i = i + 1;
                }
                j = j + 1;
            }
            v = v + 1;
        }
        true
    }
}

/// Whether `mesh` and `md` belong together: what the updates of a mesh of cubes ask
/// of the mesh and the metadata that are handed to them.
pub fn is_cube_consistent(mesh: &Mesh, md: &CubeMD) -> (r: bool)
    ensures
        r == (md.wf() && cube_consistent(*mesh, md.vivi)),
{
    if !md.vivi.is_wf() {
        return false;
    }
    let dims: Dimensions = md.dims;
    proof {
        let w = dims.x as int;
        let h = dims.y as int;
        let l = dims.z as int;
        assert(w * h <= 0xffff_ffff * 0xffff_ffff) by (nonlinear_arith)
            requires
                0 <= w <= 0xffff_ffff,
                0 <= h <= 0xffff_ffff,
        ;
        assert(w * h * l <= 0xffff_ffff * 0xffff_ffff * 0xffff_ffff) by (nonlinear_arith)
            requires
                0 <= w * h <= 0xffff_ffff * 0xffff_ffff,
                0 <= l <= 0xffff_ffff,
        ;
    }
    let volume: u128 = (dims.x as u128) * (dims.y as u128) * (dims.z as u128);
    if volume != md.vivi.vivi.len() as u128 || volume > 0xffff_ffff / 24 {
        return false;
    }
    if mesh.attributes.len() == 0 || !mesh.is_wf() {
        proof {
            if mesh.attributes@.len() > 0 && cube_consistent(*mesh, md.vivi) {
                let s = state_of(*mesh, md.vivi);
                assert forall|a: int| 0 <= a < mesh.attributes@.len() implies (
                #[trigger] mesh.attributes@[a]).values@.len() == mesh.spec_count_vertices() by {
                    assert(s.columns[a].len() == 4 * s.owners.len());
                    assert(s.columns[0].len() == 4 * s.owners.len());
                }
                assert forall|i: int| 0 <= i < mesh.indices@.len() implies (
                #[trigger] mesh.indices@[i]) < mesh.spec_count_vertices() by {
                    assert(s.index_ok(i));
                    assert(s.columns[0].len() == 4 * s.owners.len());
                }
                assert(false);
            }
        }
        return false;
    }
    let quads: usize = md.vivi.map.len();
    let ghost s = state_of(*mesh, md.vivi);
    proof {
        md.vivi.lemma_owners_distinct();
    }
    if mesh.count_vertices() as u64 != 4 * (quads as u64) || mesh.indices.len() as u64 != 6 * (
    quads as u64) {
        proof {
            if cube_consistent(*mesh, md.vivi) {
                assert(s.columns[0].len() == 4 * s.owners.len());
            }
        }
        return false;
    }
    let mut i: usize = 0;
    while i < mesh.indices.len()
        invariant
            i <= mesh.indices@.len(),
            s == state_of(*mesh, md.vivi),
            mesh.indices@.len() == 6 * quads,
            quads <= 0x3fff_ffff,
            forall|j: int| 0 <= j < i ==> #[trigger] s.index_ok(j),
        decreases mesh.indices@.len() - i,
    {
        let place: usize = i % 6;
        let corner: u32 = if place == 1 {
            1
        } else if place == 2 || place == 3 {
            2
        } else if place == 4 {
            3
        } else {
            0
        };
        if mesh.indices[i] != 4 * ((i / 6) as u32) + corner {
            assert(!s.index_ok(i as int));
            return false;
        }
        i = i + 1;
    }
    proof {
        assert forall|a: int| 0 <= a < s.columns.len() implies (#[trigger] s.columns[a]).len() == 4
            * s.owners.len() by {
            assert(mesh.attributes@[a].values@.len() == mesh.spec_count_vertices());
        }
    }
    true
}

} // verus!
