//! The mathematical model of a merged cube mesh: a sequence of quads, each owned by
//! one face of one voxel, with four vertices in every attribute column and six
//! indices.
use vstd::prelude::*;
use crate::cube::md::{slot_of, CubeVIVI, QuadOwner};
use crate::cube::proto::side_quad;
use crate::face::{face_at, Face};
use crate::mesh_reg::spec_block_center;
use crate::mesh::{AttributeId, Mesh, VertexValue, ATTRIBUTE_POSITION};

verus! {

/// A merged cube mesh with its bookkeeping, as plain sequences.
pub struct CubeState {
    /// The attribute columns.
    pub columns: Seq<Seq<VertexValue>>,
    /// The triangle indices.
    pub indices: Seq<u32>,
    /// The owner of each quad, in buffer order.
    pub owners: Seq<QuadOwner>,
}

/// The winding of a quad: the corner that stands at place `j` of its six indices.
/// The two triangles are (0, 1, 2) and (2, 3, 0).
pub open spec fn quad_pattern(j: int) -> int {
    if j == 1 {
        1
    } else if j == 2 || j == 3 {
        2
    } else if j == 4 {
        3
    } else {
        0
    }
}

/// A column without the four values of quad `k`: the four last values take their
/// place, unless they are those values themselves.
pub open spec fn swap_remove_quad(col: Seq<VertexValue>, k: int) -> Seq<VertexValue> {
    Seq::new(
        (col.len() - 4) as nat,
        |i: int|
            if 4 * k <= i < 4 * k + 4 {
                col[col.len() - 4 + (i - 4 * k)]
            } else {
                col[i]
            },
    )
}

/// The six indices of the quad that starts at vertex `base`.
pub open spec fn quad_indices(base: int) -> Seq<u32> {
    Seq::new(6, |j: int| (base + quad_pattern(j)) as u32)
}

/// The state that a mesh and its bookkeeping stand for.
pub open spec fn state_of(mesh: Mesh, vivi: CubeVIVI) -> CubeState {
    CubeState { columns: mesh.columns(), indices: mesh.indices@, owners: vivi.owners() }
}

/// The mesh and the bookkeeping belong together: every quad of the mesh has its
/// owner, and every record points at its quad.
pub open spec fn cube_consistent(mesh: Mesh, vivi: CubeVIVI) -> bool {
    &&& vivi.wf()
    &&& mesh.attributes@.len() > 0
    &&& mesh.ids().no_duplicates()
    &&& state_of(mesh, vivi).wf()
    &&& state_of(mesh, vivi).owners_in(vivi.voxel_count())
}

impl CubeState {
    /// The index at place `i` is the one that the winding gives.
    pub open spec fn index_ok(self, i: int) -> bool {
        self.indices[i] == 4 * (i / 6) + quad_pattern(i % 6)
    }

    /// Every voxel has at most one quad for each face, all columns hold four
    /// values for each quad, and the indices of each quad wind over its own vertices.
    pub open spec fn wf(self) -> bool {
        &&& self.owners.no_duplicates()
        &&& 4 * self.owners.len() <= u32::MAX
        &&& forall|a: int|
            0 <= a < self.columns.len() ==> (#[trigger] self.columns[a]).len() == 4
                * self.owners.len()
        &&& self.indices.len() == 6 * self.owners.len()
        &&& forall|i: int| 0 <= i < self.indices.len() ==> #[trigger] self.index_ok(i)
    }

    /// Every owner is one of the first `voxels` voxels.
    pub open spec fn owners_in(self, voxels: nat) -> bool {
        forall|k: int| 0 <= k < self.owners.len() ==> (#[trigger] self.owners[k]).voxel < voxels
    }

    /// Whether `voxel` has a quad for `face`.
    pub open spec fn has_quad(self, voxel: usize, face: Face) -> bool {
        self.owners.contains(QuadOwner { voxel, face })
    }

    /// The state with one more quad at the end. `corners` holds its four values for
    /// each column.
    pub open spec fn push_quad(self, owner: QuadOwner, corners: Seq<Seq<VertexValue>>) -> CubeState {
        CubeState {
            columns: Seq::new(self.columns.len(), |a: int| self.columns[a] + corners[a]),
            indices: self.indices + quad_indices(4 * self.owners.len() as int),
            owners: self.owners.push(owner),
        }
    }

    /// The state without quad `k`: the last quad takes its place.
    pub open spec fn remove_quad(self, k: int) -> CubeState {
        CubeState {
            columns: Seq::new(self.columns.len(), |a: int| swap_remove_quad(self.columns[a], k)),
            indices: self.indices.take(self.indices.len() - 6),
            owners: self.owners.update(k, self.owners.last()).drop_last(),
        }
    }

    /// The state without the quad of `voxel` for `face`, if it had one.
    pub open spec fn remove_face(self, voxel: usize, face: Face) -> CubeState {
        match slot_of(self.owners, voxel, face) {
            Some(k) => self.remove_quad(k),
            None => self,
        }
    }

    /// The state after the quads of `voxel` have been removed for those of the first
    /// `upto` faces that `faces` marks.
    pub open spec fn remove_faces(self, voxel: usize, faces: Seq<bool>, upto: int) -> CubeState
        decreases upto,
    {
        if upto <= 0 {
            self
        } else {
            let s = self.remove_faces(voxel, faces, upto - 1);
            if faces[upto - 1] {
                s.remove_face(voxel, face_at(upto - 1))
            } else {
                s
            }
        }
    }

    /// The state with a quad of `voxel` for `face`, which is added unless there is one.
    pub open spec fn add_face(self, voxel: usize, face: Face, corners: Seq<Seq<VertexValue>>) -> CubeState {
        if self.has_quad(voxel, face) {
            self
        } else {
            self.push_quad(QuadOwner { voxel, face }, corners)
        }
    }

    /// The state after `voxel` has been given its quads for those of the first `upto`
    /// faces that `skip` does not mark and that it did not have. The quads are those of
    /// `proto`, moved by `offset`.
    pub open spec fn add_faces(
        self,
        voxel: usize,
        skip: Seq<bool>,
        proto: Mesh,
        ids: Seq<AttributeId>,
        offset: VertexValue,
        upto: int,
    ) -> CubeState
        decreases upto,
    {
        if upto <= 0 {
            self
        } else {
            let s = self.add_faces(voxel, skip, proto, ids, offset, upto - 1);
            if skip[upto - 1] {
                s
            } else {
                s.add_face(
                    voxel,
                    face_at(upto - 1),
                    proto_quad(proto, ids, face_at(upto - 1), offset),
                )
            }
        }
    }
}

/// The prototype vertex that is corner `j` of the quad of `face`: the quad that
/// the two triangles of the prototype that lie in that side make up.
pub open spec fn quad_corner(proto: Mesh, face: Face, j: int) -> int {
    let quad = side_quad(
        proto.indices@,
        proto.spec_attribute(ATTRIBUTE_POSITION).unwrap(),
        spec_block_center(),
        face,
    ).unwrap();
    if j == 0 {
        quad.0
    } else if j == 1 {
        quad.1
    } else if j == 2 {
        quad.2
    } else {
        quad.3
    }
}

/// The four values that the quad of `face` has in the column of attribute `id`:
/// those of the prototype, and for the position those moved by `offset`.
pub open spec fn proto_quad_column(proto: Mesh, id: AttributeId, face: Face, offset: VertexValue) -> Seq<
    VertexValue,
> {
    Seq::new(
        4,
        |j: int|
            {
                let v = proto.spec_attribute(id).unwrap()[quad_corner(proto, face, j)];
                if id == ATTRIBUTE_POSITION {
                    v.spec_translated(offset)
                } else {
                    v
                }
            },
    )
}

/// The values of the quad of `face`, column by column for the attributes `ids`.
pub open spec fn proto_quad(proto: Mesh, ids: Seq<AttributeId>, face: Face, offset: VertexValue) -> Seq<
    Seq<VertexValue>,
> {
    Seq::new(ids.len(), |a: int| proto_quad_column(proto, ids[a], face, offset))
}

/// A mesh that belongs to its bookkeeping is in order: all its attribute columns
/// have the same length, its indices form triangles, and they point at its vertices.
pub proof fn lemma_consistent_mesh_wf(mesh: Mesh, vivi: CubeVIVI)
    requires
        cube_consistent(mesh, vivi),
    ensures
        mesh.wf(),
        mesh.spec_count_vertices() == 4 * vivi.owners().len(),
        mesh.indices@.len() == 6 * vivi.owners().len(),
{
    let s = state_of(mesh, vivi);
    assert(s.columns[0].len() == 4 * s.owners.len());
    assert forall|a: int| 0 <= a < mesh.attributes@.len() implies (
    #[trigger] mesh.attributes@[a]).values@.len() == mesh.spec_count_vertices() by {
        assert(s.columns[a].len() == 4 * s.owners.len());
    }
    assert forall|i: int| 0 <= i < mesh.indices@.len() implies (#[trigger] mesh.indices@[i])
        < mesh.spec_count_vertices() by {
        assert(s.index_ok(i));
    }
}

/// A state in order stays in order when a quad is added for a face that had none.
pub proof fn lemma_push_quad_wf(s: CubeState, owner: QuadOwner, corners: Seq<Seq<VertexValue>>)
    requires
        s.wf(),
        !s.owners.contains(owner),
        4 * (s.owners.len() + 1) <= u32::MAX,
        corners.len() == s.columns.len(),
        forall|a: int| 0 <= a < corners.len() ==> (#[trigger] corners[a]).len() == 4,
    ensures
        s.push_quad(owner, corners).wf(),
        s.push_quad(owner, corners).owners.to_set() == s.owners.to_set().insert(owner),
{
    let t = s.push_quad(owner, corners);
    assert forall|a: int| 0 <= a < t.columns.len() implies (#[trigger] t.columns[a]).len() == 4
        * t.owners.len() by {
        assert(s.columns[a].len() == 4 * s.owners.len());
        assert(corners[a].len() == 4);
    }
    assert forall|i: int| 0 <= i < t.indices.len() implies #[trigger] t.index_ok(i) by {
        if i < s.indices.len() {
            assert(s.index_ok(i));
        } else {
            let j = i - s.indices.len();
            assert(t.indices[i] == quad_indices(4 * s.owners.len() as int)[j]);
            assert(i / 6 == s.owners.len() && i % 6 == j);
        }
    }
    assert forall|i: int, j: int|
        0 <= i < t.owners.len() && 0 <= j < t.owners.len() && i != j implies t.owners[i]
        != t.owners[j] by {
        if i < s.owners.len() && j < s.owners.len() {
        } else if i < s.owners.len() {
            assert(s.owners.contains(s.owners[i]));
        } else {
            assert(s.owners.contains(s.owners[j]));
        }
    }
    assert(t.owners.to_set() =~= s.owners.to_set().insert(owner)) by {
        assert forall|o: QuadOwner| t.owners.to_set().contains(o) == s.owners.to_set().insert(
            owner,
        ).contains(o) by {
            if t.owners.contains(o) {
                let i = choose|i: int| 0 <= i < t.owners.len() && t.owners[i] == o;
                if i < s.owners.len() {
                    assert(s.owners[i] == o);
                }
            }
            if s.owners.contains(o) {
                let i = choose|i: int| 0 <= i < s.owners.len() && s.owners[i] == o;
                assert(t.owners[i] == o);
            }
            if o == owner {
                assert(t.owners[s.owners.len() as int] == o);
            }
        }
    }
}

/// A state in order stays in order when a quad is removed, and loses just the owner
/// of that quad.
pub proof fn lemma_remove_quad_wf(s: CubeState, k: int)
    requires
        s.wf(),
        0 <= k < s.owners.len(),
    ensures
        s.remove_quad(k).wf(),
        s.remove_quad(k).owners.to_set() == s.owners.to_set().remove(s.owners[k]),
        s.remove_quad(k).owners.len() == s.owners.len() - 1,
{
    let t = s.remove_quad(k);
    let last = s.owners.len() - 1;
    assert forall|a: int| 0 <= a < t.columns.len() implies (#[trigger] t.columns[a]).len() == 4
        * t.owners.len() by {
        assert(s.columns[a].len() == 4 * s.owners.len());
    }
    assert forall|i: int| 0 <= i < t.indices.len() implies #[trigger] t.index_ok(i) by {
        assert(s.index_ok(i));
    }
    // where an owner of `t` stood in `s`
    let origin = |i: int|
        if i == k {
            last
        } else {
            i
        };
    assert forall|i: int, j: int|
        0 <= i < t.owners.len() && 0 <= j < t.owners.len() && i != j implies t.owners[i]
        != t.owners[j] by {
        assert(t.owners[i] == s.owners[origin(i)]);
        assert(t.owners[j] == s.owners[origin(j)]);
    }
    assert(t.owners.to_set() =~= s.owners.to_set().remove(s.owners[k])) by {
        assert forall|o: QuadOwner| t.owners.to_set().contains(o) == s.owners.to_set().remove(
            s.owners[k],
        ).contains(o) by {
            if t.owners.contains(o) {
                let i = choose|i: int| 0 <= i < t.owners.len() && t.owners[i] == o;
                assert(t.owners[i] == s.owners[origin(i)]);
                assert(s.owners.contains(o));
            }
            if s.owners.contains(o) && o != s.owners[k] {
                let i = choose|i: int| 0 <= i < s.owners.len() && s.owners[i] == o;
                if i == last {
                    assert(t.owners[k] == o);
                } else {
                    assert(t.owners[i] == o);
                }
            }
        }
    }
}

} // verus!
