//! The bookkeeping that ties the quads of a merged cube mesh to the voxels that own
//! them.
use vstd::prelude::*;
use crate::chunk::{
    pos_to_index, spec_pos_to_index, BlockId, BlockPos, Dimensions, SurroundingBlocks,
};
use crate::sl::SmoothLightingParameters;
use crate::face::Face;
use crate::BlockMeshChange;

verus! {

/// A quad as a voxel records it: the face it covers and the place of its first vertex.
#[derive(Clone, Copy, Debug, PartialEq, Eq, Structural)]
pub struct QuadEntry {
    pub face: Face,
    pub vertex: u32,
}

/// The voxel and the face that a quad belongs to.
#[derive(Clone, Copy, Debug, PartialEq, Eq, Structural)]
pub struct QuadOwner {
    pub voxel: usize,
    pub face: Face,
}

/// The place of the quad of `voxel` towards `face` among `owners`, if it has one.
pub open spec fn slot_of(owners: Seq<QuadOwner>, voxel: usize, face: Face) -> Option<int> {
    let o = QuadOwner { voxel, face };
    if owners.contains(o) {
        Some(choose|k: int| 0 <= k < owners.len() && owners[k] == o)
    } else {
        None
    }
}

/// Voxel Index - Vertex Index: for every voxel the quads it owns, and for every quad
/// of the mesh, in buffer order, the voxel and face that own it.
pub struct CubeVIVI {
    /// For each voxel its quads.
    pub vivi: Vec<Vec<QuadEntry>>,
    /// For each quad of the mesh its owner. Quad `k` starts at vertex `4 * k`. A
    /// slot is vacant only while a quad is being moved into it.
    pub map: Vec<Option<QuadOwner>>,
}

impl CubeVIVI {
    /// The slot `k` of the owner table is in order: it is vacant exactly if it is the
    /// hole, and else its owner records the quad.
    pub open spec fn slot_ok(self, hole: Option<int>, k: int) -> bool {
        &&& (self.map@[k] is None <==> hole == Some(k))
        &&& (self.map@[k] matches Some(o) ==> {
            &&& o.voxel < self.vivi@.len()
            &&& self.vivi@[o.voxel as int]@.contains(
                QuadEntry { face: o.face, vertex: (4 * k) as u32 },
            )
        })
    }

    /// The record `j` of voxel `v` is in order: it points at a quad that this voxel
    /// and this face own.
    pub open spec fn entry_ok(self, v: int, j: int) -> bool {
        let e = self.vivi@[v]@[j];
        &&& e.vertex % 4 == 0
        &&& e.vertex / 4 < self.map@.len()
        &&& (self.map@[e.vertex as int / 4] matches Some(o) && o.voxel == v && o.face == e.face)
    }

    /// Two records of one voxel cover different faces.
    pub open spec fn faces_differ(self, v: int, i: int, j: int) -> bool {
        self.vivi@[v]@[i].face != self.vivi@[v]@[j].face
    }

    /// The two tables agree, but for the slot `hole`, which is vacant.
    pub open spec fn wf_except(self, hole: Option<int>) -> bool {
        &&& 4 * self.map@.len() <= u32::MAX
        &&& (hole matches Some(h) ==> 0 <= h < self.map@.len())
        &&& forall|k: int| 0 <= k < self.map@.len() ==> #[trigger] self.slot_ok(hole, k)
        &&& forall|v: int, j: int|
            0 <= v < self.vivi@.len() && 0 <= j < self.vivi@[v]@.len() ==> #[trigger] self.entry_ok(
                v,
                j,
            )
        &&& forall|v: int, i: int, j: int|
            0 <= v < self.vivi@.len() && 0 <= i < j < self.vivi@[v]@.len()
                ==> #[trigger] self.faces_differ(v, i, j)
    }

    /// The two tables agree and no slot is vacant. In particular a voxel has at
    /// most one quad for each face.
    pub open spec fn wf(self) -> bool {
        self.wf_except(None)
    }

    /// The owners of the quads of the mesh, in buffer order.
    pub open spec fn owners(self) -> Seq<QuadOwner> {
        Seq::new(self.map@.len(), |k: int| self.map@[k].unwrap())
    }

    /// Number of voxels that the structure was made for.
    pub open spec fn voxel_count(self) -> nat {
        self.vivi@.len()
    }

    /// Two different records of one voxel cover different faces.
    pub proof fn lemma_faces_differ(self, hole: Option<int>, v: int, i: int, j: int)
        requires
            self.wf_except(hole),
            0 <= v < self.vivi@.len(),
            0 <= i < self.vivi@[v]@.len(),
            0 <= j < self.vivi@[v]@.len(),
            i != j,
        ensures
            self.vivi@[v]@[i].face != self.vivi@[v]@[j].face,
    {
        if i < j {
            assert(self.faces_differ(v, i, j));
        } else {
            assert(self.faces_differ(v, j, i));
        }
    }

    /// Within a voxel's list, and over all lists, only one record points at a quad.
    pub proof fn lemma_entry_unique(self, hole: Option<int>, v: int, j: int, w: int, i: int)
        requires
            self.wf_except(hole),
            0 <= v < self.vivi@.len(),
            0 <= j < self.vivi@[v]@.len(),
            0 <= w < self.vivi@.len(),
            0 <= i < self.vivi@[w]@.len(),
            self.vivi@[v]@[j].vertex == self.vivi@[w]@[i].vertex,
        ensures
            v == w,
            i == j,
    {
        assert(self.entry_ok(v, j));
        assert(self.entry_ok(w, i));
        if i != j {
            self.lemma_faces_differ(hole, v, i, j);
        }
    }

    /// The record that the owner of slot `k` holds for it.
    pub proof fn lemma_slot_entry(self, hole: Option<int>, k: int) -> (j: int)
        requires
            self.wf_except(hole),
            0 <= k < self.map@.len(),
            hole != Some(k),
        ensures
            self.map@[k] is Some,
            self.map@[k].unwrap().voxel < self.vivi@.len(),
            0 <= j < self.vivi@[self.map@[k].unwrap().voxel as int]@.len(),
            self.vivi@[self.map@[k].unwrap().voxel as int]@[j] == (QuadEntry {
                face: self.map@[k].unwrap().face,
                vertex: (4 * k) as u32,
            }),
    {
        assert(self.slot_ok(hole, k));
        let o = self.map@[k].unwrap();
        let list = self.vivi@[o.voxel as int]@;
        let e = QuadEntry { face: o.face, vertex: (4 * k) as u32 };
        choose|j: int| 0 <= j < list.len() && list[j] == e
    }

    /// No quad occurs twice among the owners, and each owner is a voxel of the chunk.
    pub proof fn lemma_owners_distinct(self)
        requires
            self.wf(),
        ensures
            self.owners().no_duplicates(),
            forall|k: int|
                0 <= k < self.owners().len() ==> (#[trigger] self.owners()[k]).voxel
                    < self.voxel_count(),
    {
        assert forall|a: int, b: int|
            0 <= a < self.owners().len() && 0 <= b < self.owners().len() && a != b implies self.owners()[a]
            != self.owners()[b] by {
            if self.owners()[a] == self.owners()[b] {
                let ja = self.lemma_slot_entry(None, a);
                let jb = self.lemma_slot_entry(None, b);
                let v = self.map@[a].unwrap().voxel as int;
                if ja != jb {
                    self.lemma_faces_differ(None, v, ja, jb);
                }
            }
        }
        assert forall|k: int| 0 <= k < self.owners().len() implies (#[trigger] self.owners()[k]).voxel
            < self.voxel_count() by {
            assert(self.slot_ok(None, k));
        }
    }

    /// What a voxel records for a face is the slot of that quad among the owners.
    pub proof fn lemma_slot_of(self, voxel: usize, face: Face)
        requires
            self.wf(),
            voxel < self.voxel_count(),
        ensures
            match slot_of(self.owners(), voxel, face) {
                Some(k) => 0 <= k < self.owners().len() && self.owners()[k] == (QuadOwner {
                    voxel,
                    face,
                }),
                None => forall|j: int|
                    0 <= j < self.vivi@[voxel as int]@.len() ==> (
                    #[trigger] self.vivi@[voxel as int]@[j]).face != face,
            },
    {
        let o = QuadOwner { voxel, face };
        match slot_of(self.owners(), voxel, face) {
            Some(k) => {},
            None => {
                assert forall|j: int| 0 <= j < self.vivi@[voxel as int]@.len() implies (
                #[trigger] self.vivi@[voxel as int]@[j]).face != face by {
                    let e = self.vivi@[voxel as int]@[j];
                    if e.face == face {
                        assert(self.entry_ok(voxel as int, j));
                        let k = e.vertex as int / 4;
                        assert(self.owners()[k] == o);
                    }
                }
            },
        }
    }

    /// Create a new CubeVIVI with the given voxel count.
    pub fn new(voxel_count: usize) -> (r: CubeVIVI)
        ensures
            r.wf(),
            r.voxel_count() == voxel_count,
            r.owners() == Seq::<QuadOwner>::empty(),
            forall|v: int| 0 <= v < voxel_count ==> (#[trigger] r.vivi@[v])@.len() == 0,
    {
        let mut vivi: Vec<Vec<QuadEntry>> = Vec::new();
        let mut i: usize = 0;
        while i < voxel_count
            invariant
                i <= voxel_count,
                vivi@.len() == i,
                forall|v: int| 0 <= v < i ==> (#[trigger] vivi@[v])@.len() == 0,
            decreases voxel_count - i,
        {
            vivi.push(Vec::new());
            i = i + 1;
        }
        let r = CubeVIVI { vivi, map: Vec::new() };
        assert(r.owners() =~= Seq::<QuadOwner>::empty());
        r
    }

    /// Get the quad index of a voxel: the place of the first vertex of its quad for
    /// `face`.
    pub fn get_quad_index(&self, face: Face, voxel_index: usize) -> (r: Option<u32>)
        requires
            self.wf(),
            voxel_index < self.voxel_count(),
        ensures
            r == match slot_of(self.owners(), voxel_index, face) {
                Some(k) => Some((4 * k) as u32),
                None => None,
            },
            r is Some ==> r.unwrap() % 4 == 0 && r.unwrap() / 4 < self.owners().len(),
    {
        proof {
            self.lemma_slot_of(voxel_index, face);
            self.lemma_owners_distinct();
        }
        let list = &self.vivi[voxel_index];
        let mut j: usize = 0;
        while j < list.len()
            invariant
                self.wf(),
                voxel_index < self.voxel_count(),
                self.owners().no_duplicates(),
                *list == self.vivi@[voxel_index as int],
                j <= list@.len(),
                forall|i: int| 0 <= i < j ==> (#[trigger] list@[i]).face != face,
            decreases list@.len() - j,
        {
            if list[j].face == face {
                proof {
                    assert(self.entry_ok(voxel_index as int, j as int));
                    let e = self.vivi@[voxel_index as int]@[j as int];
                    let k = e.vertex as int / 4;
                    let o = QuadOwner { voxel: voxel_index, face };
                    assert(self.owners()[k] == o);
                    let k2 = slot_of(self.owners(), voxel_index, face).unwrap();
                    assert(self.owners()[k2] == o);
                    assert(k2 == k);
                }
                return Some(list[j].vertex);
            }
            j = j + 1;
        }
        proof {
            if slot_of(self.owners(), voxel_index, face) is Some {
                let k = slot_of(self.owners(), voxel_index, face).unwrap();
                let i = self.lemma_slot_entry(None, k);
                assert(list@[i].face == face);
            }
        }
        None
    }

    /// Insert a quad into the CubeVIVI. The owner table has a slot for every quad
    /// of the mesh, in buffer order, so quads are appended: `vertex` is the place
    /// behind the last vertex that is recorded so far.
    pub(crate) fn insert_quad(&mut self, face: Face, voxel_index: usize, vertex: u32)
        requires
            old(self).wf(),
            voxel_index < old(self).voxel_count(),
            vertex == 4 * old(self).owners().len(),
            vertex + 4 <= u32::MAX,
            slot_of(old(self).owners(), voxel_index, face) is None,
        ensures
            final(self).wf(),
            final(self).voxel_count() == old(self).voxel_count(),
            final(self).owners() == old(self).owners().push(QuadOwner { voxel: voxel_index, face }),
    {
        proof {
            old(self).lemma_slot_of(voxel_index, face);
        }
        let ghost n = self.map@.len() as int;
        self.vivi[voxel_index].push(QuadEntry { face, vertex });
        self.map.push(Some(QuadOwner { voxel: voxel_index, face }));
        proof {
            let new_list = final(self).vivi@[voxel_index as int]@;
            let old_list = old(self).vivi@[voxel_index as int]@;
            assert(new_list == old_list.push(QuadEntry { face, vertex }));
            assert forall|k: int| 0 <= k < final(self).map@.len() implies #[trigger] final(self).slot_ok(None, k) by {
                if k < n {
                    let j = old(self).lemma_slot_entry(None, k);
                    let o = old(self).map@[k].unwrap();
                    assert(final(self).vivi@[o.voxel as int]@[j] == old(self).vivi@[o.voxel as int]@[j]);
                } else {
                    assert(new_list[old_list.len() as int] == QuadEntry { face, vertex });
                }
            }
            assert forall|v: int, j: int|
                0 <= v < final(self).vivi@.len() && 0 <= j < final(self).vivi@[v]@.len() implies #[trigger] final(self).entry_ok(v, j) by {
                if v == voxel_index && j == old_list.len() {
                } else {
                    assert(old(self).entry_ok(v, j));
                }
            }
            assert forall|v: int, i: int, j: int|
                0 <= v < final(self).vivi@.len() && 0 <= i < j < final(self).vivi@[v]@.len() implies #[trigger] final(self).faces_differ(v, i, j) by {
                if v == voxel_index && j == old_list.len() {
                    assert(old(self).vivi@[v]@[i].face != face);
                } else {
                    assert(old(self).faces_differ(v, i, j));
                }
            }
            assert(final(self).owners() =~= old(self).owners().push(
                QuadOwner { voxel: voxel_index, face },
            ));
        }
    }

    /// The place, in the list of `voxel`, of the record that points at `vertex`.
    fn find_entry(&self, voxel: usize, vertex: u32, Ghost(hole): Ghost<Option<int>>) -> (j: usize)
        requires
            self.wf_except(hole),
            vertex % 4 == 0,
            vertex / 4 < self.map@.len(),
            hole != Some(vertex as int / 4),
            self.map@[vertex as int / 4] is Some ==> self.map@[vertex as int / 4].unwrap().voxel
                == voxel,
        ensures
            j < self.vivi@[voxel as int]@.len(),
            self.vivi@[voxel as int]@[j as int] == (QuadEntry {
                face: self.map@[vertex as int / 4].unwrap().face,
                vertex,
            }),
    {
        let ghost i0 = self.lemma_slot_entry(hole, vertex as int / 4);
        let list = &self.vivi[voxel];
        let mut j: usize = 0;
        while j < list.len()
            invariant
                j <= list@.len(),
                0 <= i0 < list@.len(),
                list@[i0].vertex == vertex,
                forall|i: int| 0 <= i < j ==> (#[trigger] list@[i]).vertex != vertex,
            ensures
                j < list@.len(),
                list@[j as int].vertex == vertex,
            decreases list@.len() - j,
        {
            if list[j].vertex == vertex {
                break ;
            }
            j = j + 1;
        }
        proof {
            self.lemma_entry_unique(hole, voxel as int, j as int, voxel as int, i0);
        }
        j
    }

    /// Taking the record `j` out of the list of `voxel`, and the owner out of the
    /// slot `k` that the record pointed at, leaves the tables in order but for that
    /// slot.
    proof fn lemma_detach(before: CubeVIVI, after: CubeVIVI, k: int, voxel: int, j: int)
        requires
            before.wf(),
            0 <= k < before.map@.len(),
            0 <= voxel < before.vivi@.len(),
            0 <= j < before.vivi@[voxel]@.len(),
            before.vivi@[voxel]@[j].vertex == 4 * k,
            after.vivi@.len() == before.vivi@.len(),
            after.vivi@[voxel]@ == before.vivi@[voxel]@.update(
                j,
                before.vivi@[voxel]@.last(),
            ).drop_last(),
            forall|v: int|
                0 <= v < before.vivi@.len() && v != voxel ==> after.vivi@[v] == before.vivi@[v],
            after.map@ == before.map@.update(k, None),
        ensures
            after.wf_except(Some(k)),
            forall|v: int, i: int|
                0 <= v < after.vivi@.len() && 0 <= i < after.vivi@[v]@.len() ==> (
                #[trigger] after.vivi@[v]@[i]).vertex != 4 * k,
    {
        let last0 = before.vivi@[voxel]@.len() - 1;
        // where a record of `after` stood in `before`
        let origin = |v: int, i: int|
            if v == voxel && i == j {
                last0
            } else {
                i
            };
        assert forall|v: int, i: int|
            0 <= v < after.vivi@.len() && 0 <= i < after.vivi@[v]@.len() implies (
        #[trigger] after.vivi@[v]@[i]).vertex != 4 * k && after.entry_ok(v, i) by {
            let i0 = origin(v, i);
            assert(after.vivi@[v]@[i] == before.vivi@[v]@[i0]);
            assert(before.entry_ok(v, i0));
            if before.vivi@[v]@[i0].vertex == 4 * k {
                before.lemma_entry_unique(None, v, i0, voxel, j);
            }
        }
        assert forall|k2: int| 0 <= k2 < after.map@.len() implies #[trigger] after.slot_ok(
            Some(k),
            k2,
        ) by {
            if k2 != k {
                let i0 = before.lemma_slot_entry(None, k2);
                let o2 = before.map@[k2].unwrap();
                let e = QuadEntry { face: o2.face, vertex: (4 * k2) as u32 };
                if o2.voxel == voxel {
                    assert(i0 != j);
                    if i0 == last0 {
                        assert(after.vivi@[voxel]@[j] == e);
                    } else {
                        assert(after.vivi@[voxel]@[i0] == e);
                    }
                } else {
                    assert(after.vivi@[o2.voxel as int]@[i0] == e);
                }
            }
        }
        assert forall|v: int, a: int, b: int|
            0 <= v < after.vivi@.len() && 0 <= a < b < after.vivi@[v]@.len() implies #[trigger] after.faces_differ(
            v,
            a,
            b,
        ) by {
            let a0 = origin(v, a);
            let b0 = origin(v, b);
            assert(after.vivi@[v]@[a] == before.vivi@[v]@[a0]);
            assert(after.vivi@[v]@[b] == before.vivi@[v]@[b0]);
            before.lemma_faces_differ(None, v, a0, b0);
        }
    }

    /// Dropping the last slot, which is vacant, leaves the tables in order.
    proof fn lemma_drop_hole(before: CubeVIVI, after: CubeVIVI)
        requires
            before.map@.len() > 0,
            before.wf_except(Some(before.map@.len() - 1)),
            after.vivi == before.vivi,
            after.map@ == before.map@.drop_last(),
        ensures
            after.wf(),
    {
        let k = before.map@.len() - 1;
        assert forall|v: int, i: int|
            0 <= v < after.vivi@.len() && 0 <= i < after.vivi@[v]@.len() implies #[trigger] after.entry_ok(
            v,
            i,
        ) by {
            assert(before.entry_ok(v, i));
            assert(before.slot_ok(Some(k), before.vivi@[v]@[i].vertex as int / 4));
        }
        assert forall|k2: int| 0 <= k2 < after.map@.len() implies #[trigger] after.slot_ok(
            None,
            k2,
        ) by {
            assert(before.slot_ok(Some(k), k2));
        }
        assert forall|v: int, a: int, b: int|
            0 <= v < after.vivi@.len() && 0 <= a < b < after.vivi@[v]@.len() implies #[trigger] after.faces_differ(
            v,
            a,
            b,
        ) by {
            assert(before.faces_differ(v, a, b));
        }
    }

    /// Pointing the record of the last quad at the vacant slot `k`, and putting its
    /// owner there, leaves the last slot as the only vacant one.
    proof fn lemma_move_last(before: CubeVIVI, after: CubeVIVI, k: int, voxel: int, j: int)
        requires
            before.map@.len() > 0,
            0 <= k < before.map@.len() - 1,
            before.wf_except(Some(k)),
            before.map@.last() is Some,
            before.map@.last().unwrap().voxel == voxel,
            0 <= voxel < before.vivi@.len(),
            0 <= j < before.vivi@[voxel]@.len(),
            before.vivi@[voxel]@[j].vertex == 4 * (before.map@.len() - 1),
            after.vivi@.len() == before.vivi@.len(),
            after.vivi@[voxel]@ == before.vivi@[voxel]@.update(
                j,
                QuadEntry { face: before.vivi@[voxel]@[j].face, vertex: (4 * k) as u32 },
            ),
            forall|v: int|
                0 <= v < before.vivi@.len() && v != voxel ==> after.vivi@[v] == before.vivi@[v],
            after.map@ == before.map@.update(k, before.map@.last()).update(
                before.map@.len() - 1,
                None,
            ),
        ensures
            after.wf_except(Some(before.map@.len() - 1)),
    {
        let last = before.map@.len() - 1;
        assert(before.entry_ok(voxel, j));
        assert forall|v: int, i: int|
            0 <= v < after.vivi@.len() && 0 <= i < after.vivi@[v]@.len() implies #[trigger] after.entry_ok(
            v,
            i,
        ) by {
            if v == voxel && i == j {
            } else {
                assert(after.vivi@[v]@[i] == before.vivi@[v]@[i]);
                assert(before.entry_ok(v, i));
                let e = before.vivi@[v]@[i];
                assert(before.slot_ok(Some(k), e.vertex as int / 4));
                if e.vertex as int / 4 == last {
                    before.lemma_entry_unique(Some(k), v, i, voxel, j);
                }
            }
        }
        assert forall|k2: int| 0 <= k2 < after.map@.len() implies #[trigger] after.slot_ok(
            Some(last),
            k2,
        ) by {
            if k2 == k {
                let o = before.map@.last().unwrap();
                assert(after.vivi@[voxel]@[j] == QuadEntry { face: o.face, vertex: (4 * k) as u32 });
            } else if k2 != last {
                let i0 = before.lemma_slot_entry(Some(k), k2);
                let o2 = before.map@[k2].unwrap();
                if o2.voxel == voxel && i0 == j {
                    assert(false);
                }
                assert(after.vivi@[o2.voxel as int]@[i0] == before.vivi@[o2.voxel as int]@[i0]);
            }
        }
        assert forall|v: int, a: int, b: int|
            0 <= v < after.vivi@.len() && 0 <= a < b < after.vivi@[v]@.len() implies #[trigger] after.faces_differ(
            v,
            a,
            b,
        ) by {
            assert(before.faces_differ(v, a, b));
            assert(after.vivi@[v]@[a].face == before.vivi@[v]@[a].face);
            assert(after.vivi@[v]@[b].face == before.vivi@[v]@[b].face);
        }
    }

    /// Remove a quad from the CubeVIVI. Where the quad was not the last of the mesh
    /// its slot stays vacant until `change_quad_index` moves the last quad into it.
    pub(crate) fn remove_quad(&mut self, old_vertex: usize)
        requires
            old(self).wf(),
            old_vertex % 4 == 0,
            old_vertex / 4 < old(self).owners().len(),
        ensures
            final(self).voxel_count() == old(self).voxel_count(),
            old_vertex / 4 == old(self).owners().len() - 1 ==> final(self).wf() && final(self).owners() == old(self).owners().drop_last(),
            old_vertex / 4 != old(self).owners().len() - 1 ==> final(self).wf_except(
                Some(old_vertex as int / 4),
            ) && final(self).map@ == old(self).map@.update(old_vertex as int / 4, None),
    {
        let k: usize = old_vertex / 4;
        proof {
            assert(old(self).slot_ok(None, k as int));
        }
        let o: QuadOwner = self.map[k].unwrap();
        let j: usize = self.find_entry(o.voxel, old_vertex as u32, Ghost(None));
        self.vivi[o.voxel].swap_remove(j);
        self.map[k] = None;
        proof {
            Self::lemma_detach(*old(self), *self, k as int, o.voxel as int, j as int);
        }
        if k + 1 == self.map.len() {
            let ghost mid = *self;
            self.map.pop();
            proof {
                Self::lemma_drop_hole(mid, *self);
                assert(self.owners() =~= old(self).owners().drop_last());
            }
        }
    }

    /// Change the quad index of a voxel: the last quad of the mesh, which starts
    /// at `old_vertex`, moves into the vacant slot that starts at `new_vertex`.
    pub(crate) fn change_quad_index(&mut self, old_vertex: usize, new_vertex: usize)
        requires
            new_vertex % 4 == 0,
            old(self).wf_except(Some(new_vertex as int / 4)),
            old_vertex == 4 * (old(self).map@.len() - 1),
            new_vertex / 4 < old(self).map@.len() - 1,
        ensures
            final(self).wf(),
            final(self).voxel_count() == old(self).voxel_count(),
            final(self).map@ == old(self).map@.update(
                new_vertex as int / 4,
                old(self).map@.last(),
            ).drop_last(),
    {
        let k: usize = new_vertex / 4;
        let last: usize = self.map.len() - 1;
        let ghost hole = Some(k as int);
        proof {
            assert(old(self).slot_ok(hole, last as int));
        }
        let o: QuadOwner = self.map[last].unwrap();
        let j: usize = self.find_entry(o.voxel, old_vertex as u32, Ghost(hole));
        self.vivi[o.voxel][j].vertex = new_vertex as u32;
        self.map[k] = Some(o);
        self.map[last] = None;
        proof {
            Self::lemma_move_last(*old(self), *self, k as int, o.voxel as int, j as int);
        }
        let ghost mid = *self;
        self.map.pop();
        proof {
            Self::lemma_drop_hole(mid, *self);
            assert(self.map@ =~= old(self).map@.update(
                new_vertex as int / 4,
                old(self).map@.last(),
            ).drop_last());
        }
    }
}

/// A change of one voxel that waits to be applied: the block, its position, what
/// happened to it, and the blocks around it at that time.
pub type VoxelChange = (BlockId, BlockPos, BlockMeshChange, SurroundingBlocks<BlockId>);

/// Mesh meta-data for a merged mesh of cubes. Holds all the information needed to
/// update the mesh at run-time.
pub struct CubeMD {
    pub vivi: CubeVIVI,
    pub smooth_lighting_params: Option<SmoothLightingParameters>,
    /// The dimensions of the 3d grid.
    pub dims: Dimensions,
    /// The changes that wait to be applied, in the order in which they were logged.
    pub changed_voxels: Vec<VoxelChange>,
}

impl CubeMD {
    /// The bookkeeping is in order and covers the voxels of a chunk of these
    /// dimensions, whose quads all have a place in a mesh with 32-bit indices.
    pub open spec fn wf(self) -> bool {
        &&& self.vivi.wf()
        &&& self.vivi.voxel_count() == self.dims.volume()
        &&& 24 * self.dims.volume() <= u32::MAX
    }

    /// Whether the voxel at `block_pos` has a quad for `quad`.
    pub open spec fn spec_quad_exists(self, block_pos: BlockPos, quad: Face) -> bool {
        match spec_pos_to_index(block_pos, self.dims) {
            Some(v) => self.vivi.owners().contains(QuadOwner { voxel: v, face: quad }),
            None => false,
        }
    }

    /// Log the changes to the voxels.
    /// `block_mesh_change`: what happened.
    /// `block_pos`: the position of the voxel in the grid.
    /// `block`: the block itself, as the registry knows it.
    /// `surrounding_blocks`: the block towards each face, `None` where the voxel is
    /// empty or the chunk ends.
    pub fn log(
        &mut self,
        block_mesh_change: BlockMeshChange,
        block_pos: BlockPos,
        block: BlockId,
        surrounding_blocks: SurroundingBlocks<BlockId>,
    )
        ensures
            final(self).changed_voxels@ == old(self).changed_voxels@.push(
                (block, block_pos, block_mesh_change, surrounding_blocks),
            ),
            final(self).vivi == old(self).vivi,
            final(self).dims == old(self).dims,
            final(self).smooth_lighting_params == old(self).smooth_lighting_params,
    {
        self.changed_voxels.push((block, block_pos, block_mesh_change, surrounding_blocks));
    }

    /// Get read only of the `SmoothLightingParameters`
    pub fn get_sl_params(&self) -> (r: Option<SmoothLightingParameters>)
        ensures
            r == self.smooth_lighting_params,
    {
        self.smooth_lighting_params
    }

    pub fn quad_exists(&self, block_pos: BlockPos, quad: Face) -> (r: bool)
        requires
            self.wf(),
        ensures
            r == self.spec_quad_exists(block_pos, quad),
    {
        match pos_to_index(block_pos, self.dims) {
            Some(v) => self.vivi.get_quad_index(quad, v).is_some(),
            None => false,
        }
    }
}

} // verus!
