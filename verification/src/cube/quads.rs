//! Adding one quad at the end of a merged cube mesh, and removing one from it.
use vstd::prelude::*;
use crate::cube::md::{CubeVIVI, QuadOwner};
use crate::cube::proto::valid_cube_prototype;
use crate::cube::state::{
    cube_consistent, lemma_push_quad_wf, lemma_remove_quad_wf, proto_quad, proto_quad_column,
    quad_corner, quad_indices, state_of, swap_remove_quad,
};
use crate::face::Face;
use crate::mesh_reg::spec_block_center;
use crate::mesh::{translate, Mesh, VertexValue, ATTRIBUTE_POSITION, UNITS_PER_BLOCK};

verus! {

/// Whether `offset` is the offset of some block.
pub open spec fn is_block_offset(offset: VertexValue) -> bool {
    &&& 0 <= offset.x <= 0xffff_ffff * UNITS_PER_BLOCK
    &&& 0 <= offset.y <= 0xffff_ffff * UNITS_PER_BLOCK
    &&& 0 <= offset.z <= 0xffff_ffff * UNITS_PER_BLOCK
}

/// Copies the quad of `face` from `proto` to the end of `mesh`, moved by `offset`,
/// and records it for `voxel`.
pub fn push_quad(
    mesh: &mut Mesh,
    vivi: &mut CubeVIVI,
    proto: &Mesh,
    face: Face,
    voxel: usize,
    center: VertexValue,
    offset: VertexValue,
)
    requires
        cube_consistent(*old(mesh), *old(vivi)),
        valid_cube_prototype(*proto, old(mesh).ids(), center),
        center == spec_block_center(),
        voxel < old(vivi).voxel_count(),
        !state_of(*old(mesh), *old(vivi)).has_quad(voxel, face),
        4 * (old(vivi).owners().len() + 1) <= u32::MAX,
        is_block_offset(offset),
    ensures
        cube_consistent(*final(mesh), *final(vivi)),
        final(mesh).ids() == old(mesh).ids(),
        final(vivi).voxel_count() == old(vivi).voxel_count(),
        state_of(*final(mesh), *final(vivi)) == state_of(*old(mesh), *old(vivi)).push_quad(
            QuadOwner { voxel, face },
            proto_quad(*proto, old(mesh).ids(), face, offset),
        ),
{
    let ghost s0 = state_of(*old(mesh), *old(vivi));
    let ghost ids = old(mesh).ids();
    let ghost corners = proto_quad(*proto, ids, face, offset);
    let base: u32 = (4 * vivi.map.len()) as u32;
    let pa: usize = proto.attribute_position(ATTRIBUTE_POSITION).unwrap();
    let positions = &proto.attributes[pa].values;
    proof {
        assert(proto.spec_attribute(ATTRIBUTE_POSITION) == Some(positions@));
        assert(proto.attributes@[pa as int].values@.len() == proto.spec_count_vertices());
        crate::face::lemma_face_codes(face, 0);
        assert(crate::cube::proto::side_ok(*proto, center, face.index()));
    }
    let quad: [u32; 4] = crate::cube::proto::side_corners(proto, positions, center, face).unwrap();
    let c0: usize = quad[0] as usize;
    let c1: usize = quad[1] as usize;
    let c2: usize = quad[2] as usize;
    let c3: usize = quad[3] as usize;
    proof {
        assert(c0 == quad_corner(*proto, face, 0));
        assert(c1 == quad_corner(*proto, face, 1));
        assert(c2 == quad_corner(*proto, face, 2));
        assert(c3 == quad_corner(*proto, face, 3));
    }
    let n: usize = mesh.attributes.len();
    let mut a: usize = 0;
    while a < n
        invariant
            a <= n,
            n == mesh.attributes@.len(),
            n == old(mesh).attributes@.len(),
            mesh.ids() == ids,
            ids == old(mesh).ids(),
            mesh.indices == old(mesh).indices,
            valid_cube_prototype(*proto, ids, center),
            is_block_offset(offset),
            c0 == quad_corner(*proto, face, 0),
            c1 == quad_corner(*proto, face, 1),
            c2 == quad_corner(*proto, face, 2),
            c3 == quad_corner(*proto, face, 3),
            c0 < proto.spec_count_vertices(),
            c1 < proto.spec_count_vertices(),
            c2 < proto.spec_count_vertices(),
            c3 < proto.spec_count_vertices(),
            forall|b: int|
                0 <= b < a ==> (#[trigger] mesh.attributes@[b]).values@ == old(mesh).attributes@[b].values@ + proto_quad_column(*proto, ids[b], face, offset),
            forall|b: int|
                a <= b < n ==> (#[trigger] mesh.attributes@[b]).values@ == old(mesh).attributes@[b].values@,
        decreases n - a,
    {
        let id = mesh.attributes[a].id;
        proof {
            assert(ids[a as int] == id);
            assert(proto.ids().contains(ids[a as int]));
        }
        let pa: usize = proto.attribute_position(id).unwrap();
        let src = &proto.attributes[pa].values;
        proof {
            assert(proto.spec_attribute(id) == Some(src@));
            assert(proto.attributes@[pa as int].values@.len() == proto.spec_count_vertices());
            if id == ATTRIBUTE_POSITION {
                let positions = proto.spec_attribute(ATTRIBUTE_POSITION).unwrap();
                assert(positions[c0 as int].spec_is_local());
                assert(positions[c1 as int].spec_is_local());
                assert(positions[c2 as int].spec_is_local());
                assert(positions[c3 as int].spec_is_local());
            }
        }
        let ghost before = mesh.attributes@[a as int].values@;
        let ghost ids_before = mesh.ids();
        let ghost attrs_before = mesh.attributes@;
        let mut v0: VertexValue = src[c0];
        let mut v1: VertexValue = src[c1];
        let mut v2: VertexValue = src[c2];
        let mut v3: VertexValue = src[c3];
        if id == ATTRIBUTE_POSITION {
            v0 = translate(v0, offset);
            v1 = translate(v1, offset);
            v2 = translate(v2, offset);
            v3 = translate(v3, offset);
        }
        mesh.attributes[a].values.push(v0);
        mesh.attributes[a].values.push(v1);
        mesh.attributes[a].values.push(v2);
        mesh.attributes[a].values.push(v3);
        proof {
            let col = proto_quad_column(*proto, id, face, offset);
            assert(col =~= seq![v0, v1, v2, v3]);
            assert(mesh.attributes@[a as int].values@ =~= before + col);
            assert(mesh.attributes@[a as int].id == id);
            assert forall|b: int| 0 <= b < n && b != a implies mesh.attributes@[b]
                == attrs_before[b] by {}
            assert(mesh.ids() =~= ids_before);
        }
        a = a + 1;
    }
    let mut j: usize = 0;
    while j < 6
        invariant
            j <= 6,
            base + 4 <= u32::MAX,
            mesh.attributes@.len() == n,
            mesh.ids() == ids,
            forall|b: int|
                0 <= b < n ==> (#[trigger] mesh.attributes@[b]).values@ == old(mesh).attributes@[b].values@ + proto_quad_column(*proto, ids[b], face, offset),
            mesh.indices@ == old(mesh).indices@ + quad_indices(base as int).take(j as int),
        decreases 6 - j,
    {
        let p: u32 = if j == 1 {
            1
        } else if j == 2 || j == 3 {
            2
        } else if j == 4 {
            3
        } else {
            0
        };
        let ghost before = mesh.indices@;
        let ghost attrs_before = mesh.attributes@;
        mesh.indices.push(base + p);
        proof {
            assert(quad_indices(base as int).take(j + 1) =~= quad_indices(base as int).take(
                j as int,
            ).push((base + p) as u32));
            assert(mesh.attributes@ == attrs_before);
        }
        j = j + 1;
    }
    vivi.insert_quad(face, voxel, base);
    proof {
        assert(quad_indices(base as int).take(6) =~= quad_indices(base as int));
        let s1 = state_of(*mesh, *vivi);
        let t = s0.push_quad(QuadOwner { voxel, face }, corners);
        assert(s1.columns =~~= t.columns) by {
            assert forall|b: int| 0 <= b < n implies s1.columns[b] =~= t.columns[b] by {
                assert(mesh.attributes@[b].values@ == old(mesh).attributes@[b].values@
                    + proto_quad_column(*proto, ids[b], face, offset));
            }
        }
        assert(s1.indices =~= t.indices);
        assert(s1 == t);
        lemma_push_quad_wf(s0, QuadOwner { voxel, face }, corners);
        assert forall|k: int| 0 <= k < s1.owners.len() implies (#[trigger] s1.owners[k]).voxel
            < vivi.voxel_count() by {
            if k < s0.owners.len() {
                assert(s0.owners[k].voxel < old(vivi).voxel_count());
            }
        }
    }
}

/// Removes the quad that starts at vertex `quad` from `mesh`; the last quad of the
/// mesh takes its place, unless it was the last itself.
pub fn remove_quad(mesh: &mut Mesh, vivi: &mut CubeVIVI, quad: usize)
    requires
        cube_consistent(*old(mesh), *old(vivi)),
        quad % 4 == 0,
        quad / 4 < old(vivi).owners().len(),
    ensures
        cube_consistent(*final(mesh), *final(vivi)),
        final(mesh).ids() == old(mesh).ids(),
        final(vivi).voxel_count() == old(vivi).voxel_count(),
        state_of(*final(mesh), *final(vivi)) == state_of(*old(mesh), *old(vivi)).remove_quad(
            quad as int / 4,
        ),
{
    let ghost s0 = state_of(*old(mesh), *old(vivi));
    let ghost ids = old(mesh).ids();
    let ghost k = quad as int / 4;
    let ghost quads = old(vivi).owners().len() as int;
    let ghost count = 4 * quads;
    let n: usize = mesh.attributes.len();
    let mut a: usize = 0;
    proof {
        assert forall|b: int| 0 <= b < n implies (#[trigger] old(mesh).attributes@[b]).values@.len()
            == count by {
            assert(s0.columns[b].len() == 4 * s0.owners.len());
        }
    }
    while a < n
        invariant
            a <= n,
            n == mesh.attributes@.len(),
            n == old(mesh).attributes@.len(),
            mesh.ids() == ids,
            mesh.indices == old(mesh).indices,
            quad == 4 * k,
            count == 4 * quads,
            0 <= k < quads,
            forall|b: int|
                0 <= b < n ==> (#[trigger] old(mesh).attributes@[b]).values@.len() == count,
            forall|b: int|
                0 <= b < a ==> (#[trigger] mesh.attributes@[b]).values@ == swap_remove_quad(
                    old(mesh).attributes@[b].values@,
                    k,
                ),
            forall|b: int|
                a <= b < n ==> (#[trigger] mesh.attributes@[b]).values@ == old(mesh).attributes@[b].values@,
        decreases n - a,
    {
        let ghost before = mesh.attributes@[a as int].values@;
        let ghost ids_before = mesh.ids();
        let ghost attrs_before = mesh.attributes@;
        proof {
            assert(old(mesh).attributes@[a as int].values@.len() == count);
        }
        mesh.attributes[a].values.swap_remove(quad + 3);
        let ghost s1 = mesh.attributes@[a as int].values@;
        mesh.attributes[a].values.swap_remove(quad + 2);
        let ghost s2 = mesh.attributes@[a as int].values@;
        mesh.attributes[a].values.swap_remove(quad + 1);
        let ghost s3 = mesh.attributes@[a as int].values@;
        mesh.attributes[a].values.swap_remove(quad);
        proof {
            let s4 = mesh.attributes@[a as int].values@;
            let spec = swap_remove_quad(before, k);
            assert(s1 == before.update(quad + 3, before[count - 1]).drop_last());
            assert(s2 == s1.update(quad + 2, s1[count - 2]).drop_last());
            assert(s3 == s2.update(quad + 1, s2[count - 3]).drop_last());
            assert(s4 == s3.update(quad as int, s3[count - 4]).drop_last());
            assert(s4.len() == spec.len());
            assert forall|i: int| 0 <= i < s4.len() implies s4[i] == spec[i] by {
                if i == quad {
                    assert(s4[i] == s3[count - 4]);
                } else if i == quad + 1 {
                    assert(s4[i] == s3[i]);
                    assert(s3[i] == s2[count - 3]);
                } else if i == quad + 2 {
                    assert(s4[i] == s2[i]);
                    assert(s2[i] == s1[count - 2]);
                } else if i == quad + 3 {
                    assert(s4[i] == s1[i]);
                    assert(s1[i] == before[count - 1]);
                } else {
                    assert(s4[i] == before[i]);
                }
            }
            assert(mesh.attributes@[a as int].values@ =~= swap_remove_quad(before, k));
            assert forall|b: int| 0 <= b < n && b != a implies mesh.attributes@[b]
                == attrs_before[b] by {}
            assert(mesh.ids() =~= ids_before);
        }
        a = a + 1;
    }
    proof {
        assert(s0.indices.len() == 6 * s0.owners.len());
    }
    let mut j: usize = 0;
    while j < 6
        invariant
            j <= 6,
            mesh.attributes@.len() == n,
            mesh.ids() == ids,
            old(mesh).indices@.len() >= 6,
            forall|b: int|
                0 <= b < n ==> (#[trigger] mesh.attributes@[b]).values@ == swap_remove_quad(
                    old(mesh).attributes@[b].values@,
                    k,
                ),
            mesh.indices@ == old(mesh).indices@.take(old(mesh).indices@.len() - j),
        decreases 6 - j,
    {
        let ghost attrs_before = mesh.attributes@;
        mesh.indices.pop();
        proof {
            assert(mesh.indices@ =~= old(mesh).indices@.take(old(mesh).indices@.len() - j - 1));
            assert(mesh.attributes@ == attrs_before);
        }
        j = j + 1;
    }
    let last_vertex: usize = 4 * (vivi.map.len() - 1);
    vivi.remove_quad(quad);
    if quad != last_vertex {
        vivi.change_quad_index(last_vertex, quad);
    }
    proof {
        let s1 = state_of(*mesh, *vivi);
        let t = s0.remove_quad(k);
        assert(s1.owners =~= t.owners);
        assert(s1.columns =~~= t.columns) by {
            assert forall|b: int| 0 <= b < n implies s1.columns[b] =~= t.columns[b] by {
                assert(mesh.attributes@[b].values@ == swap_remove_quad(
                    old(mesh).attributes@[b].values@,
                    k,
                ));
            }
        }
        assert(s1 == t);
        lemma_remove_quad_wf(s0, k);
        assert forall|i: int| 0 <= i < s1.owners.len() implies (#[trigger] s1.owners[i]).voxel
            < vivi.voxel_count() by {
            if i == k {
                assert(s0.owners[s0.owners.len() - 1].voxel < old(vivi).voxel_count());
            } else {
                assert(s0.owners[i].voxel < old(vivi).voxel_count());
            }
        }
    }
}

} // verus!
