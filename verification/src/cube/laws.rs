//! What holds of merged cube meshes whatever the grid and the changes are.
use vstd::prelude::*;
use crate::chunk::{
    lemma_linear_index_bound, spec_index_to_pos, spec_neighbor_pos, spec_pos_to_index, BlockId,
    BlockPos, Dimensions, Grid,
};
use crate::cube::agree::{lemma_log_without_shows_agrees, log_agrees};
use crate::cube::md::{slot_of, QuadOwner, VoxelChange};
use crate::cube::meshify::{
    culled_faces, empty_state, spec_generated, spec_meshify, MeshingAlgorithm,
};
use crate::cube::state::{
    lemma_push_quad_wf, lemma_remove_quad_wf, proto_quad, CubeState,
};
use crate::cube::update::{
    all_faces, apply_change, apply_log, cube_flags, is_cube_block, lemma_owner_bound, offset_of,
    prototype_of, spec_add_quads_facing,
};
use crate::face::{face_at, lemma_face_codes, Face};
use crate::mesh::{AttributeId, Mesh, VertexValue};
use crate::mesh_reg::{spec_all_attributes, MeshRegistry};
use crate::sl::SmoothLightingParameters;
use crate::BlockMeshChange;

verus! {

/// A state in order whose quads belong to the first `n` voxels, all of which have a
/// place in a mesh with 32-bit indices, and which has `columns` attribute columns.
pub open spec fn state_fits(s: CubeState, n: nat, columns: nat) -> bool {
    &&& s.wf()
    &&& s.owners_in(n)
    &&& s.columns.len() == columns
    &&& 24 * n <= u32::MAX
}

/// Removing the quad of a face leaves the other quads, and only them.
pub proof fn lemma_remove_face(s: CubeState, n: nat, voxel: usize, face: Face)
    requires
        state_fits(s, n, s.columns.len()),
    ensures
        state_fits(s.remove_face(voxel, face), n, s.columns.len()),
        forall|o: QuadOwner| #[trigger]
            s.remove_face(voxel, face).owners.contains(o) <==> s.owners.contains(o) && o != (
            QuadOwner { voxel, face }),
{
    let t = s.remove_face(voxel, face);
    let gone = QuadOwner { voxel, face };
    match slot_of(s.owners, voxel, face) {
        Some(k) => {
            lemma_remove_quad_wf(s, k);
            assert(s.owners[k] == gone);
            assert forall|o: QuadOwner| #[trigger]
                t.owners.contains(o) <==> s.owners.contains(o) && o != gone by {
                assert(t.owners.to_set().contains(o) <==> s.owners.to_set().remove(gone).contains(
                    o,
                ));
            }
            assert forall|j: int| 0 <= j < t.owners.len() implies (#[trigger] t.owners[j]).voxel
                < n by {
                assert(t.owners.contains(t.owners[j]));
                let o = t.owners[j];
                let i = choose|i: int| 0 <= i < s.owners.len() && s.owners[i] == o;
                assert(s.owners[i].voxel < n);
            }
        },
        None => {},
    }
}

/// Removing the quads of the marked faces of a voxel leaves the other quads, and
/// only them.
pub proof fn lemma_remove_faces(s: CubeState, n: nat, voxel: usize, faces: Seq<bool>, upto: int)
    requires
        state_fits(s, n, s.columns.len()),
        0 <= upto <= 6,
    ensures
        state_fits(s.remove_faces(voxel, faces, upto), n, s.columns.len()),
        forall|o: QuadOwner| #[trigger]
            s.remove_faces(voxel, faces, upto).owners.contains(o) <==> s.owners.contains(o) && !(
            o.voxel == voxel && o.face.index() < upto && faces[o.face.index()]),
    decreases upto,
{
    if upto > 0 {
        let p = s.remove_faces(voxel, faces, upto - 1);
        lemma_remove_faces(s, n, voxel, faces, upto - 1);
        let t = s.remove_faces(voxel, faces, upto);
        lemma_face_codes(face_at(upto - 1), upto - 1);
        if faces[upto - 1] {
            lemma_remove_face(p, n, voxel, face_at(upto - 1));
        }
        assert forall|o: QuadOwner| #[trigger]
            t.owners.contains(o) <==> s.owners.contains(o) && !(o.voxel == voxel && o.face.index()
                < upto && faces[o.face.index()]) by {
            lemma_face_codes(o.face, 0);
            assert(p.owners.contains(o) <==> s.owners.contains(o) && !(o.voxel == voxel
                && o.face.index() < upto - 1 && faces[o.face.index()]));
            if o.face.index() == upto - 1 {
                assert(o.face == face_at(upto - 1));
            }
        }
    }
}

/// Adding the quad of a face leaves the other quads and adds just this one.
pub proof fn lemma_add_face(
    s: CubeState,
    n: nat,
    voxel: usize,
    face: Face,
    corners: Seq<Seq<VertexValue>>,
)
    requires
        state_fits(s, n, s.columns.len()),
        voxel < n,
        corners.len() == s.columns.len(),
        forall|a: int| 0 <= a < corners.len() ==> (#[trigger] corners[a]).len() == 4,
    ensures
        state_fits(s.add_face(voxel, face, corners), n, s.columns.len()),
        forall|o: QuadOwner| #[trigger]
            s.add_face(voxel, face, corners).owners.contains(o) <==> s.owners.contains(o) || o == (
            QuadOwner { voxel, face }),
{
    let t = s.add_face(voxel, face, corners);
    let new = QuadOwner { voxel, face };
    if !s.has_quad(voxel, face) {
        let more = s.owners.push(new);
        assert forall|i: int, j: int|
            0 <= i < more.len() && 0 <= j < more.len() && i != j implies more[i] != more[j] by {
            if i < s.owners.len() && j < s.owners.len() {
            } else if i < s.owners.len() {
                assert(s.owners.contains(s.owners[i]));
            } else {
                assert(s.owners.contains(s.owners[j]));
            }
        }
        assert forall|k: int| 0 <= k < more.len() implies (#[trigger] more[k]).voxel < n by {
            if k < s.owners.len() {
                assert(s.owners[k].voxel < n);
            }
        }
        lemma_owner_bound(more, n);
        lemma_push_quad_wf(s, new, corners);
        assert forall|o: QuadOwner| #[trigger]
            t.owners.contains(o) <==> s.owners.contains(o) || o == new by {
            assert(t.owners.to_set().contains(o) <==> s.owners.to_set().insert(new).contains(o));
        }
        assert(t.owners == more);
    }
}

/// Adding the quads of the faces of a voxel that are not marked leaves the other
/// quads and adds just those.
pub proof fn lemma_add_faces(
    s: CubeState,
    n: nat,
    voxel: usize,
    skip: Seq<bool>,
    proto: Mesh,
    ids: Seq<AttributeId>,
    offset: VertexValue,
    upto: int,
)
    requires
        state_fits(s, n, ids.len()),
        voxel < n,
        0 <= upto <= 6,
    ensures
        state_fits(s.add_faces(voxel, skip, proto, ids, offset, upto), n, ids.len()),
        forall|o: QuadOwner| #[trigger]
            s.add_faces(voxel, skip, proto, ids, offset, upto).owners.contains(o)
                <==> s.owners.contains(o) || (o.voxel == voxel && o.face.index() < upto
                && !skip[o.face.index()]),
    decreases upto,
{
    if upto > 0 {
        let p = s.add_faces(voxel, skip, proto, ids, offset, upto - 1);
        lemma_add_faces(s, n, voxel, skip, proto, ids, offset, upto - 1);
        let t = s.add_faces(voxel, skip, proto, ids, offset, upto);
        let face = face_at(upto - 1);
        lemma_face_codes(face, upto - 1);
        if !skip[upto - 1] {
            lemma_add_face(p, n, voxel, face, proto_quad(proto, ids, face, offset));
        }
        assert forall|o: QuadOwner| #[trigger]
            t.owners.contains(o) <==> s.owners.contains(o) || (o.voxel == voxel && o.face.index()
                < upto && !skip[o.face.index()]) by {
            lemma_face_codes(o.face, 0);
            assert(p.owners.contains(o) <==> s.owners.contains(o) || (o.voxel == voxel
                && o.face.index() < upto - 1 && !skip[o.face.index()]));
            if o.face.index() == upto - 1 {
                assert(o.face == face);
            }
        }
    }
}

/// Whether the voxel `voxel` is the cube recorded next to `pos` towards one of the
/// first `upto` faces.
pub open spec fn is_cube_neighbor<R: MeshRegistry>(
    reg: &R,
    dims: Dimensions,
    pos: BlockPos,
    neighbors: Seq<Option<BlockId>>,
    upto: int,
    voxel: usize,
) -> bool {
    exists|i: int|
        0 <= i < upto && #[trigger] cube_flags(reg, neighbors)[i] && spec_neighbor_pos(
            pos,
            face_at(i),
            dims,
        ) is Some && spec_pos_to_index(spec_neighbor_pos(pos, face_at(i), dims).unwrap(), dims)
            == Some(voxel)
}

/// Giving the cubes around a voxel the quads that face it adds quads to those
/// cubes only.
pub proof fn lemma_add_quads_facing<R: MeshRegistry>(
    s: CubeState,
    n: nat,
    reg: &R,
    ids: Seq<AttributeId>,
    pos: BlockPos,
    dims: Dimensions,
    neighbors: Seq<Option<BlockId>>,
    upto: int,
)
    requires
        state_fits(s, n, ids.len()),
        dims.volume() == n,
        0 <= upto <= 6,
    ensures
        state_fits(spec_add_quads_facing(s, reg, ids, pos, dims, neighbors, upto), n, ids.len()),
        forall|o: QuadOwner| #[trigger]
            spec_add_quads_facing(s, reg, ids, pos, dims, neighbors, upto).owners.contains(o)
                ==> s.owners.contains(o) || is_cube_neighbor(
                reg,
                dims,
                pos,
                neighbors,
                upto,
                o.voxel,
            ),
    decreases upto,
{
    if upto > 0 {
        let p = spec_add_quads_facing(s, reg, ids, pos, dims, neighbors, upto - 1);
        lemma_add_quads_facing(s, n, reg, ids, pos, dims, neighbors, upto - 1);
        let t = spec_add_quads_facing(s, reg, ids, pos, dims, neighbors, upto);
        let face = face_at(upto - 1);
        match (neighbors[upto - 1], spec_neighbor_pos(pos, face, dims)) {
            (Some(b), Some(np)) => {
                if is_cube_block(reg, b) {
                    lemma_linear_index_bound(np, dims);
                    let v = spec_pos_to_index(np, dims).unwrap();
                    lemma_add_face(
                        p,
                        n,
                        v,
                        face.spec_opposite(),
                        proto_quad(prototype_of(reg, b), ids, face.spec_opposite(), offset_of(np)),
                    );
                    assert(cube_flags(reg, neighbors)[upto - 1]);
                }
            },
            _ => {},
        }
        assert forall|o: QuadOwner| #[trigger]
            t.owners.contains(o) implies s.owners.contains(o) || is_cube_neighbor(
            reg,
            dims,
            pos,
            neighbors,
            upto,
            o.voxel,
        ) by {
            if p.owners.contains(o) {
                if !s.owners.contains(o) {
                    let i = choose|i: int|
                        0 <= i < upto - 1 && #[trigger] cube_flags(reg, neighbors)[i]
                            && spec_neighbor_pos(pos, face_at(i), dims) is Some
                            && spec_pos_to_index(
                            spec_neighbor_pos(pos, face_at(i), dims).unwrap(),
                            dims,
                        ) == Some(o.voxel);
                    assert(cube_flags(reg, neighbors)[i]);
                }
            } else {
                assert(cube_flags(reg, neighbors)[upto - 1]);
            }
        }
    }
}

/// After generation every face of a cube that is not culled has its quad, and
/// there is no other quad.
pub proof fn lemma_meshify_owners<R: MeshRegistry, const N: usize>(
    grid: &Grid<N>,
    reg: &R,
    ids: Seq<AttributeId>,
    open: Seq<bool>,
    algorithm: MeshingAlgorithm,
    upto: int,
)
    requires
        grid.wf(),
        24 * N <= u32::MAX,
        0 <= upto <= N,
    ensures
        state_fits(spec_meshify(grid, reg, ids, open, algorithm, upto), N as nat, ids.len()),
        forall|o: QuadOwner| #[trigger]
            spec_meshify(grid, reg, ids, open, algorithm, upto).owners.contains(o) <==> (o.voxel
                < upto && is_cube_block(reg, grid.cells()[o.voxel as int]) && !culled_faces(
                grid,
                reg,
                open,
                algorithm,
                spec_index_to_pos(o.voxel, grid.dims).unwrap(),
            )[o.face.index()]),
    decreases upto,
{
    let t = spec_meshify(grid, reg, ids, open, algorithm, upto);
    if upto <= 0 {
        assert(t == empty_state(ids.len()));
        assert forall|o: QuadOwner| !(#[trigger] t.owners.contains(o)) by {}
    } else {
        let p = spec_meshify(grid, reg, ids, open, algorithm, upto - 1);
        lemma_meshify_owners(grid, reg, ids, open, algorithm, upto - 1);
        let v = (upto - 1) as usize;
        let block = grid.cells()[upto - 1];
        let pos = spec_index_to_pos(v, grid.dims).unwrap();
        let culled = culled_faces(grid, reg, open, algorithm, pos);
        if is_cube_block(reg, block) {
            lemma_add_faces(p, N as nat, v, culled, prototype_of(reg, block), ids, offset_of(pos), 6);
        }
        assert forall|o: QuadOwner| #[trigger]
            t.owners.contains(o) <==> (o.voxel < upto && is_cube_block(
                reg,
                grid.cells()[o.voxel as int],
            ) && !culled_faces(
                grid,
                reg,
                open,
                algorithm,
                spec_index_to_pos(o.voxel, grid.dims).unwrap(),
            )[o.face.index()]) by {
            lemma_face_codes(o.face, 0);
            assert(p.owners.contains(o) <==> (o.voxel < upto - 1 && is_cube_block(
                reg,
                grid.cells()[o.voxel as int],
            ) && !culled_faces(
                grid,
                reg,
                open,
                algorithm,
                spec_index_to_pos(o.voxel, grid.dims).unwrap(),
            )[o.face.index()]));
        }
    }
}

/// The voxel that a change speaks of.
pub open spec fn voxel_of(dims: Dimensions, change: VoxelChange) -> usize {
    spec_pos_to_index(change.1, dims).unwrap()
}

/// A log that takes a chunk apart: every change breaks a cube, no voxel is broken
/// twice, and the neighbors that a change records as cubes are voxels that are
/// broken later.
pub open spec fn breaks_apart<R: MeshRegistry>(reg: &R, dims: Dimensions, log: Seq<VoxelChange>) -> bool {
    &&& forall|k: int|
        0 <= k < log.len() ==> {
            let change = #[trigger] log[k];
            &&& change.2 == BlockMeshChange::Broken
            &&& is_cube_block(reg, change.0)
            &&& spec_pos_to_index(change.1, dims) is Some
        }
    &&& forall|j: int, k: int|
        0 <= j < k < log.len() ==> voxel_of(dims, #[trigger] log[j]) != voxel_of(
            dims,
            #[trigger] log[k],
        )
    &&& forall|k: int, v: usize|
        0 <= k < log.len() && #[trigger] is_cube_neighbor(
            reg,
            dims,
            log[k].1,
            log[k].3@,
            6,
            v,
        ) ==> broken_from(dims, log, k + 1, v)
}

/// Whether the voxel `v` is broken by one of the changes from place `from` on.
pub open spec fn broken_from(dims: Dimensions, log: Seq<VoxelChange>, from: int, v: usize) -> bool {
    exists|j: int| from <= j < log.len() && voxel_of(dims, #[trigger] log[j]) == v
}

/// While a chunk is taken apart, quads are left only on voxels that are still to
/// be broken.
proof fn lemma_break_steps<R: MeshRegistry>(
    s: CubeState,
    n: nat,
    reg: &R,
    ids: Seq<AttributeId>,
    dims: Dimensions,
    log: Seq<VoxelChange>,
    upto: int,
)
    requires
        state_fits(s, n, ids.len()),
        dims.volume() == n,
        breaks_apart(reg, dims, log),
        0 <= upto <= log.len(),
        forall|o: QuadOwner| #[trigger] s.owners.contains(o) ==> broken_from(dims, log, 0, o.voxel),
    ensures
        state_fits(apply_log(s, reg, ids, dims, log, upto), n, ids.len()),
        forall|o: QuadOwner| #[trigger]
            apply_log(s, reg, ids, dims, log, upto).owners.contains(o) ==> broken_from(
                dims,
                log,
                upto,
                o.voxel,
            ),
    decreases upto,
{
    if upto > 0 {
        let p = apply_log(s, reg, ids, dims, log, upto - 1);
        lemma_break_steps(s, n, reg, ids, dims, log, upto - 1);
        let change = log[upto - 1];
        let t = apply_change(p, reg, ids, dims, change);
        let voxel = voxel_of(dims, change);
        let cleared = p.remove_faces(voxel, all_faces(), 6);
        lemma_remove_faces(p, n, voxel, all_faces(), 6);
        lemma_add_quads_facing(cleared, n, reg, ids, change.1, dims, change.3@, 6);
        assert(t == spec_add_quads_facing(cleared, reg, ids, change.1, dims, change.3@, 6));
        assert forall|o: QuadOwner| #[trigger] t.owners.contains(o) implies broken_from(
            dims,
            log,
            upto,
            o.voxel,
        ) by {
            if cleared.owners.contains(o) {
                lemma_face_codes(o.face, 0);
                assert(p.owners.contains(o));
                assert(o.voxel != voxel);
                let j = choose|j: int|
                    upto - 1 <= j < log.len() && voxel_of(dims, #[trigger] log[j]) == o.voxel;
                assert(j != upto - 1);
                assert(voxel_of(dims, log[j]) == o.voxel);
            } else {
                assert(is_cube_neighbor(reg, dims, change.1, change.3@, 6, o.voxel));
            }
        }
    }
}

/// Round trip: when a chunk has been generated and then every cube that it held
/// is broken, in any order and with neighbor records that tell which cubes still
/// stand, nothing is left of the mesh: no quad, no vertex and no index.
pub proof fn lemma_break_all_leaves_nothing<R: MeshRegistry, const N: usize>(
    grid: &Grid<N>,
    reg: &R,
    open: Seq<bool>,
    algorithm: MeshingAlgorithm,
    smooth_lighting_params: Option<SmoothLightingParameters>,
    log: Seq<VoxelChange>,
)
    requires
        grid.wf(),
        24 * N <= u32::MAX,
        breaks_apart(reg, grid.dims, log),
        forall|v: int|
            0 <= v < N && is_cube_block(reg, #[trigger] grid.cells()[v]) ==> broken_from(
                grid.dims,
                log,
                0,
                v as usize,
            ),
    ensures
        ({
            let generated = spec_generated(grid, reg, open, algorithm, smooth_lighting_params);
            let end = apply_log(
                generated,
                reg,
                spec_all_attributes(),
                grid.dims,
                log,
                log.len() as int,
            );
            &&& end.owners.len() == 0
            &&& end.indices.len() == 0
            &&& forall|a: int| 0 <= a < end.columns.len() ==> (#[trigger] end.columns[a]).len() == 0
            &&& log_agrees(generated, reg, spec_all_attributes(), grid.dims, log, log.len() as int)
        }),
{
    lemma_log_without_shows_agrees(
        spec_generated(grid, reg, open, algorithm, smooth_lighting_params),
        reg,
        spec_all_attributes(),
        grid.dims,
        log,
        log.len() as int,
    );
    let ids = spec_all_attributes();
    let plain = spec_meshify(grid, reg, ids, open, algorithm, N as int);
    let generated = spec_generated(grid, reg, open, algorithm, smooth_lighting_params);
    lemma_meshify_owners(grid, reg, ids, open, algorithm, N as int);
    // lighting touches the colors alone
    assert(generated.owners == plain.owners && generated.indices == plain.indices);
    assert(generated.columns.len() == plain.columns.len());
    assert forall|a: int| 0 <= a < generated.columns.len() implies (
    #[trigger] generated.columns[a]).len() == 4 * generated.owners.len() by {
        assert(plain.columns[a].len() == 4 * plain.owners.len());
    }
    assert forall|i: int| 0 <= i < generated.indices.len() implies #[trigger] generated.index_ok(
        i,
    ) by {
        assert(plain.index_ok(i));
    }
    assert forall|k: int| 0 <= k < generated.owners.len() implies (
    #[trigger] generated.owners[k]).voxel < N by {
        assert(plain.owners[k].voxel < N);
    }
    assert forall|o: QuadOwner| #[trigger] generated.owners.contains(o) implies broken_from(
        grid.dims,
        log,
        0,
        o.voxel,
    ) by {
        assert(plain.owners.contains(o));
        assert(is_cube_block(reg, grid.cells()[o.voxel as int]));
    }
    lemma_break_steps(generated, N as nat, reg, ids, grid.dims, log, log.len() as int);
    let end = apply_log(generated, reg, ids, grid.dims, log, log.len() as int);
    if end.owners.len() > 0 {
        assert(end.owners.contains(end.owners[0]));
        assert(broken_from(grid.dims, log, log.len() as int, end.owners[0].voxel));
    }
}

/// The stitching changes are just those that the covered cells of the border ask
/// for.
pub proof fn lemma_stitch_changes<R: MeshRegistry, const N: usize>(
    owners: Seq<QuadOwner>,
    dims: Dimensions,
    reg: &R,
    side: Face,
    adjacent: &Grid<N>,
    positions: Seq<BlockPos>,
    upto: int,
)
    requires
        0 <= upto <= positions.len(),
    ensures
        forall|e: int|
            0 <= e < crate::adj::stitch_changes(
                owners,
                dims,
                reg,
                side,
                adjacent,
                positions,
                upto,
            ).len() ==> {
                let change = #[trigger] crate::adj::stitch_changes(
                    owners,
                    dims,
                    reg,
                    side,
                    adjacent,
                    positions,
                    upto,
                )[e];
                &&& change.2 == BlockMeshChange::CullFaces
                &&& is_cube_block(reg, change.0)
                &&& change.3 == crate::adj::sole_neighbor(side, change.0)
                &&& spec_pos_to_index(change.1, dims) is Some
                &&& owners.contains(QuadOwner { voxel: voxel_of(dims, change), face: side })
            },
        forall|i: int|
            0 <= i < upto && crate::adj::covering_cube(
                owners,
                dims,
                reg,
                side,
                adjacent,
                #[trigger] positions[i],
            ) is Some ==> exists|e: int|
                0 <= e < crate::adj::stitch_changes(
                    owners,
                    dims,
                    reg,
                    side,
                    adjacent,
                    positions,
                    upto,
                ).len() && (#[trigger] crate::adj::stitch_changes(
                    owners,
                    dims,
                    reg,
                    side,
                    adjacent,
                    positions,
                    upto,
                )[e]).1 == positions[i],
        (forall|i: int|
            0 <= i < upto ==> crate::adj::covering_cube(
                owners,
                dims,
                reg,
                side,
                adjacent,
                #[trigger] positions[i],
            ) is None) ==> crate::adj::stitch_changes(
            owners,
            dims,
            reg,
            side,
            adjacent,
            positions,
            upto,
        ).len() == 0,
    decreases upto,
{
    if upto > 0 {
        let rest = crate::adj::stitch_changes(owners, dims, reg, side, adjacent, positions, upto - 1);
        let all = crate::adj::stitch_changes(owners, dims, reg, side, adjacent, positions, upto);
        lemma_stitch_changes(owners, dims, reg, side, adjacent, positions, upto - 1);
        let last = crate::adj::covering_cube(owners, dims, reg, side, adjacent, positions[upto - 1]);
        assert forall|i: int|
            0 <= i < upto && crate::adj::covering_cube(
                owners,
                dims,
                reg,
                side,
                adjacent,
                #[trigger] positions[i],
            ) is Some implies exists|e: int|
            0 <= e < all.len() && (#[trigger] all[e]).1 == positions[i] by {
            if i < upto - 1 {
                let e = choose|e: int| 0 <= e < rest.len() && (#[trigger] rest[e]).1 == positions[i];
                assert(all[e] == rest[e]);
            } else {
                assert(all[rest.len() as int].1 == positions[i]);
            }
        }
        assert forall|e: int| 0 <= e < all.len() implies {
            let change = #[trigger] all[e];
            &&& change.2 == BlockMeshChange::CullFaces
            &&& is_cube_block(reg, change.0)
            &&& change.3 == crate::adj::sole_neighbor(side, change.0)
            &&& spec_pos_to_index(change.1, dims) is Some
            &&& owners.contains(QuadOwner { voxel: voxel_of(dims, change), face: side })
        } by {
            if e < rest.len() {
                assert(all[e] == rest[e]);
            }
        }
        if forall|i: int|
            0 <= i < upto ==> crate::adj::covering_cube(
                owners,
                dims,
                reg,
                side,
                adjacent,
                #[trigger] positions[i],
            ) is None {
            assert(crate::adj::covering_cube(
                owners,
                dims,
                reg,
                side,
                adjacent,
                positions[upto - 1],
            ) is None);
        }
    }
}

/// A log of changes each of which culls the quad of one voxel towards `side`.
pub open spec fn culls_side<R: MeshRegistry>(
    reg: &R,
    dims: Dimensions,
    side: Face,
    log: Seq<VoxelChange>,
) -> bool {
    forall|e: int|
        0 <= e < log.len() ==> {
            let change = #[trigger] log[e];
            &&& change.2 == BlockMeshChange::CullFaces
            &&& is_cube_block(reg, change.0)
            &&& change.3 == crate::adj::sole_neighbor(side, change.0)
            &&& spec_pos_to_index(change.1, dims) is Some
        }
}

/// Applying changes that cull quads towards `side` removes just the quads that they
/// name.
pub proof fn lemma_cull_steps<R: MeshRegistry>(
    s: CubeState,
    n: nat,
    reg: &R,
    ids: Seq<AttributeId>,
    dims: Dimensions,
    side: Face,
    log: Seq<VoxelChange>,
    upto: int,
)
    requires
        state_fits(s, n, ids.len()),
        culls_side(reg, dims, side, log),
        0 <= upto <= log.len(),
    ensures
        state_fits(apply_log(s, reg, ids, dims, log, upto), n, ids.len()),
        forall|o: QuadOwner| #[trigger]
            apply_log(s, reg, ids, dims, log, upto).owners.contains(o) <==> s.owners.contains(o)
                && !(o.face == side && exists|e: int|
                0 <= e < upto && voxel_of(dims, #[trigger] log[e]) == o.voxel),
    decreases upto,
{
    if upto > 0 {
        let p = apply_log(s, reg, ids, dims, log, upto - 1);
        lemma_cull_steps(s, n, reg, ids, dims, side, log, upto - 1);
        let change = log[upto - 1];
        let t = apply_change(p, reg, ids, dims, change);
        let voxel = voxel_of(dims, change);
        let flags = cube_flags(reg, change.3@);
        lemma_remove_faces(p, n, voxel, flags, 6);
        assert(t == p.remove_faces(voxel, flags, 6));
        lemma_face_codes(side, 0);
        assert forall|i: int| 0 <= i < 6 implies flags[i] == (i == side.index()) by {
            lemma_face_codes(face_at(i), i);
        }
        assert forall|o: QuadOwner| #[trigger]
            t.owners.contains(o) <==> s.owners.contains(o) && !(o.face == side && exists|e: int|
                0 <= e < upto && voxel_of(dims, #[trigger] log[e]) == o.voxel) by {
            lemma_face_codes(o.face, 0);
            let before = exists|e: int|
                0 <= e < upto - 1 && voxel_of(dims, #[trigger] log[e]) == o.voxel;
            let now = exists|e: int| 0 <= e < upto && voxel_of(dims, #[trigger] log[e]) == o.voxel;
            assert(p.owners.contains(o) <==> s.owners.contains(o) && !(o.face == side && before));
            if before {
                let e = choose|e: int|
                    0 <= e < upto - 1 && voxel_of(dims, #[trigger] log[e]) == o.voxel;
                assert(voxel_of(dims, log[e]) == o.voxel);
            }
            if o.voxel == voxel {
                assert(voxel_of(dims, log[upto - 1]) == o.voxel);
            }
            if now && !before {
                let e = choose|e: int| 0 <= e < upto && voxel_of(dims, #[trigger] log[e]) == o.voxel;
                assert(e == upto - 1);
            }
            if o.face.index() == side.index() {
                assert(o.face == side);
            }
        }
    }
}

/// Idempotent culling: when a chunk has been stitched to an adjacent chunk and the
/// logged changes have been applied, no cell of the border is left with a quad that
/// a cube of the adjacent chunk covers, so that stitching the same pair once more
/// logs nothing and leaves the mesh as it is.
pub proof fn lemma_stitch_twice<R: MeshRegistry, const N: usize>(
    s: CubeState,
    n: nat,
    reg: &R,
    ids: Seq<AttributeId>,
    dims: Dimensions,
    side: Face,
    adjacent: &Grid<N>,
    positions: Seq<BlockPos>,
)
    requires
        state_fits(s, n, ids.len()),
    ensures
        ({
            let first = crate::adj::stitch_changes(
                s.owners,
                dims,
                reg,
                side,
                adjacent,
                positions,
                positions.len() as int,
            );
            let stitched = apply_log(s, reg, ids, dims, first, first.len() as int);
            let second = crate::adj::stitch_changes(
                stitched.owners,
                dims,
                reg,
                side,
                adjacent,
                positions,
                positions.len() as int,
            );
            &&& second.len() == 0
            &&& log_agrees(s, reg, ids, dims, first, first.len() as int)
            &&& apply_log(stitched, reg, ids, dims, second, second.len() as int) == stitched
            &&& forall|i: int|
                0 <= i < positions.len() ==> crate::adj::covering_cube(
                    stitched.owners,
                    dims,
                    reg,
                    side,
                    adjacent,
                    #[trigger] positions[i],
                ) is None
        }),
{
    let len = positions.len() as int;
    let first = crate::adj::stitch_changes(s.owners, dims, reg, side, adjacent, positions, len);
    lemma_stitch_changes(s.owners, dims, reg, side, adjacent, positions, len);
    lemma_log_without_shows_agrees(s, reg, ids, dims, first, first.len() as int);
    lemma_cull_steps(s, n, reg, ids, dims, side, first, first.len() as int);
    let stitched = apply_log(s, reg, ids, dims, first, first.len() as int);
    assert forall|i: int| 0 <= i < len implies crate::adj::covering_cube(
        stitched.owners,
        dims,
        reg,
        side,
        adjacent,
        #[trigger] positions[i],
    ) is None by {
        let pos = positions[i];
        if crate::adj::covering_cube(stitched.owners, dims, reg, side, adjacent, pos) is Some {
            let v = spec_pos_to_index(pos, dims).unwrap();
            let o = QuadOwner { voxel: v, face: side };
            assert(stitched.owners.contains(o));
            assert(s.owners.contains(o));
            assert(crate::adj::covering_cube(s.owners, dims, reg, side, adjacent, pos) is Some);
            let e = choose|e: int| 0 <= e < first.len() && (#[trigger] first[e]).1 == pos;
            assert(voxel_of(dims, first[e]) == o.voxel);
        }
    }
    lemma_stitch_changes(stitched.owners, dims, reg, side, adjacent, positions, len);
}

} // verus!
