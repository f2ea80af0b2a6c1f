//! Telling whether a log of changes agrees with the quads that a mesh of cubes holds.
use vstd::prelude::*;
use crate::chunk::{
    lemma_linear_index_bound, neighbor_pos, pos_to_index, spec_neighbor_pos, spec_pos_to_index,
    BlockId, BlockPos, Dimensions, SurroundingBlocks,
};
use crate::cube::laws::{lemma_add_face, lemma_remove_face, state_fits};
use crate::cube::md::{CubeMD, QuadOwner, VoxelChange};
use crate::cube::state::{cube_consistent, proto_quad, state_of, CubeState};
use crate::cube::update::{
    all_faces, apply_change, apply_log, cube_flags, cube_neighbors, is_cube_block,
    lemma_log_error_none, log_error, offset_of, prototype_of, spec_add_quads_facing,
    spec_remove_quads_facing,
};
use crate::face::{face_at, lemma_face_codes, Face};
use crate::mesh::{AttributeId, Mesh, VertexValue};
use crate::mesh_reg::{MeshRegistry, MeshRegistryCommon};
use crate::BlockMeshChange;

verus! {

/// The change agrees with the state: where it asks that faces of a cube be shown
/// again, the voxel has no quad for any of the faces that it asks for.
pub open spec fn change_agrees<R: MeshRegistry>(
    s: CubeState,
    reg: &R,
    dims: Dimensions,
    change: VoxelChange,
) -> bool {
    is_cube_block(reg, change.0) && change.2 == BlockMeshChange::AddFaces ==> forall|f: int|
        0 <= f < 6 && !(#[trigger] cube_flags(reg, change.3@)[f]) ==> !s.has_quad(
            spec_pos_to_index(change.1, dims).unwrap(),
            face_at(f),
        )
}

/// Each of the first `upto` changes agrees with the state that the changes before
/// it leave.
pub open spec fn log_agrees<R: MeshRegistry>(
    s: CubeState,
    reg: &R,
    ids: Seq<AttributeId>,
    dims: Dimensions,
    log: Seq<VoxelChange>,
    upto: int,
) -> bool
    decreases upto,
{
    if upto <= 0 {
        true
    } else {
        &&& log_agrees(s, reg, ids, dims, log, upto - 1)
        &&& change_agrees(apply_log(s, reg, ids, dims, log, upto - 1), reg, dims, log[upto - 1])
    }
}

/// A log that agrees with the mesh agrees with it in its first changes.
pub proof fn lemma_log_agrees_part<R: MeshRegistry>(
    s: CubeState,
    reg: &R,
    ids: Seq<AttributeId>,
    dims: Dimensions,
    log: Seq<VoxelChange>,
    upto: int,
    end: int,
)
    requires
        0 <= upto <= end,
        log_agrees(s, reg, ids, dims, log, end),
    ensures
        log_agrees(s, reg, ids, dims, log, upto),
    decreases end - upto,
{
    if upto < end {
        lemma_log_agrees_part(s, reg, ids, dims, log, upto, end - 1);
    }
}

/// A log that never asks to show faces again agrees with every state.
pub proof fn lemma_log_without_shows_agrees<R: MeshRegistry>(
    s: CubeState,
    reg: &R,
    ids: Seq<AttributeId>,
    dims: Dimensions,
    log: Seq<VoxelChange>,
    upto: int,
)
    requires
        0 <= upto <= log.len(),
        forall|k: int| 0 <= k < log.len() ==> (#[trigger] log[k]).2 != BlockMeshChange::AddFaces,
    ensures
        log_agrees(s, reg, ids, dims, log, upto),
    decreases upto,
{
    if upto > 0 {
        lemma_log_without_shows_agrees(s, reg, ids, dims, log, upto - 1);
        assert(log[upto - 1].2 != BlockMeshChange::AddFaces);
    }
}

/// The place of the face with the code `f` of the voxel `v` in a table of all
/// faces of all voxels.
pub open spec fn face_slot(v: int, f: int) -> int {
    6 * v + f
}

/// The table tells of every face of every voxel whether the voxel has a quad for
/// it in the state `s`.
pub open spec fn table_tracks(table: Seq<bool>, s: CubeState, voxels: nat) -> bool {
    &&& table.len() == 6 * voxels
    &&& forall|v: int, f: int|
        0 <= v < voxels && 0 <= f < 6 ==> (#[trigger] table[face_slot(v, f)]) == s.owners.contains(
            QuadOwner { voxel: v as usize, face: face_at(f) },
        )
}

/// Notes whether the voxel has the quad of a face.
fn note_face(table: &mut Vec<bool>, voxel: usize, face: Face, has: bool, Ghost(voxels): Ghost<nat>)
    requires
        old(table)@.len() == 6 * voxels,
        voxel < voxels,
        6 * voxels <= usize::MAX,
    ensures
        final(table)@ == old(table)@.update(face_slot(voxel as int, face.index()), has),
{
    let slot: usize = 6 * voxel + face.to_index();
    table[slot] = has;
}

/// Follows the removal of the quad of a face.
fn follow_remove_face(
    table: &mut Vec<bool>,
    voxel: usize,
    face: Face,
    Ghost(s): Ghost<CubeState>,
    Ghost(voxels): Ghost<nat>,
)
    requires
        table_tracks(old(table)@, s, voxels),
        state_fits(s, voxels, s.columns.len()),
        voxel < voxels,
    ensures
        table_tracks(final(table)@, s.remove_face(voxel, face), voxels),
        state_fits(s.remove_face(voxel, face), voxels, s.columns.len()),
{
    note_face(table, voxel, face, false, Ghost(voxels));
    proof {
        lemma_remove_face(s, voxels, voxel, face);
        let t = s.remove_face(voxel, face);
        assert forall|v: int, f: int| 0 <= v < voxels && 0 <= f < 6 implies (
        #[trigger] table@[face_slot(v, f)]) == t.owners.contains(
            QuadOwner { voxel: v as usize, face: face_at(f) },
        ) by {
            let o = QuadOwner { voxel: v as usize, face: face_at(f) };
            lemma_face_codes(face, f);
            assert(old(table)@[face_slot(v, f)] == s.owners.contains(o));
            assert(t.owners.contains(o) <==> s.owners.contains(o) && o != (QuadOwner {
                voxel,
                face,
            }));
        }
    }
}

/// Follows the adding of the quad of a face.
fn follow_add_face(
    table: &mut Vec<bool>,
    voxel: usize,
    face: Face,
    Ghost(s): Ghost<CubeState>,
    Ghost(voxels): Ghost<nat>,
    Ghost(corners): Ghost<Seq<Seq<VertexValue>>>,
)
    requires
        table_tracks(old(table)@, s, voxels),
        state_fits(s, voxels, s.columns.len()),
        voxel < voxels,
        corners.len() == s.columns.len(),
        forall|a: int| 0 <= a < corners.len() ==> (#[trigger] corners[a]).len() == 4,
    ensures
        table_tracks(final(table)@, s.add_face(voxel, face, corners), voxels),
        state_fits(s.add_face(voxel, face, corners), voxels, s.columns.len()),
{
    note_face(table, voxel, face, true, Ghost(voxels));
    proof {
        lemma_add_face(s, voxels, voxel, face, corners);
        let t = s.add_face(voxel, face, corners);
        assert forall|v: int, f: int| 0 <= v < voxels && 0 <= f < 6 implies (
        #[trigger] table@[face_slot(v, f)]) == t.owners.contains(
            QuadOwner { voxel: v as usize, face: face_at(f) },
        ) by {
            let o = QuadOwner { voxel: v as usize, face: face_at(f) };
            lemma_face_codes(face, f);
            assert(old(table)@[face_slot(v, f)] == s.owners.contains(o));
            assert(t.owners.contains(o) <==> s.owners.contains(o) || o == (QuadOwner {
                voxel,
                face,
            }));
        }
    }
}

/// The quads of a prototype have four values in each column.
proof fn lemma_proto_quad_shape(proto: Mesh, ids: Seq<AttributeId>, face: Face, offset: VertexValue)
    ensures
        proto_quad(proto, ids, face, offset).len() == ids.len(),
        forall|a: int|
            0 <= a < ids.len() ==> (#[trigger] proto_quad(proto, ids, face, offset)[a]).len() == 4,
{
}

/// Follows one change of a cube.
fn follow_change<R: MeshRegistry>(
    table: &mut Vec<bool>,
    reg: &R,
    dims: Dimensions,
    change: &VoxelChange,
    Ghost(s): Ghost<CubeState>,
    Ghost(ids): Ghost<Seq<AttributeId>>,
)
    requires
        table_tracks(old(table)@, s, dims.volume()),
        state_fits(s, dims.volume(), ids.len()),
        is_cube_block(reg, change.0),
        spec_pos_to_index(change.1, dims) is Some,
    ensures
        table_tracks(final(table)@, apply_change(s, reg, ids, dims, *change), dims.volume()),
        state_fits(apply_change(s, reg, ids, dims, *change), dims.volume(), ids.len()),
{
    let ghost voxels = dims.volume();
    let block_pos: BlockPos = change.1;
    let surrounding_blocks: &SurroundingBlocks<BlockId> = &change.3;
    proof {
        lemma_linear_index_bound(block_pos, dims);
    }
    let voxel: usize = pos_to_index(block_pos, dims).unwrap();
    let cube: [bool; 6] = cube_neighbors(reg, surrounding_blocks);
    let ghost proto = prototype_of(reg, change.0);
    let ghost offset = offset_of(block_pos);
    let ghost mut now = s;
    let clears: bool = match change.2 {
        BlockMeshChange::Added => true,
        BlockMeshChange::Broken => true,
        _ => false,
    };
    let culls: bool = match change.2 {
        BlockMeshChange::CullFaces => true,
        _ => false,
    };
    let shows: bool = match change.2 {
        BlockMeshChange::Added => true,
        BlockMeshChange::AddFaces => true,
        _ => false,
    };
    if clears || culls {
        let ghost flags = if clears {
            all_faces()
        } else {
            cube@
        };
        let ghost start = now;
        let mut i: usize = 0;
        while i < 6
            invariant
                i <= 6,
                voxel < voxels,
                voxels == dims.volume(),
                flags == (if clears {
                    all_faces()
                } else {
                    cube@
                }),
                table_tracks(table@, now, voxels),
                state_fits(now, voxels, ids.len()),
                now == start.remove_faces(voxel, flags, i as int),
            decreases 6 - i,
        {
            if clears || cube[i] {
                let face: Face = Face::from_index(i).unwrap();
                follow_remove_face(table, voxel, face, Ghost(now), Ghost(voxels));
                proof {
                    now = now.remove_face(voxel, face);
                }
            }
            i = i + 1;
        }
    }
    if shows {
        let ghost start = now;
        let mut i: usize = 0;
        while i < 6
            invariant
                i <= 6,
                voxel < voxels,
                voxels == dims.volume(),
                table_tracks(table@, now, voxels),
                state_fits(now, voxels, ids.len()),
                now == start.add_faces(voxel, cube@, proto, ids, offset, i as int),
            decreases 6 - i,
        {
            if !cube[i] {
                let face: Face = Face::from_index(i).unwrap();
                proof {
                    lemma_proto_quad_shape(proto, ids, face, offset);
                }
                follow_add_face(
                    table,
                    voxel,
                    face,
                    Ghost(now),
                    Ghost(voxels),
                    Ghost(proto_quad(proto, ids, face, offset)),
                );
                proof {
                    now = now.add_face(voxel, face, proto_quad(proto, ids, face, offset));
                }
            }
            i = i + 1;
        }
    }
    match change.2 {
        BlockMeshChange::Added => {
            let ghost start = now;
            let mut i: usize = 0;
            while i < 6
                invariant
                    i <= 6,
                    voxels == dims.volume(),
                    table_tracks(table@, now, voxels),
                    state_fits(now, voxels, ids.len()),
                    now == spec_remove_quads_facing(start, block_pos, dims, cube@, i as int),
                decreases 6 - i,
            {
                let face: Face = Face::from_index(i).unwrap();
                match neighbor_pos(block_pos, face, dims) {
                    Some(neighbor) => {
                        if cube[i] {
                            proof {
                                lemma_linear_index_bound(neighbor, dims);
                            }
                            let neighbor_index: usize = pos_to_index(neighbor, dims).unwrap();
                            follow_remove_face(
                                table,
                                neighbor_index,
                                face.opposite(),
                                Ghost(now),
                                Ghost(voxels),
                            );
                            proof {
                                now = now.remove_face(neighbor_index, face.spec_opposite());
                            }
                        }
                    },
                    None => {},
                }
                i = i + 1;
            }
        },
        BlockMeshChange::Broken => {
            let ghost start = now;
            let mut i: usize = 0;
            while i < 6
                invariant
                    i <= 6,
                    voxels == dims.volume(),
                    *surrounding_blocks == change.3,
                    table_tracks(table@, now, voxels),
                    state_fits(now, voxels, ids.len()),
                    now == spec_add_quads_facing(
                        start,
                        reg,
                        ids,
                        block_pos,
                        dims,
                        surrounding_blocks@,
                        i as int,
                    ),
                decreases 6 - i,
            {
                let face: Face = Face::from_index(i).unwrap();
                match (surrounding_blocks[i], neighbor_pos(block_pos, face, dims)) {
                    (Some(b), Some(neighbor)) => {
                        if reg.is_cube(&b) {
                            proof {
                                lemma_linear_index_bound(neighbor, dims);
                                lemma_proto_quad_shape(
                                    prototype_of(reg, b),
                                    ids,
                                    face.spec_opposite(),
                                    offset_of(neighbor),
                                );
                            }
                            let neighbor_index: usize = pos_to_index(neighbor, dims).unwrap();
                            let ghost corners = proto_quad(
                                prototype_of(reg, b),
                                ids,
                                face.spec_opposite(),
                                offset_of(neighbor),
                            );
                            follow_add_face(
                                table,
                                neighbor_index,
                                face.opposite(),
                                Ghost(now),
                                Ghost(voxels),
                                Ghost(corners),
                            );
                            proof {
                                now = now.add_face(neighbor_index, face.spec_opposite(), corners);
                            }
                        }
                    },
                    _ => {},
                }
                i = i + 1;
            }
        },
        _ => {},
    }
}

/// Tells whether no change of the log asks to show a face that the voxel has a
/// quad for at that time. Nothing is wrong with the changes themselves.
pub fn cube_log_agrees<R: MeshRegistry>(reg: &R, mesh: &Mesh, md: &CubeMD) -> (r: bool)
    requires
        md.wf(),
        cube_consistent(*mesh, md.vivi),
        log_error(reg, mesh.ids(), md.dims, md.changed_voxels@, md.changed_voxels@.len() as int)
            is None,
    ensures
        r == log_agrees(
            state_of(*mesh, md.vivi),
            reg,
            mesh.ids(),
            md.dims,
            md.changed_voxels@,
            md.changed_voxels@.len() as int,
        ),
{
    let ghost s0 = state_of(*mesh, md.vivi);
    let ghost ids = mesh.ids();
    let ghost log = md.changed_voxels@;
    let dims: Dimensions = md.dims;
    let voxels: usize = md.vivi.vivi.len();
    let mut table: Vec<bool> = Vec::new();
    let mut v: usize = 0;
    while v < voxels
        invariant
            v <= voxels,
            voxels == md.vivi.voxel_count(),
            md.vivi.wf(),
            s0.owners == md.vivi.owners(),
            table@.len() == 6 * v,
            forall|w: int, f: int|
                0 <= w < v && 0 <= f < 6 ==> (#[trigger] table@[face_slot(w, f)])
                    == s0.owners.contains(QuadOwner { voxel: w as usize, face: face_at(f) }),
        decreases voxels - v,
    {
        let mut f: usize = 0;
        while f < 6
            invariant
                f <= 6,
                v < voxels,
                voxels == md.vivi.voxel_count(),
                md.vivi.wf(),
                s0.owners == md.vivi.owners(),
                table@.len() == 6 * v + f,
                forall|w: int, g: int|
                    0 <= w < v && 0 <= g < 6 ==> (#[trigger] table@[face_slot(w, g)])
                        == s0.owners.contains(QuadOwner { voxel: w as usize, face: face_at(g) }),
                forall|g: int|
                    0 <= g < f ==> (#[trigger] table@[face_slot(v as int, g)])
                        == s0.owners.contains(QuadOwner { voxel: v, face: face_at(g) }),
            decreases 6 - f,
        {
            let face: Face = Face::from_index(f).unwrap();
            let has: bool = md.vivi.get_quad_index(face, v).is_some();
            let ghost before = table@;
            table.push(has);
            proof {
                assert forall|w: int, g: int| 0 <= w < v && 0 <= g < 6 implies (
                #[trigger] table@[face_slot(w, g)]) == before[face_slot(w, g)] by {}
                assert forall|g: int| 0 <= g < f implies (#[trigger] table@[face_slot(
                    v as int,
                    g,
                )]) == before[face_slot(v as int, g)] by {}
            }
            f = f + 1;
        }
        v = v + 1;
    }
    proof {
        md.vivi.lemma_owners_distinct();
        assert(table_tracks(table@, s0, dims.volume()));
    }
    let n: usize = md.changed_voxels.len();
    let mut i: usize = 0;
    while i < n
        invariant
            i <= n,
            n == log.len(),
            log == md.changed_voxels@,
            dims == md.dims,
            ids == mesh.ids(),
            s0 == state_of(*mesh, md.vivi),
            voxels == dims.volume(),
            6 * voxels <= usize::MAX,
            log_error(reg, ids, dims, log, n as int) is None,
            log_agrees(s0, reg, ids, dims, log, i as int),
            table_tracks(table@, apply_log(s0, reg, ids, dims, log, i as int), dims.volume()),
            state_fits(apply_log(s0, reg, ids, dims, log, i as int), dims.volume(), ids.len()),
        decreases n - i,
    {
        let ghost before = apply_log(s0, reg, ids, dims, log, i as int);
        proof {
            lemma_log_error_none(reg, ids, dims, log, n as int, i as int);
        }
        let change: VoxelChange = md.changed_voxels[i];
        if reg.is_cube(&change.0) {
            proof {
                lemma_linear_index_bound(change.1, dims);
            }
            let voxel: usize = pos_to_index(change.1, dims).unwrap();
            match change.2 {
                BlockMeshChange::AddFaces => {
                    let cube: [bool; 6] = cube_neighbors(reg, &change.3);
                    let mut f: usize = 0;
                    while f < 6
                        invariant
                            f <= 6,
                            voxel < voxels,
                            voxels == dims.volume(),
                            6 * voxels <= usize::MAX,
                            n == log.len(),
                            i < n,
                            change == log[i as int],
                            log == md.changed_voxels@,
                            dims == md.dims,
                            ids == mesh.ids(),
                            s0 == state_of(*mesh, md.vivi),
                            spec_pos_to_index(change.1, dims) is Some,
                            voxel == spec_pos_to_index(change.1, dims).unwrap(),
                            cube@ == cube_flags(reg, change.3@),
                            is_cube_block(reg, change.0),
                            change.2 == BlockMeshChange::AddFaces,
                            before == apply_log(s0, reg, ids, dims, log, i as int),
                            table_tracks(table@, before, dims.volume()),
                            forall|g: int|
                                0 <= g < f && !(#[trigger] cube@[g]) ==> !before.has_quad(
                                    voxel,
                                    face_at(g),
                                ),
                        decreases 6 - f,
                    {
                        let shown: bool = table[6 * voxel + f];
                        proof {
                            assert(table@[face_slot(voxel as int, f as int)]
                                == before.owners.contains(
                                QuadOwner { voxel, face: face_at(f as int) },
                            ));
                        }
                        if !cube[f] && shown {
                            proof {
                                assert(!cube_flags(reg, change.3@)[f as int]);
                                assert(!change_agrees(before, reg, dims, change));
                                assert(!log_agrees(s0, reg, ids, dims, log, i + 1));
                                if log_agrees(s0, reg, ids, dims, log, n as int) {
                                    lemma_log_agrees_part(s0, reg, ids, dims, log, i + 1, n as int);
                                }
                            }
                            return false;
                        }
                        f = f + 1;
                    }
                    proof {
                        assert(change_agrees(before, reg, dims, change));
                    }
                },
                _ => {},
            }
            follow_change(&mut table, reg, dims, &change, Ghost(before), Ghost(ids));
        }
        i = i + 1;
    }
    true
}

} // verus!
