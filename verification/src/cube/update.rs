//! Updating a merged cube mesh in place from the logged changes of single voxels.
use vstd::prelude::*;
use vstd::set_lib::{lemma_int_range, lemma_len_subset, set_int_range};
use crate::block_mesh::BlockMeshType;
use crate::chunk::{
    neighbor_pos, pos_to_index, spec_neighbor_pos, spec_pos_to_index, BlockId, BlockPos,
    Dimensions, SurroundingBlocks,
};
use crate::cube::md::{CubeMD, CubeVIVI, QuadOwner, VoxelChange};
use crate::cube::proto::{is_valid_cube_prototype, valid_cube_prototype};
use crate::cube::quads::{is_block_offset, push_quad, remove_quad};
use crate::cube::state::{
    cube_consistent, lemma_consistent_mesh_wf, proto_quad, state_of, CubeState,
};
use crate::face::{face_at, Face};
use crate::mesh::{block_offset, spec_block_offset, AttributeId, Mesh, VertexValue};
use crate::mesh_reg::{spec_block_center, MeshRegistry, MeshRegistryCommon};
use crate::{BlockMeshChange, MeshError};

verus! {

/// Whether the registry holds a cube for `block`.
pub open spec fn is_cube_block<R: MeshRegistry>(reg: &R, block: BlockId) -> bool {
    reg.block_mesh(block).spec_get_type() == BlockMeshType::Cube
}

/// For each face, whether the block recorded towards it is a cube.
pub open spec fn cube_flags<R: MeshRegistry>(reg: &R, neighbors: Seq<Option<BlockId>>) -> Seq<
    bool,
> {
    Seq::new(
        6,
        |i: int|
            match neighbors[i] {
                Some(b) => is_cube_block(reg, b),
                None => false,
            },
    )
}

/// The prototype mesh of `block`.
pub open spec fn prototype_of<R: MeshRegistry>(reg: &R, block: BlockId) -> Mesh {
    reg.block_mesh(block).spec_mesh().unwrap()
}

/// The offset of the block at `pos`.
pub open spec fn offset_of(pos: BlockPos) -> VertexValue {
    spec_block_offset(pos.x, pos.y, pos.z)
}

/// The code of an owner among the `6 * n` pairs of a voxel and a face.
pub open spec fn owner_code(o: QuadOwner) -> int {
    o.voxel * 6 + o.face.index()
}

/// A mesh has at most six quads for each voxel.
pub proof fn lemma_owner_bound(owners: Seq<QuadOwner>, n: nat)
    requires
        owners.no_duplicates(),
        forall|k: int| 0 <= k < owners.len() ==> (#[trigger] owners[k]).voxel < n,
    ensures
        owners.len() <= 6 * n,
{
    let codes = owners.map_values(|o: QuadOwner| owner_code(o));
    assert forall|i: int, j: int|
        0 <= i < codes.len() && 0 <= j < codes.len() && i != j implies codes[i] != codes[j] by {
        let a = owners[i];
        let b = owners[j];
        assert(a != b);
        if owner_code(a) == owner_code(b) {
            assert(a.voxel == b.voxel && a.face.index() == b.face.index());
            assert(a.face == b.face);
        }
    }
    codes.unique_seq_to_set();
    lemma_int_range(0, 6 * n as int);
    assert(codes.to_set().subset_of(set_int_range(0, 6 * n as int))) by {
        assert forall|c: int| codes.to_set().contains(c) implies set_int_range(0, 6 * n as int).contains(
            c,
        ) by {
            let i = choose|i: int| 0 <= i < codes.len() && codes[i] == c;
            assert(owners[i].voxel < n);
        }
    }
    lemma_len_subset(codes.to_set(), set_int_range(0, 6 * n as int));
}

/// Removes the quad of the voxel `block_index` for `face`, if it has one.
pub fn remove_face(mesh: &mut Mesh, vivi: &mut CubeVIVI, block_index: usize, face: Face)
    requires
        cube_consistent(*old(mesh), *old(vivi)),
        block_index < old(vivi).voxel_count(),
    ensures
        cube_consistent(*final(mesh), *final(vivi)),
        final(mesh).ids() == old(mesh).ids(),
        final(vivi).voxel_count() == old(vivi).voxel_count(),
        state_of(*final(mesh), *final(vivi)) == state_of(*old(mesh), *old(vivi)).remove_face(
            block_index,
            face,
        ),
{
    match vivi.get_quad_index(face, block_index) {
        None => {},
        Some(quad) => {
            remove_quad(mesh, vivi, quad as usize);
        },
    }
}

/// Gives the voxel `block_index` its quad for `face`, unless it has one.
pub fn add_face(
    mesh: &mut Mesh,
    vivi: &mut CubeVIVI,
    block_mesh: &Mesh,
    block_index: usize,
    face: Face,
    center: VertexValue,
    position_offset: VertexValue,
)
    requires
        cube_consistent(*old(mesh), *old(vivi)),
        valid_cube_prototype(*block_mesh, old(mesh).ids(), center),
        center == spec_block_center(),
        block_index < old(vivi).voxel_count(),
        24 * old(vivi).voxel_count() <= u32::MAX,
        is_block_offset(position_offset),
    ensures
        cube_consistent(*final(mesh), *final(vivi)),
        final(mesh).ids() == old(mesh).ids(),
        final(vivi).voxel_count() == old(vivi).voxel_count(),
        state_of(*final(mesh), *final(vivi)) == state_of(*old(mesh), *old(vivi)).add_face(
            block_index,
            face,
            proto_quad(*block_mesh, old(mesh).ids(), face, position_offset),
        ),
{
    if vivi.get_quad_index(face, block_index).is_none() {
        proof {
            let owners = vivi.owners();
            let o = QuadOwner { voxel: block_index, face };
            let more = owners.push(o);
            assert forall|i: int, j: int|
                0 <= i < more.len() && 0 <= j < more.len() && i != j implies more[i] != more[j] by {
                if i < owners.len() && j < owners.len() {
                } else if i < owners.len() {
                    assert(owners.contains(owners[i]));
                } else {
                    assert(owners.contains(owners[j]));
                }
            }
            assert forall|k: int| 0 <= k < more.len() implies (#[trigger] more[k]).voxel
                < vivi.voxel_count() by {
                if k < owners.len() {
                    assert(state_of(*mesh, *vivi).owners[k].voxel < vivi.voxel_count());
                }
            }
            lemma_owner_bound(more, vivi.voxel_count());
        }
        push_quad(mesh, vivi, block_mesh, face, block_index, center, position_offset);
    }
}

/// Function removes voxel from the big mesh.
/// `faces_to_remove`: The faces of the block to remove, if the corresponding value
/// is false, that face's quad will not be removed.
pub fn remove_voxel(
    mesh: &mut Mesh,
    vivi: &mut CubeVIVI,
    block_pos: BlockPos,
    faces_to_remove: [bool; 6],
    dims: Dimensions,
)
    requires
        cube_consistent(*old(mesh), *old(vivi)),
        spec_pos_to_index(block_pos, dims) is Some,
        spec_pos_to_index(block_pos, dims).unwrap() < old(vivi).voxel_count(),
    ensures
        cube_consistent(*final(mesh), *final(vivi)),
        final(mesh).ids() == old(mesh).ids(),
        final(vivi).voxel_count() == old(vivi).voxel_count(),
        state_of(*final(mesh), *final(vivi)) == state_of(*old(mesh), *old(vivi)).remove_faces(
            spec_pos_to_index(block_pos, dims).unwrap(),
            faces_to_remove@,
            6,
        ),
{
    let block_index: usize = pos_to_index(block_pos, dims).unwrap();
    let ghost s0 = state_of(*old(mesh), *old(vivi));
    let mut i: usize = 0;
    while i < 6
        invariant
            i <= 6,
            cube_consistent(*mesh, *vivi),
            mesh.ids() == old(mesh).ids(),
            vivi.voxel_count() == old(vivi).voxel_count(),
            block_index < vivi.voxel_count(),
            state_of(*mesh, *vivi) == s0.remove_faces(block_index, faces_to_remove@, i as int),
        decreases 6 - i,
    {
        if faces_to_remove[i] {
            let face: Face = Face::from_index(i).unwrap();
            remove_face(mesh, vivi, block_index, face);
        }
        i = i + 1;
    }
}

/// This function adds a block to the mesh after it has been generated. The function
/// will automatically leave out the faces that the voxel has already.
/// `quads_to_keep`: the faces of the block that are covered by other blocks. Will
/// not add a face if its corresponding value is true.
pub fn add_voxel_after_gen(
    quads_to_keep: [bool; 6],
    main_mesh: &mut Mesh,
    block_mesh: &Mesh,
    vivi: &mut CubeVIVI,
    block_pos: BlockPos,
    center: VertexValue,
    position_offset: VertexValue,
    dims: Dimensions,
)
    requires
        cube_consistent(*old(main_mesh), *old(vivi)),
        valid_cube_prototype(*block_mesh, old(main_mesh).ids(), center),
        center == spec_block_center(),
        spec_pos_to_index(block_pos, dims) is Some,
        spec_pos_to_index(block_pos, dims).unwrap() < old(vivi).voxel_count(),
        24 * old(vivi).voxel_count() <= u32::MAX,
        is_block_offset(position_offset),
    ensures
        cube_consistent(*final(main_mesh), *final(vivi)),
        final(main_mesh).ids() == old(main_mesh).ids(),
        final(vivi).voxel_count() == old(vivi).voxel_count(),
        state_of(*final(main_mesh), *final(vivi)) == state_of(
            *old(main_mesh),
            *old(vivi),
        ).add_faces(
            spec_pos_to_index(block_pos, dims).unwrap(),
            quads_to_keep@,
            *block_mesh,
            old(main_mesh).ids(),
            position_offset,
            6,
        ),
{
    let block_index: usize = pos_to_index(block_pos, dims).unwrap();
    let ghost s0 = state_of(*old(main_mesh), *old(vivi));
    let ghost ids = old(main_mesh).ids();
    let mut i: usize = 0;
    while i < 6
        invariant
            i <= 6,
            cube_consistent(*main_mesh, *vivi),
            main_mesh.ids() == ids,
            valid_cube_prototype(*block_mesh, ids, center),
            center == spec_block_center(),
            vivi.voxel_count() == old(vivi).voxel_count(),
            24 * vivi.voxel_count() <= u32::MAX,
            is_block_offset(position_offset),
            block_index < vivi.voxel_count(),
            state_of(*main_mesh, *vivi) == s0.add_faces(
                block_index,
                quads_to_keep@,
                *block_mesh,
                ids,
                position_offset,
                i as int,
            ),
        decreases 6 - i,
    {
        if !quads_to_keep[i] {
            let face: Face = Face::from_index(i).unwrap();
            add_face(main_mesh, vivi, block_mesh, block_index, face, center, position_offset);
        }
        i = i + 1;
    }
}

/// The state after the cube neighbors of the voxel at `pos` have lost their quads
/// that face it, for the first `upto` faces.
pub open spec fn spec_remove_quads_facing(
    s: CubeState,
    pos: BlockPos,
    dims: Dimensions,
    cube: Seq<bool>,
    upto: int,
) -> CubeState
    decreases upto,
{
    if upto <= 0 {
        s
    } else {
        let t = spec_remove_quads_facing(s, pos, dims, cube, upto - 1);
        let face = face_at(upto - 1);
        match spec_neighbor_pos(pos, face, dims) {
            Some(np) => if cube[upto - 1] {
                t.remove_face(spec_pos_to_index(np, dims).unwrap(), face.spec_opposite())
            } else {
                t
            },
            None => t,
        }
    }
}

/// The function removes all quads facing a voxel: for every cube around it the
/// quad on the side that touches the voxel.
pub fn remove_quads_facing(
    mesh: &mut Mesh,
    vivi: &mut CubeVIVI,
    block_pos: BlockPos,
    dims: Dimensions,
    surrounding_block_is_cube: [bool; 6],
)
    requires
        cube_consistent(*old(mesh), *old(vivi)),
        old(vivi).voxel_count() == dims.volume(),
        24 * dims.volume() <= u32::MAX,
    ensures
        cube_consistent(*final(mesh), *final(vivi)),
        final(mesh).ids() == old(mesh).ids(),
        final(vivi).voxel_count() == old(vivi).voxel_count(),
        state_of(*final(mesh), *final(vivi)) == spec_remove_quads_facing(
            state_of(*old(mesh), *old(vivi)),
            block_pos,
            dims,
            surrounding_block_is_cube@,
            6,
        ),
{
    let ghost s0 = state_of(*old(mesh), *old(vivi));
    let mut i: usize = 0;
    while i < 6
        invariant
            i <= 6,
            cube_consistent(*mesh, *vivi),
            mesh.ids() == old(mesh).ids(),
            vivi.voxel_count() == old(vivi).voxel_count(),
            vivi.voxel_count() == dims.volume(),
            24 * dims.volume() <= u32::MAX,
            state_of(*mesh, *vivi) == spec_remove_quads_facing(
                s0,
                block_pos,
                dims,
                surrounding_block_is_cube@,
                i as int,
            ),
        decreases 6 - i,
    {
        if surrounding_block_is_cube[i] {
            let connecting_face: Face = Face::from_index(i).unwrap();
            match neighbor_pos(block_pos, connecting_face, dims) {
                None => {},
                Some(neighbor) => {
                    proof {
                        crate::chunk::lemma_linear_index_bound(neighbor, dims);
                    }
                    let neighbor_index: usize = pos_to_index(neighbor, dims).unwrap();
                    remove_face(mesh, vivi, neighbor_index, connecting_face.opposite());
                },
            }
        }
        i = i + 1;
    }
}

/// The state after the cube neighbors of the voxel at `pos` have been given the
/// quads that face it, for the first `upto` faces.
pub open spec fn spec_add_quads_facing<R: MeshRegistry>(
    s: CubeState,
    reg: &R,
    ids: Seq<AttributeId>,
    pos: BlockPos,
    dims: Dimensions,
    neighbors: Seq<Option<BlockId>>,
    upto: int,
) -> CubeState
    decreases upto,
{
    if upto <= 0 {
        s
    } else {
        let t = spec_add_quads_facing(s, reg, ids, pos, dims, neighbors, upto - 1);
        let face = face_at(upto - 1);
        match (neighbors[upto - 1], spec_neighbor_pos(pos, face, dims)) {
            (Some(b), Some(np)) => if is_cube_block(reg, b) {
                t.add_face(
                    spec_pos_to_index(np, dims).unwrap(),
                    face.spec_opposite(),
                    proto_quad(prototype_of(reg, b), ids, face.spec_opposite(), offset_of(np)),
                )
            } else {
                t
            },
            _ => t,
        }
    }
}

/// Every cube among `neighbors` has a prototype that can serve in a mesh with the
/// attributes `ids`.
pub open spec fn neighbors_valid<R: MeshRegistry>(
    reg: &R,
    ids: Seq<AttributeId>,
    neighbors: Seq<Option<BlockId>>,
) -> bool {
    forall|i: int|
        0 <= i < 6 ==> match #[trigger] neighbors[i] {
            Some(b) => is_cube_block(reg, b) ==> valid_cube_prototype(
                prototype_of(reg, b),
                ids,
                spec_block_center(),
            ),
            None => true,
        }
}

/// Function adds quads facing voxel: every cube around the voxel at `block_pos`
/// gets the quad on the side that touches it.
pub fn add_quads_facing<R: MeshRegistry>(
    mesh: &mut Mesh,
    vivi: &mut CubeVIVI,
    block_pos: BlockPos,
    reg: &R,
    neighbors: &SurroundingBlocks<BlockId>,
    dims: Dimensions,
)
    requires
        cube_consistent(*old(mesh), *old(vivi)),
        old(vivi).voxel_count() == dims.volume(),
        24 * dims.volume() <= u32::MAX,
        neighbors_valid(reg, old(mesh).ids(), neighbors@),
    ensures
        cube_consistent(*final(mesh), *final(vivi)),
        final(mesh).ids() == old(mesh).ids(),
        final(vivi).voxel_count() == old(vivi).voxel_count(),
        state_of(*final(mesh), *final(vivi)) == spec_add_quads_facing(
            state_of(*old(mesh), *old(vivi)),
            reg,
            old(mesh).ids(),
            block_pos,
            dims,
            neighbors@,
            6,
        ),
{
    let ghost s0 = state_of(*old(mesh), *old(vivi));
    let ghost ids = old(mesh).ids();
    let center = reg.get_block_center();
    let mut i: usize = 0;
    while i < 6
        invariant
            i <= 6,
            cube_consistent(*mesh, *vivi),
            mesh.ids() == ids,
            vivi.voxel_count() == old(vivi).voxel_count(),
            vivi.voxel_count() == dims.volume(),
            24 * dims.volume() <= u32::MAX,
            center == spec_block_center(),
            neighbors_valid(reg, ids, neighbors@),
            state_of(*mesh, *vivi) == spec_add_quads_facing(
                s0,
                reg,
                ids,
                block_pos,
                dims,
                neighbors@,
                i as int,
            ),
        decreases 6 - i,
    {
        let face: Face = Face::from_index(i).unwrap();
        match (neighbors[i], neighbor_pos(block_pos, face, dims)) {
            (Some(b), Some(neighbor)) => {
                let block_mesh = reg.get_block_mesh_ref(&b);
                if block_mesh.is_cube() {
                    let vmesh = block_mesh.unwrap();
                    proof {
                        crate::chunk::lemma_linear_index_bound(neighbor, dims);
                    }
                    let neighbor_index: usize = pos_to_index(neighbor, dims).unwrap();
                    let position_offset = block_offset(neighbor.x, neighbor.y, neighbor.z);
                    proof {
                        assert(neighbors@[i as int] == Some(b));
                        assert(*vmesh == prototype_of(reg, b));
                    }
                    add_face(
                        mesh,
                        vivi,
                        vmesh,
                        neighbor_index,
                        face.opposite(),
                        center,
                        position_offset,
                    );
                }
            },
            _ => {},
        }
        i = i + 1;
    }
}

/// The six flags of which each is set.
pub open spec fn all_faces() -> Seq<bool> {
    Seq::new(6, |i: int| true)
}

/// What is wrong with a logged change, if anything: its position must be a cell of
/// the chunk, and the block and the cubes around it must have prototypes that can
/// serve. A change of a block that is no cube is passed over, so nothing is wrong
/// with it.
pub open spec fn change_error<R: MeshRegistry>(
    reg: &R,
    ids: Seq<AttributeId>,
    dims: Dimensions,
    change: VoxelChange,
) -> Option<MeshError> {
    if !is_cube_block(reg, change.0) {
        None
    } else if spec_pos_to_index(change.1, dims) is None {
        Some(MeshError::OutOfBounds)
    } else if !valid_cube_prototype(prototype_of(reg, change.0), ids, spec_block_center())
        || !neighbors_valid(reg, ids, change.3@) {
        Some(MeshError::RegistryMismatch)
    } else {
        None
    }
}

/// What is wrong with the first of the first `upto` changes with which something
/// is wrong.
pub open spec fn log_error<R: MeshRegistry>(
    reg: &R,
    ids: Seq<AttributeId>,
    dims: Dimensions,
    log: Seq<VoxelChange>,
    upto: int,
) -> Option<MeshError>
    decreases upto,
{
    if upto <= 0 {
        None
    } else {
        match log_error(reg, ids, dims, log, upto - 1) {
            Some(e) => Some(e),
            None => change_error(reg, ids, dims, log[upto - 1]),
        }
    }
}

/// The state after one change has been applied.
///
/// - `Added`: the voxel loses what quads it had, gets a quad for every face that no
///   cube covers, and the cubes around it lose the quads that face it.
/// - `Broken`: the voxel loses its quads, and the cubes around it get the quads that
///   face it.
/// - `CullFaces`: the voxel loses the quads that face cubes.
/// - `AddFaces`: the voxel gets a quad for every face that no cube covers.
///
/// A change of a block that is no cube leaves the state as it is.
pub open spec fn apply_change<R: MeshRegistry>(
    s: CubeState,
    reg: &R,
    ids: Seq<AttributeId>,
    dims: Dimensions,
    change: VoxelChange,
) -> CubeState {
    let (block, pos, kind, neighbors) = change;
    let voxel = spec_pos_to_index(pos, dims).unwrap();
    let cube = cube_flags(reg, neighbors@);
    let proto = prototype_of(reg, block);
    if !is_cube_block(reg, block) {
        s
    } else {
        match kind {
            BlockMeshChange::Added => spec_remove_quads_facing(
                s.remove_faces(voxel, all_faces(), 6).add_faces(
                    voxel,
                    cube,
                    proto,
                    ids,
                    offset_of(pos),
                    6,
                ),
                pos,
                dims,
                cube,
                6,
            ),
            BlockMeshChange::Broken => spec_add_quads_facing(
                s.remove_faces(voxel, all_faces(), 6),
                reg,
                ids,
                pos,
                dims,
                neighbors@,
                6,
            ),
            BlockMeshChange::CullFaces => s.remove_faces(voxel, cube, 6),
            BlockMeshChange::AddFaces => s.add_faces(voxel, cube, proto, ids, offset_of(pos), 6),
        }
    }
}

/// The state after the first `upto` changes of the log have been applied in order.
pub open spec fn apply_log<R: MeshRegistry>(
    s: CubeState,
    reg: &R,
    ids: Seq<AttributeId>,
    dims: Dimensions,
    log: Seq<VoxelChange>,
    upto: int,
) -> CubeState
    decreases upto,
{
    if upto <= 0 {
        s
    } else {
        apply_change(apply_log(s, reg, ids, dims, log, upto - 1), reg, ids, dims, log[upto - 1])
    }
}

/// For each face, whether the block recorded towards it is a cube.
pub fn cube_neighbors<R: MeshRegistry>(reg: &R, surrounding_blocks: &SurroundingBlocks<BlockId>) -> (r:
    [bool; 6])
    ensures
        r@ == cube_flags(reg, surrounding_blocks@),
{
    let mut r: [bool; 6] = [false, false, false, false, false, false];
    let mut i: usize = 0;
    while i < 6
        invariant
            i <= 6,
            forall|j: int| 0 <= j < i ==> r@[j] == cube_flags(reg, surrounding_blocks@)[j],
        decreases 6 - i,
    {
        let flag: bool = match surrounding_blocks[i] {
            Some(b) => reg.is_cube(&b),
            None => false,
        };
        r[i] = flag;
        i = i + 1;
    }
    assert(r@ =~= cube_flags(reg, surrounding_blocks@));
    r
}

/// Tells what is wrong with a logged change, if anything.
pub fn check_change<R: MeshRegistry>(reg: &R, mesh: &Mesh, dims: Dimensions, change: &VoxelChange) -> (r:
    Option<MeshError>)
    ensures
        r == change_error(reg, mesh.ids(), dims, *change),
{
    let block: BlockId = change.0;
    let block_mesh = reg.get_block_mesh_ref(&block);
    if !block_mesh.is_cube() {
        return None;
    }
    if pos_to_index(change.1, dims).is_none() {
        return Some(MeshError::OutOfBounds);
    }
    let center = reg.get_block_center();
    if !is_valid_cube_prototype(block_mesh.unwrap(), mesh, center) {
        return Some(MeshError::RegistryMismatch);
    }
    let neighbors = &change.3;
    let mut i: usize = 0;
    while i < 6
        invariant
            i <= 6,
            center == spec_block_center(),
            *neighbors == change.3,
            forall|j: int|
                0 <= j < i ==> match #[trigger] neighbors@[j] {
                    Some(b) => is_cube_block(reg, b) ==> valid_cube_prototype(
                        prototype_of(reg, b),
                        mesh.ids(),
                        spec_block_center(),
                    ),
                    None => true,
                },
            is_cube_block(reg, change.0),
            spec_pos_to_index(change.1, dims) is Some,
            valid_cube_prototype(prototype_of(reg, change.0), mesh.ids(), spec_block_center()),
        decreases 6 - i,
    {
        match neighbors[i] {
            Some(b) => {
                let neighbor_mesh = reg.get_block_mesh_ref(&b);
                if neighbor_mesh.is_cube() {
                    if !is_valid_cube_prototype(neighbor_mesh.unwrap(), mesh, center) {
                        proof {
                            assert(neighbors@[i as int] == Some(b));
                            assert(!neighbors_valid(reg, mesh.ids(), change.3@));
                        }
                        return Some(MeshError::RegistryMismatch);
                    }
                }
            },
            None => {},
        }
        i = i + 1;
    }
    None
}

/// Applies one change, with which nothing is wrong, to the mesh.
pub fn apply_one_change<R: MeshRegistry>(
    mesh: &mut Mesh,
    vivi: &mut CubeVIVI,
    reg: &R,
    dims: Dimensions,
    change: &VoxelChange,
)
    requires
        cube_consistent(*old(mesh), *old(vivi)),
        old(vivi).voxel_count() == dims.volume(),
        24 * dims.volume() <= u32::MAX,
        change_error(reg, old(mesh).ids(), dims, *change) is None,
    ensures
        cube_consistent(*final(mesh), *final(vivi)),
        final(mesh).ids() == old(mesh).ids(),
        final(vivi).voxel_count() == old(vivi).voxel_count(),
        state_of(*final(mesh), *final(vivi)) == apply_change(
            state_of(*old(mesh), *old(vivi)),
            reg,
            old(mesh).ids(),
            dims,
            *change,
        ),
{
    let block: BlockId = change.0;
    let block_pos: BlockPos = change.1;
    let surrounding_blocks = &change.3;
    let block_mesh_ref = reg.get_block_mesh_ref(&block);
    if !block_mesh_ref.is_cube() {
        return ;
    }
    let block_mesh = block_mesh_ref.unwrap();
    let position_offset = block_offset(block_pos.x, block_pos.y, block_pos.z);
    let cube: [bool; 6] = cube_neighbors(reg, surrounding_blocks);
    let center = reg.get_block_center();
    proof {
        crate::chunk::lemma_linear_index_bound(block_pos, dims);
        assert(*block_mesh == prototype_of(reg, block));
    }
    match change.2 {
        BlockMeshChange::Added => {
            let all: [bool; 6] = [true, true, true, true, true, true];
            assert(all@ =~= all_faces());
            remove_voxel(mesh, vivi, block_pos, all, dims);
            add_voxel_after_gen(
                cube,
                mesh,
                block_mesh,
                vivi,
                block_pos,
                center,
                position_offset,
                dims,
            );
            remove_quads_facing(mesh, vivi, block_pos, dims, cube);
        },
        BlockMeshChange::Broken => {
            let all: [bool; 6] = [true, true, true, true, true, true];
            assert(all@ =~= all_faces());
            remove_voxel(mesh, vivi, block_pos, all, dims);
            add_quads_facing(mesh, vivi, block_pos, reg, surrounding_blocks, dims);
        },
        BlockMeshChange::CullFaces => {
            remove_voxel(mesh, vivi, block_pos, cube, dims);
        },
        BlockMeshChange::AddFaces => {
            add_voxel_after_gen(
                cube,
                mesh,
                block_mesh,
                vivi,
                block_pos,
                center,
                position_offset,
                dims,
            );
        },
    }
}

/// Why the log of `md` cannot be applied to `mesh`, if it cannot: the error of the
/// first change with which something is wrong, or, where nothing is wrong with the
/// changes themselves, that one of them asks to show a face that the voxel has a
/// quad for at that time.
pub open spec fn cube_log_verdict<R: MeshRegistry>(md: CubeMD, mesh: Mesh, reg: &R) -> Option<
    MeshError,
> {
    match log_error(
        reg,
        mesh.ids(),
        md.dims,
        md.changed_voxels@,
        md.changed_voxels@.len() as int,
    ) {
        Some(e) => Some(e),
        None => if crate::cube::agree::log_agrees(
            state_of(mesh, md.vivi),
            reg,
            mesh.ids(),
            md.dims,
            md.changed_voxels@,
            md.changed_voxels@.len() as int,
        ) {
            None
        } else {
            Some(MeshError::InvariantViolation)
        },
    }
}

/// Applies the logged changes of cube blocks to the mesh, in the order in which
/// they were logged, and clears the log.
///
/// Where the log cannot be applied, nothing is applied: mesh, bookkeeping and log
/// stay as they are, and the error comes back. That is so where the position of a
/// change lies outside the chunk (`OutOfBounds`), where the registry holds an unfit
/// prototype for a block that takes part in a change (`RegistryMismatch`), and where
/// a change asks to show a face that the voxel has a quad for already
/// (`InvariantViolation`).
pub fn update_cube_mesh<R: MeshRegistry>(mesh: &mut Mesh, metadata: &mut CubeMD, reg: &R) -> (r:
    Result<(), MeshError>)
    requires
        old(metadata).wf(),
        cube_consistent(*old(mesh), old(metadata).vivi),
    ensures
        final(metadata).wf(),
        cube_consistent(*final(mesh), final(metadata).vivi),
        final(mesh).wf(),
        final(mesh).ids() == old(mesh).ids(),
        final(metadata).dims == old(metadata).dims,
        final(metadata).smooth_lighting_params == old(metadata).smooth_lighting_params,
        match cube_log_verdict(*old(metadata), *old(mesh), reg) {
            Some(e) => r == Err::<(), MeshError>(e) && *final(mesh) == *old(mesh) && *final(metadata) == *old(metadata),
            None => r is Ok && final(metadata).changed_voxels@.len() == 0 && state_of(
                *final(mesh),
                final(metadata).vivi,
            ) == apply_log(
                state_of(*old(mesh), old(metadata).vivi),
                reg,
                old(mesh).ids(),
                old(metadata).dims,
                old(metadata).changed_voxels@,
                old(metadata).changed_voxels@.len() as int,
            ),
        },
{
    let dims: Dimensions = metadata.dims;
    let ghost ids = mesh.ids();
    let ghost log = metadata.changed_voxels@;
    let ghost s0 = state_of(*mesh, metadata.vivi);
    let n: usize = metadata.changed_voxels.len();
    let mut i: usize = 0;
    while i < n
        invariant
            i <= n,
            n == log.len(),
            log == metadata.changed_voxels@,
            *metadata == *old(metadata),
            *mesh == *old(mesh),
            metadata.wf(),
            cube_consistent(*mesh, metadata.vivi),
            ids == mesh.ids(),
            dims == metadata.dims,
            s0 == state_of(*mesh, metadata.vivi),
            log_error(reg, ids, dims, log, i as int) is None,
        decreases n - i,
    {
        match check_change(reg, mesh, dims, &metadata.changed_voxels[i]) {
            Some(e) => {
                proof {
                    lemma_log_error_stays(reg, ids, dims, log, i + 1, n as int);
                    lemma_consistent_mesh_wf(*mesh, metadata.vivi);
                }
                return Err(e);
            },
            None => {},
        }
        i = i + 1;
    }
    if !crate::cube::agree::cube_log_agrees(reg, mesh, metadata) {
        proof {
            lemma_consistent_mesh_wf(*mesh, metadata.vivi);
        }
        return Err(MeshError::InvariantViolation);
    }
    let mut i: usize = 0;
    while i < n
        invariant
            i <= n,
            n == log.len(),
            log == metadata.changed_voxels@,
            metadata.dims == dims,
            dims == old(metadata).dims,
            metadata.smooth_lighting_params == old(metadata).smooth_lighting_params,
            metadata.wf(),
            cube_consistent(*mesh, metadata.vivi),
            mesh.ids() == ids,
            log_error(reg, ids, dims, log, n as int) is None,
            state_of(*mesh, metadata.vivi) == apply_log(s0, reg, ids, dims, log, i as int),
        decreases n - i,
    {
        proof {
            lemma_log_error_none(reg, ids, dims, log, n as int, i as int);
        }
        let change: VoxelChange = metadata.changed_voxels[i];
        apply_one_change(mesh, &mut metadata.vivi, reg, dims, &change);
        i = i + 1;
    }
    metadata.changed_voxels.clear();
    proof {
        lemma_consistent_mesh_wf(*mesh, metadata.vivi);
    }
    Ok(())
}

/// An error among the first changes is the error of the whole log.
pub proof fn lemma_log_error_stays<R: MeshRegistry>(
    reg: &R,
    ids: Seq<AttributeId>,
    dims: Dimensions,
    log: Seq<VoxelChange>,
    upto: int,
    end: int,
)
    requires
        0 <= upto <= end,
        log_error(reg, ids, dims, log, upto) is Some,
    ensures
        log_error(reg, ids, dims, log, end) == log_error(reg, ids, dims, log, upto),
    decreases end - upto,
{
    if upto < end {
        lemma_log_error_stays(reg, ids, dims, log, upto, end - 1);
    }
}

/// In a log without error nothing is wrong with any change.
pub proof fn lemma_log_error_none<R: MeshRegistry>(
    reg: &R,
    ids: Seq<AttributeId>,
    dims: Dimensions,
    log: Seq<VoxelChange>,
    end: int,
    i: int,
)
    requires
        0 <= i < end,
        log_error(reg, ids, dims, log, end) is None,
    ensures
        change_error(reg, ids, dims, log[i]) is None,
        log_error(reg, ids, dims, log, i) is None,
    decreases end - i,
{
    if i + 1 < end {
        lemma_log_error_none(reg, ids, dims, log, end - 1, i);
    }
}

} // verus!
