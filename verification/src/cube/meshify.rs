//! Generating the merged mesh of all cubes of a chunk.
use vstd::prelude::*;
use crate::chunk::{
    index_to_pos, pos_to_index, spec_index_to_pos, spec_pos_to_index, BlockId, BlockPos,
    Dimensions, Grid,
};
use crate::cube::md::{CubeMD, CubeVIVI, QuadOwner};
use crate::cube::proto::{is_valid_cube_prototype, valid_cube_prototype};
use crate::cube::state::{cube_consistent, state_of, CubeState};
use crate::cube::update::{add_face, is_cube_block, offset_of, prototype_of};
use crate::face::{face_at, Face};
use crate::mesh::{
    block_offset, AttributeId, Mesh, MeshAttribute, VertexValue,
};
use crate::mesh_reg::{spec_all_attributes, spec_block_center, MeshRegistry, MeshRegistryCommon};
use crate::sl::{apply_smooth_lighting, spec_smooth_lighting, SmoothLightingParameters};

verus! {

/// All the variants for the Meshing algorithm.
#[derive(Debug, Clone, Copy, PartialEq, Eq, Structural)]
pub enum MeshingAlgorithm {
    /// Every cube gets all of its six quads.
    Naive,
    /// A cube gets no quad towards another cube.
    Culling,
}

/// For each face, whether it is among `outer_layer`.
pub open spec fn open_flags(outer_layer: Seq<Face>) -> Seq<bool> {
    Seq::new(6, |i: int| outer_layer.contains(face_at(i)))
}

/// For each face, whether the cube at `pos` gets no quad for it. Without culling it
/// gets them all. With culling a face is left out where the block towards it is a
/// cube, and, where the chunk ends towards it, unless the face is marked as open.
pub open spec fn culled_faces<R: MeshRegistry, const N: usize>(
    grid: &Grid<N>,
    reg: &R,
    open: Seq<bool>,
    algorithm: MeshingAlgorithm,
    pos: BlockPos,
) -> Seq<bool> {
    Seq::new(
        6,
        |i: int|
            match algorithm {
                MeshingAlgorithm::Naive => false,
                MeshingAlgorithm::Culling => match grid.spec_get_neighbor_of(pos, face_at(i)) {
                    Some(t) => is_cube_block(reg, t),
                    None => !open[i],
                },
            },
    )
}

/// The mesh without any quad, with one empty column for each of `columns` attributes.
pub open spec fn empty_state(columns: nat) -> CubeState {
    CubeState {
        columns: Seq::new(columns, |a: int| Seq::<VertexValue>::empty()),
        indices: Seq::<u32>::empty(),
        owners: Seq::<QuadOwner>::empty(),
    }
}

/// The merged mesh of the cubes among the first `upto` cells of the grid: cell by
/// cell in the order of the indices, each cube adds its quads, other blocks add
/// nothing.
pub open spec fn spec_meshify<R: MeshRegistry, const N: usize>(
    grid: &Grid<N>,
    reg: &R,
    ids: Seq<AttributeId>,
    open: Seq<bool>,
    algorithm: MeshingAlgorithm,
    upto: int,
) -> CubeState
    decreases upto,
{
    if upto <= 0 {
        empty_state(ids.len())
    } else {
        let s = spec_meshify(grid, reg, ids, open, algorithm, upto - 1);
        let block = grid.cells()[upto - 1];
        let pos = spec_index_to_pos((upto - 1) as usize, grid.dims).unwrap();
        if is_cube_block(reg, block) {
            s.add_faces(
                (upto - 1) as usize,
                culled_faces(grid, reg, open, algorithm, pos),
                prototype_of(reg, block),
                ids,
                offset_of(pos),
                6,
            )
        } else {
            s
        }
    }
}

/// Whether a merged mesh of the cubes of the grid can be made: all its quads have a
/// place in a mesh with 32-bit indices, and the registry holds a fit prototype for
/// every cube of the grid. The triangles of a prototype may stand in any order.
pub open spec fn can_meshify<R: MeshRegistry, const N: usize>(grid: &Grid<N>, reg: &R) -> bool {
    &&& 24 * N <= u32::MAX
    &&& forall|v: int|
        0 <= v < N && is_cube_block(reg, #[trigger] grid.cells()[v]) ==> valid_cube_prototype(
            prototype_of(reg, grid.cells()[v]),
            spec_all_attributes(),
            spec_block_center(),
        )
}

/// The merged mesh of the cubes of the grid as generation hands it out: smooth
/// lighting is applied to all of it where the parameters ask for that.
pub open spec fn spec_generated<R: MeshRegistry, const N: usize>(
    grid: &Grid<N>,
    reg: &R,
    open: Seq<bool>,
    algorithm: MeshingAlgorithm,
    smooth_lighting_params: Option<SmoothLightingParameters>,
) -> CubeState {
    let plain = spec_meshify(grid, reg, spec_all_attributes(), open, algorithm, N as int);
    match smooth_lighting_params {
        Some(sl) => if sl.apply_at_gen {
            spec_smooth_lighting(
                plain,
                0,
                3,
                reg,
                grid,
                Seq::new(8, |d: int| None::<&Grid<N>>),
                grid.dims,
                sl,
                0,
                N as int,
            )
        } else {
            plain
        },
        None => plain,
    }
}

/// The faces that `flags` does not mark.
pub open spec fn unmarked(flags: Seq<bool>) -> Seq<bool> {
    Seq::new(6, |i: int| !flags[i])
}

/// For each face, whether the cube at `pos` gets a quad for it: the faces that are
/// not culled.
pub open spec fn exposed_faces<R: MeshRegistry, const N: usize>(
    grid: &Grid<N>,
    reg: &R,
    open: Seq<bool>,
    algorithm: MeshingAlgorithm,
    pos: BlockPos,
) -> Seq<bool> {
    unmarked(culled_faces(grid, reg, open, algorithm, pos))
}

/// Which faces of the cube at `block_pos` are exposed, so that it gets a quad for
/// them.
pub fn exposed_sides<R: MeshRegistry, const N: usize>(
    grid: &Grid<N>,
    reg: &R,
    outer_layer: &[Face],
    meshing_algorithm: MeshingAlgorithm,
    block_pos: BlockPos,
) -> (r: [bool; 6])
    ensures
        r@ == exposed_faces(grid, reg, open_flags(outer_layer@), meshing_algorithm, block_pos),
{
    let ghost want = culled_faces(
        grid,
        reg,
        open_flags(outer_layer@),
        meshing_algorithm,
        block_pos,
    );
    let mut r: [bool; 6] = [false, false, false, false, false, false];
    let mut i: usize = 0;
    while i < 6
        invariant
            i <= 6,
            want == culled_faces(
                grid,
                reg,
                open_flags(outer_layer@),
                meshing_algorithm,
                block_pos,
            ),
            forall|j: int| 0 <= j < i ==> r@[j] == !want[j],
        decreases 6 - i,
    {
        let face: Face = Face::from_index(i).unwrap();
        let flag: bool = match meshing_algorithm {
            MeshingAlgorithm::Naive => false,
            MeshingAlgorithm::Culling => match grid.get_neighbor_of(block_pos, face) {
                Some(t) => reg.is_cube(&t),
                None => {
                    let mut open: bool = false;
                    let mut k: usize = 0;
                    while k < outer_layer.len()
                        invariant
                            k <= outer_layer@.len(),
                            open == outer_layer@.take(k as int).contains(face),
                        decreases outer_layer@.len() - k,
                    {
                        proof {
                            let before = outer_layer@.take(k as int);
                            let after = outer_layer@.take(k + 1);
                            assert(after =~= before.push(outer_layer@[k as int]));
                            if before.contains(face) {
                                let j = choose|j: int| 0 <= j < before.len() && before[j] == face;
                                assert(after[j] == face);
                            }
                            if after.contains(face) && outer_layer@[k as int] != face {
                                let j = choose|j: int| 0 <= j < after.len() && after[j] == face;
                                assert(before[j] == face);
                            }
                            if outer_layer@[k as int] == face {
                                assert(after[k as int] == face);
                            }
                        }
                        if outer_layer[k] == face {
                            open = true;
                        }
                        k = k + 1;
                    }
                    assert(outer_layer@.take(k as int) =~= outer_layer@);
                    !open
                },
            },
        };
        r[i] = !flag;
        i = i + 1;
    }
    assert(r@ =~= unmarked(want));
    r
}

/// Adds the quads of one cube to the mesh that is being generated. The flags of
/// `sides_to_cull` tell, side by side, what culling has left: for every side whose
/// flag is set, the two triangles of the prototype `voxel` that lie in that side are
/// looked up, wherever they stand among its triangles, and the quad that they make
/// up is appended, with all its attributes and with its positions moved by
/// `position_offset`. A side whose flag is clear gets no quad. Nothing is added, and
/// `false` comes back, where one of the six sides of the prototype does not have
/// its quad.
pub fn add_vertices_normal_cube(
    sides_to_cull: [bool; 6],
    mesh: &mut Mesh,
    voxel: &Mesh,
    vivi: &mut CubeVIVI,
    voxel_pos: BlockPos,
    center: VertexValue,
    position_offset: VertexValue,
    dims: Dimensions,
) -> (r: bool)
    requires
        cube_consistent(*old(mesh), *old(vivi)),
        center == spec_block_center(),
        spec_pos_to_index(voxel_pos, dims) is Some,
        spec_pos_to_index(voxel_pos, dims).unwrap() < old(vivi).voxel_count(),
        24 * old(vivi).voxel_count() <= u32::MAX,
        crate::cube::quads::is_block_offset(position_offset),
    ensures
        cube_consistent(*final(mesh), *final(vivi)),
        final(mesh).ids() == old(mesh).ids(),
        final(vivi).voxel_count() == old(vivi).voxel_count(),
        r == valid_cube_prototype(*voxel, old(mesh).ids(), center),
        state_of(*final(mesh), *final(vivi)) == (if r {
            state_of(*old(mesh), *old(vivi)).add_faces(
                spec_pos_to_index(voxel_pos, dims).unwrap(),
                unmarked(sides_to_cull@),
                *voxel,
                old(mesh).ids(),
                position_offset,
                6,
            )
        } else {
            state_of(*old(mesh), *old(vivi))
        }),
{
    if !is_valid_cube_prototype(voxel, mesh, center) {
        return false;
    }
    let block_index: usize = pos_to_index(voxel_pos, dims).unwrap();
    let ghost s0 = state_of(*old(mesh), *old(vivi));
    let ghost ids = old(mesh).ids();
    let mut i: usize = 0;
    while i < 6
        invariant
            i <= 6,
            cube_consistent(*mesh, *vivi),
            mesh.ids() == ids,
            valid_cube_prototype(*voxel, ids, center),
            center == spec_block_center(),
            vivi.voxel_count() == old(vivi).voxel_count(),
            24 * vivi.voxel_count() <= u32::MAX,
            crate::cube::quads::is_block_offset(position_offset),
            block_index < vivi.voxel_count(),
            state_of(*mesh, *vivi) == s0.add_faces(
                block_index,
                unmarked(sides_to_cull@),
                *voxel,
                ids,
                position_offset,
                i as int,
            ),
        decreases 6 - i,
    {
        if sides_to_cull[i] {
            let face: Face = Face::from_index(i).unwrap();
            add_face(mesh, vivi, voxel, block_index, face, center, position_offset);
        }
        i = i + 1;
    }
    true
}

/// Arguments:
/// - `outer_layer`: the faces towards which the chunk counts as open, so that the
///   cubes on that border keep their quads there.
/// - `grid`: the grid of the blocks.
/// - `reg`: the mesh registry that contains all the meshes of the blocks.
/// - `meshing_algorithm`: culling or naive.
/// - `smooth_lighting_params`: enable smooth lighting (`Some`) or not (`None`).
///
/// Returns the mesh and the mesh metadata.
///
/// Returns `None` where the chunk has so many cells that the quads of a full chunk
/// would come to more vertices than a 32-bit index can count, and where the registry
/// holds an unfit prototype for a cube of the grid: one that is not in order itself,
/// lacks an attribute that the merged mesh tracks, has positions too large to be
/// moved, or has a side without its quad (a side that does not have just two
/// triangles, or whose two triangles do not make up one quad over four vertices).
pub fn meshify_cubic_voxels<R: MeshRegistry, const N: usize>(
    outer_layer: &[Face],
    grid: &Grid<N>,
    reg: &R,
    meshing_algorithm: MeshingAlgorithm,
    smooth_lighting_params: Option<SmoothLightingParameters>,
) -> (r: Option<(Mesh, CubeMD)>)
    requires
        grid.wf(),
    ensures
        r is Some <==> can_meshify(grid, reg),
        r matches Some((mesh, md)) ==> {
            &&& md.wf()
            &&& cube_consistent(mesh, md.vivi)
            &&& mesh.wf()
            &&& md.dims == grid.dims
            &&& md.smooth_lighting_params == smooth_lighting_params
            &&& md.changed_voxels@.len() == 0
            &&& mesh.ids() == spec_all_attributes()
            &&& state_of(mesh, md.vivi) == spec_generated(
                grid,
                reg,
                open_flags(outer_layer@),
                meshing_algorithm,
                smooth_lighting_params,
            )
        },
{
    if N > 0xffff_ffff / 24 {
        return None;
    }
    let mut mesh = Mesh::new();
    let total_voxels: usize = grid.len();
    let mut vivi = CubeVIVI::new(total_voxels);
    let attributes = reg.all_attributes();
    let mut a: usize = 0;
    while a < attributes.len()
        invariant
            a <= attributes@.len(),
            attributes@ == spec_all_attributes(),
            mesh.attributes@.len() == a,
            mesh.indices@.len() == 0,
            forall|b: int|
                0 <= b < a ==> (#[trigger] mesh.attributes@[b]).id == attributes@[b]
                    && mesh.attributes@[b].values@.len() == 0,
        decreases attributes@.len() - a,
    {
        mesh.attributes.push(MeshAttribute { id: attributes[a], values: Vec::new() });
        a = a + 1;
    }
    let center = reg.get_block_center();
    let ghost ids = spec_all_attributes();
    let ghost open = open_flags(outer_layer@);
    proof {
        assert(mesh.ids() =~= ids);
        assert(state_of(mesh, vivi).columns =~~= empty_state(ids.len()).columns);
        assert(state_of(mesh, vivi).indices =~= empty_state(ids.len()).indices);
        assert(state_of(mesh, vivi) == empty_state(ids.len()));
    }
    let mut v: usize = 0;
    while v < N
        invariant
            v <= N,
            grid.wf(),
            24 * N <= u32::MAX,
            vivi.voxel_count() == N,
            cube_consistent(mesh, vivi),
            mesh.ids() == ids,
            ids == spec_all_attributes(),
            open == open_flags(outer_layer@),
            center == spec_block_center(),
            forall|w: int|
                0 <= w < v && is_cube_block(reg, #[trigger] grid.cells()[w])
                    ==> valid_cube_prototype(
                    prototype_of(reg, grid.cells()[w]),
                    spec_all_attributes(),
                    spec_block_center(),
                ),
            state_of(mesh, vivi) == spec_meshify(grid, reg, ids, open, meshing_algorithm, v as int),
        decreases N - v,
    {
        let block: BlockId = grid.cell(v);
        let block_pos: BlockPos = index_to_pos(v, grid.dims).unwrap();
        let block_mesh = reg.get_block_mesh_ref(&block);
        if block_mesh.is_cube() {
            let voxel = block_mesh.unwrap();
            let position_offset = block_offset(block_pos.x, block_pos.y, block_pos.z);
            let exposed = exposed_sides(grid, reg, outer_layer, meshing_algorithm, block_pos);
            proof {
                assert(unmarked(exposed@) =~= culled_faces(
                    grid,
                    reg,
                    open,
                    meshing_algorithm,
                    block_pos,
                ));
            }
            let fit: bool = add_vertices_normal_cube(
                exposed,
                &mut mesh,
                voxel,
                &mut vivi,
                block_pos,
                center,
                position_offset,
                grid.dims,
            );
            if !fit {
                assert(is_cube_block(reg, grid.cells()[v as int]));
                return None;
            }
        }
        v = v + 1;
    }
    let d_mesh = CubeMD {
        dims: grid.dims,
        smooth_lighting_params,
        vivi,
        changed_voxels: Vec::new(),
    };
    if let Some(t) = smooth_lighting_params {
        if t.apply_at_gen {
            proof {
                assert(mesh.ids()[0] == crate::mesh::ATTRIBUTE_POSITION);
                assert(mesh.ids()[3] == crate::mesh::ATTRIBUTE_COLOR);
                assert(mesh.ids().no_duplicates());
                let p = choose|k: int|
                    0 <= k < mesh.ids().len() && mesh.ids()[k] == crate::mesh::ATTRIBUTE_POSITION;
                let c = choose|k: int|
                    0 <= k < mesh.ids().len() && mesh.ids()[k] == crate::mesh::ATTRIBUTE_COLOR;
                assert(p == 0 && c == 3);
                assert(mesh.ids().index_of(crate::mesh::ATTRIBUTE_POSITION) == 0);
                assert(mesh.ids().index_of(crate::mesh::ATTRIBUTE_COLOR) == 3);
            }
            apply_smooth_lighting(reg, &mut mesh, &d_mesh, grid.dims, 0, total_voxels, grid);
        }
    }
    proof {
        crate::cube::state::lemma_consistent_mesh_wf(mesh, d_mesh.vivi);
    }
    Some((mesh, d_mesh))
}

} // verus!
