//! Smooth lighting: a static darkening of the corners of quads that cubes crowd.
//!
//! For every quad the blocks around the cell that the quad looks at are sampled
//! into a cage of 3 x 3 x 3 cells. Each corner of the quad is darkened by the cubes
//! that touch it there. Cells beyond the border of the chunk are looked up in the
//! eight chunks around it. There is no chunk above or below: a quad that looks up or
//! down from the border of the chunk is left as it is.
use vstd::prelude::*;
use crate::chunk::{
    index_to_pos, is_block_pos_on_edge, lemma_pos_index_round_trip, neighbor_across_chunk,
    neighbor_pos, spec_index_to_pos, spec_neighbor_across_chunk, spec_neighbor_pos, spec_on_edge,
    BlockPos, Dimensions, Grid, IVec2, UVec3,
};
use crate::cube::md::{CubeMD, QuadOwner};
use crate::cube::state::{cube_consistent, state_of, CubeState};
use crate::cube::update::{is_cube_block, offset_of};
use crate::dir::{
    from_cords_change, spec_add_direction, spec_from_cords_change, NDir,
};
use crate::face::Face;
use crate::mesh::{
    block_offset, Mesh, VertexValue, ATTRIBUTE_COLOR, ATTRIBUTE_POSITION,
};
use crate::mesh_reg::{MeshRegistry, MeshRegistryCommon};

verus! {

/// The greatest occlusion total of a vertex, in quarters of a covering cube: two
/// whole cubes.
pub const MAX_OCCLUSION: usize = 8;

/// Parameters for smooth lighting. The lighting curve is given by its values: for
/// each occlusion total that a vertex can have the color component that the curve
/// assigns to it.
#[derive(Clone, Copy, Debug)]
pub struct SmoothLightingParameters {
    /// The color component for the occlusion totals 0, 1/4, 2/4, up to 8/4.
    pub shades: [i64; 9],
    /// The component that stands for full opacity.
    pub opaque: i64,
    /// True => Apply automatically after generating.
    /// False => The user applies it later.
    pub apply_at_gen: bool,
}

/// The cell, seen from `block_pos`, that lies `x_change`, `y_change` and `z_change`
/// cells away: the chunk it lies in, as a direction from the chunk of `block_pos`,
/// and its position in that chunk. There is none above or below the chunk, and none
/// a whole chunk or more away.
pub open spec fn spec_get_block_n_away(
    dims: Dimensions,
    block_pos: BlockPos,
    x_change: int,
    y_change: int,
    z_change: int,
) -> Option<(Option<NDir>, BlockPos)> {
    let x = block_pos.x + x_change;
    let y = block_pos.y + y_change;
    let z = block_pos.z + z_change;
    if y >= dims.y || y < 0 || vstd::math::abs(x_change) >= dims.x || vstd::math::abs(z_change)
        >= dims.z {
        None
    } else {
        Some(
            (
                spec_from_cords_change(x / (dims.x as int), z / (dims.z as int)),
                UVec3 {
                    x: (x % (dims.x as int)) as u32,
                    y: y as u32,
                    z: (z % (dims.z as int)) as u32,
                },
            ),
        )
    }
}

/// One coordinate moved by `change` and wrapped into a chunk of extent `dim`: the
/// sign of the number of chunks that were crossed, and the coordinate in the chunk
/// that was reached.
fn wrap_coordinate(value: u32, change: i32, dim: u32) -> (r: (i32, u32))
    requires
        vstd::math::abs(change as int) < dim,
    ensures
        r.1 == (value + change) % (dim as int),
        r.0 < 0 <==> (value + change) / (dim as int) < 0,
        r.0 == 0 <==> (value + change) / (dim as int) == 0,
        r.0 > 0 <==> (value + change) / (dim as int) > 0,
{
    let moved: i64 = value as i64 + change as i64;
    let d: i64 = dim as i64;
    proof {
        let m = moved as int;
        let dd = d as int;
        vstd::arithmetic::div_mod::lemma_fundamental_div_mod(m, dd);
        vstd::arithmetic::div_mod::lemma_mod_pos_bound(m + dd, dd);
        vstd::arithmetic::div_mod::lemma_mod_bound(m, dd);
        if m < 0 {
            vstd::arithmetic::div_mod::lemma_fundamental_div_mod_converse(m, dd, -1, m + dd);
        } else if m < dd {
            vstd::arithmetic::div_mod::lemma_fundamental_div_mod_converse(m, dd, 0, m);
        } else {
            vstd::arithmetic::div_mod::lemma_div_pos_is_pos(m, dd);
            if m / dd == 0 {
                assert(m == dd * 0 + m % dd);
            }
        }
    }
    if moved < 0 {
        (-1, (moved + d) as u32)
    } else if moved < d {
        (0, moved as u32)
    } else {
        (1, (moved % d) as u32)
    }
}

pub fn get_block_n_away(
    dims: Dimensions,
    block_pos: BlockPos,
    x_change: i32,
    y_change: i32,
    z_change: i32,
) -> (r: Option<(Option<NDir>, BlockPos)>)
    ensures
        r == spec_get_block_n_away(
            dims,
            block_pos,
            x_change as int,
            y_change as int,
            z_change as int,
        ),
{
    let y: i64 = block_pos.y as i64 + y_change as i64;
    let x_abs: i64 = if x_change < 0 {
        -(x_change as i64)
    } else {
        x_change as i64
    };
    let z_abs: i64 = if z_change < 0 {
        -(z_change as i64)
    } else {
        z_change as i64
    };
    if y >= dims.y as i64 || y < 0 || x_abs >= dims.x as i64 || z_abs >= dims.z as i64 {
        return None;
    }
    let (cx, x) = wrap_coordinate(block_pos.x, x_change, dims.x);
    let (cz, z) = wrap_coordinate(block_pos.z, z_change, dims.z);
    let dir = from_cords_change(IVec2 { x: cx, y: cz });
    Some((dir, UVec3 { x, y: y as u32, z }))
}

/// Where the voxel of a quad lies, seen from the cell that the quad looks at.
pub open spec fn face_step(face: Face) -> (int, int, int) {
    match face {
        Face::Top => (0, -1, 0),
        Face::Bottom => (0, 1, 0),
        Face::Right => (-1, 0, 0),
        Face::Left => (1, 0, 0),
        Face::Back => (0, 0, -1),
        Face::Front => (0, 0, 1),
    }
}

/// Whether the cell at `(x, y, z)` of the cage, counted from its middle, is left
/// empty for a quad of `face`: only the eight cells around the middle, in the layer
/// that the quad looks at, are sampled.
pub open spec fn cage_cell_skipped(face: Face, x: int, y: int, z: int) -> bool {
    let (og_x, og_y, og_z) = face_step(face);
    ||| (og_x == x && og_y == y) || (og_x == x && og_z == z) || (og_y == y && og_z == z)
    ||| (og_x == x && og_x != 0) || (og_y == y && og_y != 0) || (og_z == z && og_z != 0)
    ||| (og_x == x + 2 && og_x != 0) || (og_y == y + 2 && og_y != 0) || (og_z == z + 2 && og_z
        != 0)
    ||| (og_x == x - 2 && og_x != 0) || (og_y == y - 2 && og_y != 0) || (og_z == z - 2 && og_z
        != 0)
}

/// Whether `grid` is there and holds a cube at `pos`.
pub open spec fn spec_occupied<R: MeshRegistry, const N: usize>(
    reg: &R,
    grid: Option<&Grid<N>>,
    pos: BlockPos,
) -> bool {
    match grid {
        Some(g) => match g.spec_get_block(pos) {
            Some(b) => is_cube_block(reg, b),
            None => false,
        },
        None => false,
    }
}

/// The cell that a quad of the voxel at `pos` looks at, and the chunk it lies in.
/// A quad that looks up or down from the border of the chunk has none.
pub open spec fn spec_quad_anchor(dims: Dimensions, pos: BlockPos, face: Face) -> Option<
    (BlockPos, Option<NDir>),
> {
    if spec_on_edge(pos, face, dims) {
        if face.spec_is_vertical() {
            None
        } else {
            match spec_neighbor_across_chunk(pos, face, dims) {
                Some(p) => Some((p, Some(NDir::spec_from_face(face)))),
                None => None,
            }
        }
    } else {
        match spec_neighbor_pos(pos, face, dims) {
            Some(p) => Some((p, None)),
            None => None,
        }
    }
}

/// Whether cell `c` of the cage around `anchor` is taken by a cube. The cell lies
/// in this chunk or in one of the chunks around it; `neighbors` holds those by the
/// index of their direction. A chunk that is not there has no cubes.
pub open spec fn spec_cage_cell<R: MeshRegistry, const N: usize>(
    reg: &R,
    this_chunk: &Grid<N>,
    neighbors: Seq<Option<&Grid<N>>>,
    dims: Dimensions,
    anchor: BlockPos,
    chunk_dir: Option<NDir>,
    face: Face,
    c: int,
) -> bool {
    let x = c % 3 - 1;
    let z = (c / 3) % 3 - 1;
    let y = c / 9 - 1;
    if cage_cell_skipped(face, x, y, z) {
        false
    } else {
        match spec_get_block_n_away(dims, anchor, x, y, z) {
            None => false,
            Some((dir, p)) => match spec_add_direction(chunk_dir, dir) {
                None => spec_occupied(reg, Some(this_chunk), p),
                Some(d) => spec_occupied(reg, neighbors[d.index()], p),
            },
        }
    }
}

/// The cage of a quad: for each of its 27 cells whether a cube takes it.
pub open spec fn spec_cage<R: MeshRegistry, const N: usize>(
    reg: &R,
    this_chunk: &Grid<N>,
    neighbors: Seq<Option<&Grid<N>>>,
    dims: Dimensions,
    anchor: BlockPos,
    chunk_dir: Option<NDir>,
    face: Face,
) -> Seq<bool> {
    Seq::new(
        27,
        |c: int| spec_cage_cell(reg, this_chunk, neighbors, dims, anchor, chunk_dir, face, c),
    )
}

/// The cell at `(x, y, z)` of the cage, counted from its corner; outside the cage
/// there is nothing.
pub open spec fn cage_at(cage: Seq<bool>, x: int, y: int, z: int) -> bool {
    if 0 <= x < 3 && 0 <= y < 3 && 0 <= z < 3 {
        cage[y * 9 + z * 3 + x]
    } else {
        false
    }
}

/// On which side of `origin` the coordinate `value` lies.
pub open spec fn side_of(value: i64, origin: i64) -> int {
    if value >= origin {
        1
    } else {
        -1
    }
}

/// How much the cubes of the cage cover the vertex at `position` of a quad of
/// `face`, in quarters of a cube: a cube that touches the vertex through an edge
/// counts four, the one that touches it only through the corner counts three, and
/// the total stops at eight.
pub open spec fn spec_occlusion(
    cage: Seq<bool>,
    face: Face,
    position: VertexValue,
    voxel_center: VertexValue,
) -> int {
    let (sx, sy, sz) = face_step(face);
    let (ogx, ogy, ogz) = (1 + sx, 1 + sy, 1 + sz);
    let nx = ogx + side_of(position.x, voxel_center.x);
    let ny = ogy + side_of(position.y, voxel_center.y);
    let nz = ogz + side_of(position.z, voxel_center.z);
    let total = (if cage_at(cage, nx, ny, nz) {
        3int
    } else {
        0
    }) + (if cage_at(cage, nx, ny, ogz) {
        4int
    } else {
        0
    }) + (if cage_at(cage, nx, ogy, nz) {
        4int
    } else {
        0
    }) + (if cage_at(cage, ogx, ny, nz) {
        4int
    } else {
        0
    });
    if total > 8 {
        8
    } else {
        total
    }
}

/// The color of a vertex that the cubes cover by `occlusion`.
pub open spec fn spec_shade(params: SmoothLightingParameters, occlusion: int) -> VertexValue {
    VertexValue {
        x: params.shades@[occlusion],
        y: params.shades@[occlusion],
        z: params.shades@[occlusion],
        w: params.opaque,
    }
}

/// The color that smooth lighting gives to vertex `i` of the mesh, or `None` where
/// it leaves the vertex as it is: the quad of the vertex belongs to a voxel outside
/// the bounds, or looks up or down from the border of the chunk.
pub open spec fn spec_lit_color<R: MeshRegistry, const N: usize>(
    s: CubeState,
    position_column: int,
    reg: &R,
    this_chunk: &Grid<N>,
    neighbors: Seq<Option<&Grid<N>>>,
    dims: Dimensions,
    params: SmoothLightingParameters,
    lower_bound: int,
    upper_bound: int,
    i: int,
) -> Option<VertexValue> {
    let owner = s.owners[i / 4];
    let pos = spec_index_to_pos(owner.voxel, dims).unwrap();
    if lower_bound <= owner.voxel <= upper_bound {
        match spec_quad_anchor(dims, pos, owner.face) {
            Some((anchor, chunk_dir)) => Some(
                spec_shade(
                    params,
                    spec_occlusion(
                        spec_cage(reg, this_chunk, neighbors, dims, anchor, chunk_dir, owner.face),
                        owner.face,
                        s.columns[position_column][i],
                        offset_of(pos),
                    ),
                ),
            ),
            None => None,
        }
    } else {
        None
    }
}

/// The mesh after smooth lighting: the colors of the vertices of the quads of the
/// voxels from `lower_bound` to `upper_bound` are set, all else is as it was.
pub open spec fn spec_smooth_lighting<R: MeshRegistry, const N: usize>(
    s: CubeState,
    position_column: int,
    color_column: int,
    reg: &R,
    this_chunk: &Grid<N>,
    neighbors: Seq<Option<&Grid<N>>>,
    dims: Dimensions,
    params: SmoothLightingParameters,
    lower_bound: int,
    upper_bound: int,
) -> CubeState {
    CubeState {
        columns: s.columns.update(
            color_column,
            Seq::new(
                s.columns[color_column].len(),
                |i: int|
                    match spec_lit_color(
                        s,
                        position_column,
                        reg,
                        this_chunk,
                        neighbors,
                        dims,
                        params,
                        lower_bound,
                        upper_bound,
                        i,
                    ) {
                        Some(c) => c,
                        None => s.columns[color_column][i],
                    },
            ),
        ),
        indices: s.indices,
        owners: s.owners,
    }
}

/// Whether cell `(x, y, z)` of the cage is left empty for a quad of `face`.
fn is_cage_cell_skipped(face: Face, x: i32, y: i32, z: i32) -> (r: bool)
    requires
        -1 <= x <= 1,
        -1 <= y <= 1,
        -1 <= z <= 1,
    ensures
        r == cage_cell_skipped(face, x as int, y as int, z as int),
{
    let (og_x, og_y, og_z): (i32, i32, i32) = match face {
        Face::Top => (0, -1, 0),
        Face::Bottom => (0, 1, 0),
        Face::Right => (-1, 0, 0),
        Face::Left => (1, 0, 0),
        Face::Back => (0, 0, -1),
        Face::Front => (0, 0, 1),
    };
    if (og_x == x && og_y == y) || (og_x == x && og_z == z) || (og_y == y && og_z == z) {
        return true;
    }
    if (og_x == x && og_x != 0) || (og_y == y && og_y != 0) || (og_z == z && og_z != 0) {
        return true;
    }
    if (og_x == x + 2 && og_x != 0) || (og_y == y + 2 && og_y != 0) || (og_z == z + 2 && og_z
        != 0) {
        return true;
    }
    if (og_x == x - 2 && og_x != 0) || (og_y == y - 2 && og_y != 0) || (og_z == z - 2 && og_z
        != 0) {
        return true;
    }
    false
}

/// Whether `grid` is there and holds a cube at `pos`.
fn occupied<R: MeshRegistry, const N: usize>(reg: &R, grid: Option<&Grid<N>>, pos: BlockPos) -> (r:
    bool)
    ensures
        r == spec_occupied(reg, grid, pos),
{
    match grid {
        Some(g) => match g.get_block(pos) {
            Some(b) => reg.is_cube(&b),
            None => false,
        },
        None => false,
    }
}

/// Samples the cage of a quad of `face` that looks at the cell `anchor`.
fn sample_cage<R: MeshRegistry, const N: usize>(
    reg: &R,
    this_chunk: &Grid<N>,
    neighbors: &[Option<&Grid<N>>; 8],
    dims: Dimensions,
    anchor: BlockPos,
    chunk_dir: Option<NDir>,
    face: Face,
) -> (r: [bool; 27])
    ensures
        r@ == spec_cage(reg, this_chunk, neighbors@, dims, anchor, chunk_dir, face),
{
    let mut surrounding_blocks: [bool; 27] = [
        false,
        false,
        false,
        false,
        false,
        false,
        false,
        false,
        false,
        false,
        false,
        false,
        false,
        false,
        false,
        false,
        false,
        false,
        false,
        false,
        false,
        false,
        false,
        false,
        false,
        false,
        false,
    ];
    let ghost want = spec_cage(reg, this_chunk, neighbors@, dims, anchor, chunk_dir, face);
    let mut c: usize = 0;
    while c < 27
        invariant
            c <= 27,
            want == spec_cage(reg, this_chunk, neighbors@, dims, anchor, chunk_dir, face),
            forall|j: int| 0 <= j < c ==> surrounding_blocks@[j] == want[j],
        decreases 27 - c,
    {
        let x: i32 = (c % 3) as i32 - 1;
        let z: i32 = ((c / 3) % 3) as i32 - 1;
        let y: i32 = (c / 9) as i32 - 1;
        let mut cell: bool = false;
        if !is_cage_cell_skipped(face, x, y, z) {
            match get_block_n_away(dims, anchor, x, y, z) {
                None => {},
                Some((dir, neighbor_block_pos)) => {
                    let final_dir = NDir::add_direction(chunk_dir, dir);
                    cell = match final_dir {
                        None => occupied(reg, Some(this_chunk), neighbor_block_pos),
                        Some(d) => occupied(reg, neighbors[d.to_index()], neighbor_block_pos),
                    };
                },
            }
        }
        proof {
            assert(cell == spec_cage_cell(
                reg,
                this_chunk,
                neighbors@,
                dims,
                anchor,
                chunk_dir,
                face,
                c as int,
            ));
        }
        surrounding_blocks[c] = cell;
        c = c + 1;
    }
    assert(surrounding_blocks@ =~= want);
    surrounding_blocks
}

/// The cell at `(x, y, z)` of the cage; outside the cage there is nothing.
fn cage_lookup(cage: &[bool; 27], x: i32, y: i32, z: i32) -> (r: bool)
    requires
        -1 <= x <= 3,
        -1 <= y <= 3,
        -1 <= z <= 3,
    ensures
        r == cage_at(cage@, x as int, y as int, z as int),
{
    if 0 <= x && x < 3 && 0 <= y && y < 3 && 0 <= z && z < 3 {
        cage[(y * 9 + z * 3 + x) as usize]
    } else {
        false
    }
}

/// How much the cubes of the cage cover a vertex of a quad of `face`.
fn occlusion(cage: &[bool; 27], face: Face, position: VertexValue, voxel_center: VertexValue) -> (r:
    usize)
    ensures
        r == spec_occlusion(cage@, face, position, voxel_center),
        r <= 8,
{
    let (ogx, ogy, ogz): (i32, i32, i32) = match face {
        Face::Top => (1, 0, 1),
        Face::Bottom => (1, 2, 1),
        Face::Right => (0, 1, 1),
        Face::Left => (2, 1, 1),
        Face::Back => (1, 1, 0),
        Face::Front => (1, 1, 2),
    };
    let dx: i32 = if position.x >= voxel_center.x {
        1
    } else {
        -1
    };
    let dy: i32 = if position.y >= voxel_center.y {
        1
    } else {
        -1
    };
    let dz: i32 = if position.z >= voxel_center.z {
        1
    } else {
        -1
    };
    let nx: i32 = ogx + dx;
    let ny: i32 = ogy + dy;
    let nz: i32 = ogz + dz;
    let mut total: usize = 0;
    if cage_lookup(cage, nx, ny, nz) {
        total = total + 3;
    }
    if cage_lookup(cage, nx, ny, ogz) {
        total = total + 4;
    }
    if cage_lookup(cage, nx, ogy, nz) {
        total = total + 4;
    }
    if cage_lookup(cage, ogx, ny, nz) {
        total = total + 4;
    }
    if total > 8 {
        total = 8;
    }
    total
}

/// Sets the colors of the four vertices of the quad that starts at vertex `quad`,
/// which belongs to the voxel at `block_pos` and covers `face`, from the cage
/// `surrounding_blocks`.
pub fn apply_sl_quad(
    mesh: &mut Mesh,
    quad: usize,
    block_pos: BlockPos,
    face: Face,
    surrounding_blocks: &[bool; 27],
    slparams: SmoothLightingParameters,
    position_column: usize,
    color_column: usize,
)
    requires
        position_column < old(mesh).attributes@.len(),
        color_column < old(mesh).attributes@.len(),
        position_column != color_column,
        quad + 4 <= old(mesh).attributes@[position_column as int].values@.len(),
        quad + 4 <= old(mesh).attributes@[color_column as int].values@.len(),
    ensures
        final(mesh).indices == old(mesh).indices,
        final(mesh).attributes@.len() == old(mesh).attributes@.len(),
        final(mesh).ids() == old(mesh).ids(),
        forall|a: int|
            0 <= a < old(mesh).attributes@.len() && a != color_column ==> (
            #[trigger] final(mesh).attributes@[a]) == old(mesh).attributes@[a],
        final(mesh).attributes@[color_column as int].values@.len() == old(mesh).attributes@[color_column as int].values@.len(),
        forall|i: int|
            0 <= i < old(mesh).attributes@[color_column as int].values@.len() ==> (
            #[trigger] final(mesh).attributes@[color_column as int].values@[i]) == (if quad <= i
                < quad + 4 {
                spec_shade(
                    slparams,
                    spec_occlusion(
                        surrounding_blocks@,
                        face,
                        old(mesh).attributes@[position_column as int].values@[i],
                        offset_of(block_pos),
                    ),
                )
            } else {
                old(mesh).attributes@[color_column as int].values@[i]
            }),
{
    let voxel_center = block_offset(block_pos.x, block_pos.y, block_pos.z);
    let ghost ids = mesh.ids();
    let vertices: usize = mesh.attributes[color_column].values.len();
    let mut i: usize = 0;
    while i < 4
        invariant
            i <= 4,
            quad + 4 <= vertices,
            voxel_center == offset_of(block_pos),
            mesh.indices == old(mesh).indices,
            mesh.attributes@.len() == old(mesh).attributes@.len(),
            mesh.ids() == ids,
            position_column < mesh.attributes@.len(),
            color_column < mesh.attributes@.len(),
            position_column != color_column,
            forall|a: int|
                0 <= a < old(mesh).attributes@.len() && a != color_column ==> (
                #[trigger] mesh.attributes@[a]) == old(mesh).attributes@[a],
            quad + 4 <= old(mesh).attributes@[position_column as int].values@.len(),
            mesh.attributes@[color_column as int].values@.len() == old(mesh).attributes@[color_column as int].values@.len(),
            quad + 4 <= mesh.attributes@[color_column as int].values@.len(),
            forall|j: int|
                0 <= j < old(mesh).attributes@[color_column as int].values@.len() ==> (
                #[trigger] mesh.attributes@[color_column as int].values@[j]) == (if quad <= j
                    < quad + i {
                    spec_shade(
                        slparams,
                        spec_occlusion(
                            surrounding_blocks@,
                            face,
                            old(mesh).attributes@[position_column as int].values@[j],
                            offset_of(block_pos),
                        ),
                    )
                } else {
                    old(mesh).attributes@[color_column as int].values@[j]
                }),
        decreases 4 - i,
    {
        let ver: usize = i + quad;
        assert(mesh.attributes@[position_column as int] == old(mesh).attributes@[position_column as int]);
        let position: VertexValue = mesh.attributes[position_column].values[ver];
        let total: usize = occlusion(surrounding_blocks, face, position, voxel_center);
        let color: i64 = slparams.shades[total];
        let ghost attrs_before = mesh.attributes@;
        mesh.attributes[color_column].values[ver] = VertexValue {
            x: color,
            y: color,
            z: color,
            w: slparams.opaque,
        };
        proof {
            assert forall|a: int| 0 <= a < attrs_before.len() && a != color_column implies (
            #[trigger] mesh.attributes@[a]) == attrs_before[a] by {}
            assert(mesh.attributes@[color_column as int].id == attrs_before[color_column as int].id);
            assert(mesh.ids() =~= ids);
        }
        i = i + 1;
    }
}

/// Applies smooth lighting to the quads of a chunk that has no chunks around it.
pub fn apply_smooth_lighting<R: MeshRegistry, const N: usize>(
    reg: &R,
    mesh: &mut Mesh,
    metadata: &CubeMD,
    dims: Dimensions,
    lower_bound: usize,
    upper_bound: usize,
    this_chunk: &Grid<N>,
)
    requires
        metadata.wf(),
        cube_consistent(*old(mesh), metadata.vivi),
        dims == metadata.dims,
        old(mesh).ids().contains(ATTRIBUTE_POSITION),
        old(mesh).ids().contains(ATTRIBUTE_COLOR),
    ensures
        cube_consistent(*final(mesh), metadata.vivi),
        final(mesh).wf(),
        final(mesh).ids() == old(mesh).ids(),
        state_of(*final(mesh), metadata.vivi) == (match metadata.smooth_lighting_params {
            Some(sl) => spec_smooth_lighting(
                state_of(*old(mesh), metadata.vivi),
                old(mesh).spec_attribute_position(ATTRIBUTE_POSITION).unwrap(),
                old(mesh).spec_attribute_position(ATTRIBUTE_COLOR).unwrap(),
                reg,
                this_chunk,
                Seq::new(8, |d: int| None::<&Grid<N>>),
                dims,
                sl,
                lower_bound as int,
                upper_bound as int,
            ),
            None => state_of(*old(mesh), metadata.vivi),
        }),
{
    apply_smooth_lighting_with_connected_chunks(
        reg,
        mesh,
        metadata,
        dims,
        lower_bound,
        upper_bound,
        this_chunk,
        None,
        None,
        None,
        None,
        None,
        None,
        None,
        None,
    );
    proof {
        let none = None::<&Grid<N>>;
        assert(seq![none, none, none, none, none, none, none, none] =~= Seq::new(
            8,
            |d: int| None::<&Grid<N>>,
        ));
    }
}

/// Applies smooth lighting to the quads of the voxels with the indices from
/// `lower_bound` to `upper_bound`. The chunks around the chunk are given by their
/// direction; where one is missing its cells count as empty.
pub fn apply_smooth_lighting_with_connected_chunks<'a, R: MeshRegistry, const N: usize>(
    reg: &R,
    mesh: &mut Mesh,
    metadata: &CubeMD,
    dims: Dimensions,
    lower_bound: usize,
    upper_bound: usize,
    this_chunk: &'a Grid<N>,
    north_chunk: Option<&'a Grid<N>>,
    south_chunk: Option<&'a Grid<N>>,
    east_chunk: Option<&'a Grid<N>>,
    west_chunk: Option<&'a Grid<N>>,
    no_east_chunk: Option<&'a Grid<N>>,
    no_west_chunk: Option<&'a Grid<N>>,
    so_east_chunk: Option<&'a Grid<N>>,
    so_west_chunk: Option<&'a Grid<N>>,
)
    requires
        metadata.wf(),
        cube_consistent(*old(mesh), metadata.vivi),
        dims == metadata.dims,
        old(mesh).ids().contains(ATTRIBUTE_POSITION),
        old(mesh).ids().contains(ATTRIBUTE_COLOR),
    ensures
        cube_consistent(*final(mesh), metadata.vivi),
        final(mesh).wf(),
        final(mesh).ids() == old(mesh).ids(),
        state_of(*final(mesh), metadata.vivi) == (match metadata.smooth_lighting_params {
            Some(sl) => spec_smooth_lighting(
                state_of(*old(mesh), metadata.vivi),
                old(mesh).spec_attribute_position(ATTRIBUTE_POSITION).unwrap(),
                old(mesh).spec_attribute_position(ATTRIBUTE_COLOR).unwrap(),
                reg,
                this_chunk,
                seq![
                    north_chunk,
                    south_chunk,
                    east_chunk,
                    west_chunk,
                    no_east_chunk,
                    no_west_chunk,
                    so_east_chunk,
                    so_west_chunk,
                ],
                dims,
                sl,
                lower_bound as int,
                upper_bound as int,
            ),
            None => state_of(*old(mesh), metadata.vivi),
        }),
{
    let sl = match metadata.smooth_lighting_params {
        Some(sl) => sl,
        None => {
            proof {
                crate::cube::state::lemma_consistent_mesh_wf(*mesh, metadata.vivi);
            }
            return ;
        },
    };
    let neighbors: [Option<&Grid<N>>; 8] = [
        north_chunk,
        south_chunk,
        east_chunk,
        west_chunk,
        no_east_chunk,
        no_west_chunk,
        so_east_chunk,
        so_west_chunk,
    ];
    let position_column: usize = mesh.attribute_position(ATTRIBUTE_POSITION).unwrap();
    let color_column: usize = mesh.attribute_position(ATTRIBUTE_COLOR).unwrap();
    let ghost s0 = state_of(*old(mesh), metadata.vivi);
    let ghost ids = mesh.ids();
    let ghost want = spec_smooth_lighting(
        s0,
        position_column as int,
        color_column as int,
        reg,
        this_chunk,
        neighbors@,
        dims,
        sl,
        lower_bound as int,
        upper_bound as int,
    );
    proof {
        assert(neighbors@ =~= seq![
            north_chunk,
            south_chunk,
            east_chunk,
            west_chunk,
            no_east_chunk,
            no_west_chunk,
            so_east_chunk,
            so_west_chunk,
        ]);
        metadata.vivi.lemma_owners_distinct();
        assert(s0.columns[position_column as int].len() == 4 * s0.owners.len());
        assert(s0.columns[color_column as int].len() == 4 * s0.owners.len());
    }
    let quads: usize = metadata.vivi.map.len();
    let mut k: usize = 0;
    while k < quads
        invariant
            k <= quads,
            quads == metadata.vivi.map@.len(),
            quads == s0.owners.len(),
            metadata.wf(),
            dims == metadata.dims,
            s0 == state_of(*old(mesh), metadata.vivi),
            position_column < mesh.attributes@.len(),
            color_column < mesh.attributes@.len(),
            position_column != color_column,
            mesh.indices == old(mesh).indices,
            mesh.attributes@.len() == old(mesh).attributes@.len(),
            mesh.ids() == ids,
            s0.columns[position_column as int].len() == 4 * quads,
            s0.columns[color_column as int].len() == 4 * quads,
            forall|a: int|
                0 <= a < old(mesh).attributes@.len() && a != color_column ==> (
                #[trigger] mesh.attributes@[a]) == old(mesh).attributes@[a],
            mesh.attributes@[color_column as int].values@.len() == 4 * quads,
            want == spec_smooth_lighting(
                s0,
                position_column as int,
                color_column as int,
                reg,
                this_chunk,
                neighbors@,
                dims,
                sl,
                lower_bound as int,
                upper_bound as int,
            ),
            forall|i: int|
                0 <= i < 4 * quads ==> (
                #[trigger] mesh.attributes@[color_column as int].values@[i]) == (if i < 4 * k {
                    want.columns[color_column as int][i]
                } else {
                    s0.columns[color_column as int][i]
                }),
        decreases quads - k,
    {
        proof {
            assert(metadata.vivi.slot_ok(None, k as int));
            assert(s0.owners[k as int] == metadata.vivi.map@[k as int].unwrap());
        }
        let owner: QuadOwner = metadata.vivi.map[k].unwrap();
        let ghost colors_before = mesh.attributes@[color_column as int].values@;
        if lower_bound <= owner.voxel && owner.voxel <= upper_bound {
            let block_pos: BlockPos = index_to_pos(owner.voxel, dims).unwrap();
            let face: Face = owner.face;
            let on_edge: bool = is_block_pos_on_edge(block_pos, face, dims);
            if !(face.is_vertical() && on_edge) {
                proof {
                    lemma_pos_index_round_trip(block_pos, owner.voxel, dims);
                }
                let (anchor, chunk_dir): (BlockPos, Option<NDir>) = if on_edge {
                    (
                        neighbor_across_chunk(block_pos, face, dims).unwrap(),
                        Some(NDir::from_face(face)),
                    )
                } else {
                    (neighbor_pos(block_pos, face, dims).unwrap(), None)
                };
                let surrounding_blocks = sample_cage(
                    reg,
                    this_chunk,
                    &neighbors,
                    dims,
                    anchor,
                    chunk_dir,
                    face,
                );
                assert(mesh.attributes@[position_column as int] == old(mesh).attributes@[position_column as int]);
                apply_sl_quad(
                    mesh,
                    4 * k,
                    block_pos,
                    face,
                    &surrounding_blocks,
                    sl,
                    position_column,
                    color_column,
                );
            }
        }
        proof {
            assert forall|i: int| 0 <= i < 4 * quads implies (
            #[trigger] mesh.attributes@[color_column as int].values@[i]) == (if i < 4 * (k + 1) {
                want.columns[color_column as int][i]
            } else {
                s0.columns[color_column as int][i]
            }) by {
                assert(colors_before[i] == (if i < 4 * k {
                    want.columns[color_column as int][i]
                } else {
                    s0.columns[color_column as int][i]
                }));
                if 4 * k <= i < 4 * k + 4 {
                    assert(i / 4 == k);
                }
            }
        }
        k = k + 1;
    }
    proof {
        let s1 = state_of(*mesh, metadata.vivi);
        assert(s1.columns =~~= want.columns) by {
            assert(s1.columns.len() == want.columns.len());
            assert forall|a: int| 0 <= a < s1.columns.len() implies s1.columns[a]
                =~= want.columns[a] by {
                if a == color_column {
                    assert forall|i: int| 0 <= i < s1.columns[a].len() implies s1.columns[a][i]
                        == want.columns[a][i] by {
                        assert(mesh.attributes@[color_column as int].values@[i]
                            == want.columns[color_column as int][i]);
                    }
                } else {
                    assert(mesh.attributes@[a] == old(mesh).attributes@[a]);
                }
            }
        }
        assert(s1 == want);
        assert forall|a: int| 0 <= a < s1.columns.len() implies (#[trigger] s1.columns[a]).len()
            == 4 * s1.owners.len() by {
            assert(s0.columns[a].len() == 4 * s0.owners.len());
        }
        assert forall|i: int| 0 <= i < s1.indices.len() implies #[trigger] s1.index_ok(i) by {
            assert(s0.index_ok(i));
        }
        assert forall|j: int| 0 <= j < s1.owners.len() implies (#[trigger] s1.owners[j]).voxel
            < metadata.vivi.voxel_count() by {
            assert(s0.owners[j].voxel < metadata.vivi.voxel_count());
        }
        crate::cube::state::lemma_consistent_mesh_wf(*mesh, metadata.vivi);
    }
}

} // verus!
