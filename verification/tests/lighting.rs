use moxi::block_mesh::BlockMesh;
use moxi::chunk::{pos_to_index, Grid, UVec3};
use moxi::cube::meshify::{meshify_cubic_voxels, MeshingAlgorithm};
use moxi::dir::NDir;
use moxi::face::{faces, Face};
use moxi::mesh::{
    Mesh, MeshAttribute, VertexValue, ATTRIBUTE_COLOR, ATTRIBUTE_NORMAL, ATTRIBUTE_POSITION,
    ATTRIBUTE_UV_0, UNITS_PER_BLOCK,
};
use moxi::mesh_reg::MeshReg;
use moxi::sl::{
    apply_smooth_lighting, apply_smooth_lighting_with_connected_chunks, get_block_n_away,
    SmoothLightingParameters, MAX_OCCLUSION,
};

const HALF: i64 = UNITS_PER_BLOCK / 2;

fn lit_cube_prototype() -> Mesh {
    let raw: [[i64; 3]; 24] = [
        [-HALF, HALF, -HALF], [HALF, HALF, -HALF], [HALF, HALF, HALF], [-HALF, HALF, HALF],
        [-HALF, -HALF, -HALF], [HALF, -HALF, -HALF], [HALF, -HALF, HALF], [-HALF, -HALF, HALF],
        [HALF, -HALF, -HALF], [HALF, HALF, -HALF], [HALF, HALF, HALF], [HALF, -HALF, HALF],
        [-HALF, -HALF, -HALF], [-HALF, HALF, -HALF], [-HALF, HALF, HALF], [-HALF, -HALF, HALF],
        [-HALF, -HALF, HALF], [HALF, -HALF, HALF], [HALF, HALF, HALF], [-HALF, HALF, HALF],
        [-HALF, -HALF, -HALF], [HALF, -HALF, -HALF], [HALF, HALF, -HALF], [-HALF, HALF, -HALF],
    ];
    let positions: Vec<VertexValue> =
        raw.iter().map(|p| VertexValue::new(p[0], p[1], p[2], 0)).collect();
    let plain = |v: i64| -> Vec<VertexValue> { vec![VertexValue::new(v, v, v, v); 24] };
    let mut indices: Vec<u32> = Vec::new();
    for f in 0..6u32 {
        let b = 4 * f;
        indices.extend_from_slice(&[b, b + 1, b + 2, b + 2, b + 3, b]);
    }
    Mesh {
        attributes: vec![
            MeshAttribute { id: ATTRIBUTE_POSITION, values: positions },
            MeshAttribute { id: ATTRIBUTE_NORMAL, values: plain(1) },
            MeshAttribute { id: ATTRIBUTE_UV_0, values: plain(2) },
            MeshAttribute { id: ATTRIBUTE_COLOR, values: plain(255) },
        ],
        indices,
    }
}

fn lit_registry() -> MeshReg {
    MeshReg { meshes: vec![BlockMesh::Air, BlockMesh::Cube(lit_cube_prototype())] }
}

fn lighting(apply_at_gen: bool) -> SmoothLightingParameters {
    SmoothLightingParameters {
        shades: [100, 90, 80, 70, 60, 50, 40, 30, 20],
        opaque: 255,
        apply_at_gen,
    }
}

fn shade(level: i64) -> VertexValue {
    VertexValue::new(level, level, level, 255)
}

fn untouched() -> VertexValue {
    VertexValue::new(255, 255, 255, 255)
}

#[test]
fn corners_are_darkened_by_the_cubes_that_touch_them() {
    assert_eq!(MAX_OCCLUSION, 8);
    let dims = UVec3::new(3, 2, 3);
    let mut cells = [0u16; 18];
    let voxel = pos_to_index(UVec3::new(1, 0, 1), dims).unwrap();
    let side = pos_to_index(UVec3::new(0, 1, 1), dims).unwrap();
    let corner = pos_to_index(UVec3::new(0, 1, 0), dims).unwrap();
    cells[voxel] = 1;
    cells[side] = 1;
    cells[corner] = 1;
    let grid: Grid<18> = Grid::new(cells, dims);
    let reg = lit_registry();
    let (mesh, md) = meshify_cubic_voxels(
        &faces(),
        &grid,
        &reg,
        MeshingAlgorithm::Culling,
        Some(lighting(true)),
    )
    .unwrap();
    let colors = &mesh.attributes[3].values;
    let top = md.vivi.get_quad_index(Face::Top, voxel).unwrap() as usize;
    // the corner towards both cubes: 3/4 for the one across the corner, 1 for the one beside
    assert_eq!(colors[top], shade(30));
    assert_eq!(colors[top + 1], shade(100));
    assert_eq!(colors[top + 2], shade(100));
    // the corner towards the cube beside alone
    assert_eq!(colors[top + 3], shade(60));
    // quads that look up or down from the border of the chunk are left as they are
    let side_top = md.vivi.get_quad_index(Face::Top, side).unwrap() as usize;
    let bottom = md.vivi.get_quad_index(Face::Bottom, voxel).unwrap() as usize;
    for j in 0..4 {
        assert_eq!(colors[side_top + j], untouched());
        assert_eq!(colors[bottom + j], untouched());
    }
    // nothing but the colors is touched
    let (plain, _) =
        meshify_cubic_voxels(&faces(), &grid, &reg, MeshingAlgorithm::Culling, None).unwrap();
    for a in 0..3 {
        assert_eq!(mesh.attributes[a].values, plain.attributes[a].values);
    }
    assert_eq!(mesh.indices, plain.indices);
    assert_eq!(plain.attributes[3].values[top], untouched());
}

#[test]
fn two_cubes_beside_a_corner_reach_the_greatest_darkness() {
    let dims = UVec3::new(3, 2, 3);
    let mut cells = [0u16; 18];
    let voxel = pos_to_index(UVec3::new(1, 0, 1), dims).unwrap();
    for p in [UVec3::new(0, 1, 1), UVec3::new(1, 1, 0), UVec3::new(0, 1, 0), UVec3::new(2, 1, 1)] {
        cells[pos_to_index(p, dims).unwrap()] = 1;
    }
    cells[voxel] = 1;
    let grid: Grid<18> = Grid::new(cells, dims);
    let reg = lit_registry();
    let (mut mesh, md) = meshify_cubic_voxels(
        &faces(),
        &grid,
        &reg,
        MeshingAlgorithm::Culling,
        Some(lighting(false)),
    )
    .unwrap();
    let top = md.vivi.get_quad_index(Face::Top, voxel).unwrap() as usize;
    assert_eq!(mesh.attributes[3].values[top], untouched());
    // outside the bounds nothing is lit
    apply_smooth_lighting(&reg, &mut mesh, &md, dims, 0, voxel - 1, &grid);
    assert_eq!(mesh.attributes[3].values[top], untouched());
    apply_smooth_lighting(&reg, &mut mesh, &md, dims, voxel, voxel, &grid);
    let colors = &mesh.attributes[3].values;
    // 3/4 + 1 + 1 stops at 2
    assert_eq!(colors[top], shade(20));
    // one cube on either side, none across the corner: 1 + 1
    assert_eq!(colors[top + 1], shade(20));
    // one cube beside: 1
    assert_eq!(colors[top + 2], shade(60));
    assert_eq!(colors[top + 3], shade(60));
    // the quads of the other voxels were out of the bounds
    let other = pos_to_index(UVec3::new(2, 1, 1), dims).unwrap();
    let left = md.vivi.get_quad_index(Face::Left, other).unwrap() as usize;
    assert_eq!(colors[left], untouched());
}

#[test]
fn cells_beyond_the_border_are_looked_up_in_the_chunks_around() {
    let dims = UVec3::new(2, 1, 2);
    let mut cells = [0u16; 4];
    let voxel = pos_to_index(UVec3::new(1, 0, 0), dims).unwrap();
    cells[voxel] = 1;
    let this: Grid<4> = Grid::new(cells, dims);
    let mut far = [0u16; 4];
    far[pos_to_index(UVec3::new(0, 0, 1), dims).unwrap()] = 1;
    let holds_cube: Grid<4> = Grid::new(far, dims);
    let empty: Grid<4> = Grid::new([0; 4], dims);
    let reg = lit_registry();
    let generate = || {
        meshify_cubic_voxels(&faces(), &this, &reg, MeshingAlgorithm::Culling, Some(lighting(false)))
            .unwrap()
    };
    // the right side of the voxel looks into the chunk to the east; the cells before it,
    // towards -z, lie in the chunk to the south east
    let (mut mesh, md) = generate();
    let right = md.vivi.get_quad_index(Face::Right, voxel).unwrap() as usize;
    apply_smooth_lighting_with_connected_chunks(
        &reg, &mut mesh, &md, dims, 0, 3, &this,
        None, None, Some(&empty), None, None, None, Some(&holds_cube), None,
    );
    assert_eq!(mesh.attributes[3].values[right], shade(60));
    assert_eq!(mesh.attributes[3].values[right + 1], shade(60));
    assert_eq!(mesh.attributes[3].values[right + 2], shade(100));
    assert_eq!(mesh.attributes[3].values[right + 3], shade(100));
    // the cells behind it, towards +z, lie in the chunk to the east itself
    let (mut mesh, md) = generate();
    apply_smooth_lighting_with_connected_chunks(
        &reg, &mut mesh, &md, dims, 0, 3, &this,
        None, None, Some(&holds_cube), None, None, None, None, None,
    );
    assert_eq!(mesh.attributes[3].values[right], shade(100));
    assert_eq!(mesh.attributes[3].values[right + 1], shade(100));
    assert_eq!(mesh.attributes[3].values[right + 2], shade(60));
    assert_eq!(mesh.attributes[3].values[right + 3], shade(60));
    // a chunk that is not there has no cubes; the chunk itself is no neighbor of its border
    let (mut mesh, md) = generate();
    apply_smooth_lighting_with_connected_chunks(
        &reg, &mut mesh, &md, dims, 0, 3, &holds_cube,
        Some(&holds_cube), Some(&holds_cube), None, Some(&holds_cube),
        Some(&holds_cube), Some(&holds_cube), None, Some(&holds_cube),
    );
    for j in 0..4 {
        assert_eq!(mesh.attributes[3].values[right + j], shade(100));
    }
    // without parameters nothing is lit at all
    let (mut mesh, md) =
        meshify_cubic_voxels(&faces(), &this, &reg, MeshingAlgorithm::Culling, None).unwrap();
    apply_smooth_lighting(&reg, &mut mesh, &md, dims, 0, 3, &this);
    assert_eq!(mesh.attributes[3].values[right], untouched());
}

#[test]
fn cells_a_few_steps_away_wrap_into_the_next_chunk() {
    let dims = UVec3::new(4, 4, 4);
    let pos = UVec3::new(0, 1, 3);
    assert_eq!(get_block_n_away(dims, pos, 0, 0, 0), Some((None, pos)));
    assert_eq!(get_block_n_away(dims, pos, 1, 1, -1), Some((None, UVec3::new(1, 2, 2))));
    assert_eq!(get_block_n_away(dims, pos, -1, 0, 0), Some((Some(NDir::West), UVec3::new(3, 1, 3))));
    assert_eq!(get_block_n_away(dims, pos, 0, 0, 1), Some((Some(NDir::North), UVec3::new(0, 1, 0))));
    assert_eq!(get_block_n_away(dims, pos, -1, 2, 1), Some((Some(NDir::NoWest), UVec3::new(3, 3, 0))));
    assert_eq!(get_block_n_away(dims, pos, -3, -1, 3), Some((Some(NDir::NoWest), UVec3::new(1, 0, 2))));
    assert_eq!(
        get_block_n_away(dims, UVec3::new(3, 0, 0), 1, 0, -1),
        Some((Some(NDir::SoEast), UVec3::new(0, 0, 3)))
    );
    assert_eq!(get_block_n_away(dims, pos, 0, 3, 0), None);
    assert_eq!(get_block_n_away(dims, pos, 0, -2, 0), None);
    assert_eq!(get_block_n_away(dims, pos, 4, 0, 0), None);
    assert_eq!(get_block_n_away(dims, pos, 0, 0, -4), None);
    assert_eq!(get_block_n_away(UVec3::new(0, 4, 4), pos, 0, 0, 0), None);
}
