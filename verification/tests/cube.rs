use moxi::adj::introduce_adjacent_chunks;
use moxi::block_mesh::BlockMesh;
use moxi::chunk::{index_to_pos, pos_to_index, BlockId, Grid, SurroundingBlocks, UVec3};
use moxi::cube::check::is_cube_consistent;
use moxi::cube::md::{CubeMD, QuadEntry};
use moxi::cube::meshify::{add_vertices_normal_cube, meshify_cubic_voxels, MeshingAlgorithm};
use moxi::cube::update::update_cube_mesh;
use moxi::face::{faces, Face};
use moxi::mesh::{
    block_offset, Mesh, MeshAttribute, VertexValue, ATTRIBUTE_COLOR, ATTRIBUTE_NORMAL, ATTRIBUTE_POSITION,
    ATTRIBUTE_UV_0, UNITS_PER_BLOCK,
};
use moxi::mesh_reg::MeshReg;
use moxi::{BlockMeshChange, MeshError};

const H: i64 = UNITS_PER_BLOCK / 2;

fn cube_corners() -> Vec<VertexValue> {
    let raw: [[i64; 3]; 24] = [
        // top
        [-H, H, -H], [H, H, -H], [H, H, H], [-H, H, H],
        // bottom
        [-H, -H, -H], [H, -H, -H], [H, -H, H], [-H, -H, H],
        // right
        [H, -H, -H], [H, H, -H], [H, H, H], [H, -H, H],
        // left
        [-H, -H, -H], [-H, H, -H], [-H, H, H], [-H, -H, H],
        // back
        [-H, -H, H], [H, -H, H], [H, H, H], [-H, H, H],
        // front
        [-H, -H, -H], [H, -H, -H], [H, H, -H], [-H, H, -H],
    ];
    raw.iter().map(|p| VertexValue::new(p[0], p[1], p[2], 0)).collect()
}

fn cube_prototype(tag: i64) -> Mesh {
    let positions = cube_corners();
    let normals: Vec<VertexValue> = (0..24).map(|i| VertexValue::new(i / 4, 0, 0, 0)).collect();
    let uvs: Vec<VertexValue> = (0..24).map(|i| VertexValue::new(i % 4, tag, 0, 0)).collect();
    let colors: Vec<VertexValue> = (0..24).map(|_| VertexValue::new(255, 255, 255, 255)).collect();
    let mut indices: Vec<u32> = Vec::new();
    for f in 0..6u32 {
        let b = 4 * f;
        indices.extend_from_slice(&[b, b + 1, b + 2, b + 2, b + 3, b]);
    }
    Mesh {
        attributes: vec![
            MeshAttribute { id: ATTRIBUTE_POSITION, values: positions },
            MeshAttribute { id: ATTRIBUTE_NORMAL, values: normals },
            MeshAttribute { id: ATTRIBUTE_UV_0, values: uvs },
            MeshAttribute { id: ATTRIBUTE_COLOR, values: colors },
        ],
        indices,
    }
}

fn cube_registry() -> MeshReg {
    MeshReg { meshes: vec![BlockMesh::Air, BlockMesh::Cube(cube_prototype(7))] }
}

fn quad_count(md: &CubeMD) -> usize {
    md.vivi.map.len()
}

fn assert_in_order(mesh: &Mesh, md: &CubeMD) {
    let quads = quad_count(md);
    for attribute in mesh.attributes.iter() {
        assert_eq!(attribute.values.len(), 4 * quads);
    }
    assert_eq!(mesh.indices.len(), 6 * quads);
    assert_eq!(mesh.indices.len() % 3, 0);
    for (i, index) in mesh.indices.iter().enumerate() {
        let pattern = [0u32, 1, 2, 2, 3, 0];
        assert_eq!(*index, 4 * (i as u32 / 6) + pattern[i % 6]);
    }
    for (voxel, list) in md.vivi.vivi.iter().enumerate() {
        for (i, a) in list.iter().enumerate() {
            for b in list.iter().skip(i + 1) {
                assert_ne!(a.face, b.face);
            }
            let owner = md.vivi.map[a.vertex as usize / 4].unwrap();
            assert_eq!(owner.voxel, voxel);
            assert_eq!(owner.face, a.face);
        }
    }
    let listed: usize = md.vivi.vivi.iter().map(|l| l.len()).sum();
    assert_eq!(listed, quads);
}

fn all_faces() -> [Face; 6] {
    faces()
}

fn no_neighbors() -> SurroundingBlocks<BlockId> {
    [None; 6]
}

#[test]
fn dense_cube_of_eight_exposes_three_faces_each() {
    let grid: Grid<8> = Grid::new([1; 8], UVec3::new(2, 2, 2));
    let reg = cube_registry();
    let (mesh, md) =
        meshify_cubic_voxels(&all_faces(), &grid, &reg, MeshingAlgorithm::Culling, None).unwrap();
    assert_eq!(quad_count(&md), 24);
    assert_eq!(mesh.count_vertices(), 96);
    assert_eq!(mesh.indices.len(), 144);
    assert_in_order(&mesh, &md);
    for voxel in 0..8 {
        assert_eq!(md.vivi.vivi[voxel].len(), 3);
    }
    // the voxel in the least corner looks down, left and to the front
    let origin = UVec3::new(0, 0, 0);
    assert!(md.quad_exists(origin, Face::Bottom));
    assert!(md.quad_exists(origin, Face::Left));
    assert!(md.quad_exists(origin, Face::Front));
    assert!(!md.quad_exists(origin, Face::Top));
    assert!(!md.quad_exists(origin, Face::Right));
    assert!(!md.quad_exists(origin, Face::Back));
    let far = UVec3::new(1, 1, 1);
    assert!(md.quad_exists(far, Face::Top));
    assert!(md.quad_exists(far, Face::Right));
    assert!(md.quad_exists(far, Face::Back));
    assert!(!md.quad_exists(UVec3::new(2, 0, 0), Face::Top));
}

#[test]
fn closed_borders_are_culled() {
    let grid: Grid<8> = Grid::new([1; 8], UVec3::new(2, 2, 2));
    let reg = cube_registry();
    let (mesh, md) =
        meshify_cubic_voxels(&[Face::Top], &grid, &reg, MeshingAlgorithm::Culling, None).unwrap();
    assert_eq!(quad_count(&md), 4);
    assert_eq!(mesh.count_vertices(), 16);
    assert!(md.quad_exists(UVec3::new(0, 1, 0), Face::Top));
    assert!(!md.quad_exists(UVec3::new(0, 0, 0), Face::Bottom));
}

#[test]
fn naive_meshing_emits_all_faces() {
    let grid: Grid<8> = Grid::new([1; 8], UVec3::new(2, 2, 2));
    let reg = cube_registry();
    let (mesh, md) = meshify_cubic_voxels(&[], &grid, &reg, MeshingAlgorithm::Naive, None).unwrap();
    assert_eq!(quad_count(&md), 48);
    assert_eq!(mesh.count_vertices(), 192);
    assert_eq!(mesh.indices.len(), 288);
    assert_in_order(&mesh, &md);
}

#[test]
fn generated_quads_are_prototype_quads_moved_to_the_cell() {
    let mut cells = [0; 8];
    cells[7] = 1;
    let grid: Grid<8> = Grid::new(cells, UVec3::new(2, 2, 2));
    let reg = cube_registry();
    let (mesh, md) =
        meshify_cubic_voxels(&all_faces(), &grid, &reg, MeshingAlgorithm::Culling, None).unwrap();
    assert_eq!(quad_count(&md), 6);
    let proto = cube_prototype(7);
    let quad = md.vivi.get_quad_index(Face::Right, 7).unwrap() as usize;
    assert_eq!(quad, 8);
    for j in 0..4 {
        let p = proto.attributes[0].values[8 + j];
        assert_eq!(
            mesh.attributes[0].values[quad + j],
            VertexValue::new(
                p.x + UNITS_PER_BLOCK,
                p.y + UNITS_PER_BLOCK,
                p.z + UNITS_PER_BLOCK,
                0
            )
        );
        assert_eq!(mesh.attributes[1].values[quad + j], proto.attributes[1].values[8 + j]);
        assert_eq!(mesh.attributes[2].values[quad + j], proto.attributes[2].values[8 + j]);
        assert_eq!(mesh.attributes[3].values[quad + j], proto.attributes[3].values[8 + j]);
    }
    assert_eq!(&mesh.indices[12..18], &[8, 9, 10, 10, 11, 8]);
}

#[test]
fn add_then_break_single_voxel() {
    let grid: Grid<64> = Grid::new([0; 64], UVec3::new(4, 4, 4));
    let reg = cube_registry();
    let (mut mesh, mut md) =
        meshify_cubic_voxels(&all_faces(), &grid, &reg, MeshingAlgorithm::Culling, None).unwrap();
    assert_eq!(mesh.count_vertices(), 0);
    let pos = UVec3::new(1, 2, 3);
    md.log(BlockMeshChange::Added, pos, 1, no_neighbors());
    assert_eq!(update_cube_mesh(&mut mesh, &mut md, &reg), Ok(()));
    assert_eq!(quad_count(&md), 6);
    assert_eq!(mesh.count_vertices(), 24);
    assert_eq!(mesh.indices.len(), 36);
    assert_eq!(md.changed_voxels.len(), 0);
    assert_in_order(&mesh, &md);
    md.log(BlockMeshChange::Broken, pos, 1, no_neighbors());
    assert_eq!(update_cube_mesh(&mut mesh, &mut md, &reg), Ok(()));
    assert_eq!(quad_count(&md), 0);
    assert_eq!(mesh.count_vertices(), 0);
    assert_eq!(mesh.indices.len(), 0);
    assert_in_order(&mesh, &md);
}

fn stitch_pair_layer() -> (Grid<16>, MeshReg) {
    (Grid::new([1; 16], UVec3::new(4, 1, 4)), cube_registry())
}

#[test]
fn stitching_removes_the_shared_border() {
    let (grid, reg) = stitch_pair_layer();
    // the west chunk looks at the east chunk through its right side
    let (mut west_mesh, mut west_md) =
        meshify_cubic_voxels(&[Face::Right], &grid, &reg, MeshingAlgorithm::Culling, None).unwrap();
    let (mut east_mesh, mut east_md) =
        meshify_cubic_voxels(&[Face::Left], &grid, &reg, MeshingAlgorithm::Culling, None).unwrap();
    assert_eq!(quad_count(&west_md), 4);
    assert_eq!(quad_count(&east_md), 4);
    for z in 0..4 {
        assert!(west_md.quad_exists(UVec3::new(3, 0, z), Face::Right));
        assert!(east_md.quad_exists(UVec3::new(0, 0, z), Face::Left));
    }
    introduce_adjacent_chunks(&reg, &mut west_md, Face::Right, &grid);
    introduce_adjacent_chunks(&reg, &mut east_md, Face::Left, &grid);
    assert_eq!(west_md.changed_voxels.len(), 4);
    assert_eq!(east_md.changed_voxels.len(), 4);
    let first = west_md.changed_voxels[0];
    assert_eq!(first.0, 1);
    assert_eq!(first.1, UVec3::new(3, 0, 0));
    assert_eq!(first.2, BlockMeshChange::CullFaces);
    assert_eq!(first.3, [None, None, Some(1), None, None, None]);
    assert_eq!(update_cube_mesh(&mut west_mesh, &mut west_md, &reg), Ok(()));
    assert_eq!(update_cube_mesh(&mut east_mesh, &mut east_md, &reg), Ok(()));
    for z in 0..4 {
        assert!(!west_md.quad_exists(UVec3::new(3, 0, z), Face::Right));
        assert!(!east_md.quad_exists(UVec3::new(0, 0, z), Face::Left));
    }
    assert_eq!(quad_count(&west_md), 0);
    assert_eq!(west_mesh.count_vertices(), 0);
    assert_eq!(east_mesh.indices.len(), 0);
    assert_in_order(&west_mesh, &west_md);
}

#[test]
fn stitching_twice_is_stitching_once() {
    let (grid, reg) = stitch_pair_layer();
    let open = [Face::Right, Face::Top];
    let (mut mesh, mut md) =
        meshify_cubic_voxels(&open, &grid, &reg, MeshingAlgorithm::Culling, None).unwrap();
    assert_eq!(quad_count(&md), 20);
    introduce_adjacent_chunks(&reg, &mut md, Face::Right, &grid);
    assert_eq!(update_cube_mesh(&mut mesh, &mut md, &reg), Ok(()));
    assert_eq!(quad_count(&md), 16);
    let vertices_once: Vec<Vec<VertexValue>> =
        mesh.attributes.iter().map(|a| a.values.clone()).collect();
    let indices_once = mesh.indices.clone();
    introduce_adjacent_chunks(&reg, &mut md, Face::Right, &grid);
    assert_eq!(md.changed_voxels.len(), 0);
    assert_eq!(update_cube_mesh(&mut mesh, &mut md, &reg), Ok(()));
    let vertices_twice: Vec<Vec<VertexValue>> =
        mesh.attributes.iter().map(|a| a.values.clone()).collect();
    assert_eq!(vertices_once, vertices_twice);
    assert_eq!(indices_once, mesh.indices);
    assert_in_order(&mesh, &md);
}

#[test]
fn stitching_along_a_vertical_side_logs_nothing() {
    let (grid, reg) = stitch_pair_layer();
    let (_, mut md) =
        meshify_cubic_voxels(&[Face::Top], &grid, &reg, MeshingAlgorithm::Culling, None).unwrap();
    assert_eq!(quad_count(&md), 16);
    introduce_adjacent_chunks(&reg, &mut md, Face::Top, &grid);
    assert_eq!(md.changed_voxels.len(), 0);
}

fn standing_neighbors(grid: &Grid<27>, pos: UVec3) -> SurroundingBlocks<BlockId> {
    let mut around = grid.get_neighbors(pos);
    for slot in around.iter_mut() {
        if *slot == Some(0) {
            *slot = None;
        }
    }
    around
}

#[test]
fn breaking_every_cube_leaves_nothing() {
    let mut cells = [1u16; 27];
    cells[4] = 0;
    cells[13] = 0;
    let mut grid: Grid<27> = Grid::new(cells, UVec3::new(3, 3, 3));
    let reg = cube_registry();
    let (mut mesh, mut md) =
        meshify_cubic_voxels(&all_faces(), &grid, &reg, MeshingAlgorithm::Culling, None).unwrap();
    assert!(quad_count(&md) > 0);
    // an order that is neither ascending nor descending
    let order: Vec<usize> = (0..27).map(|i| (i * 5 + 3) % 27).collect();
    for (step, voxel) in order.iter().enumerate() {
        let pos = index_to_pos(*voxel, grid.dims).unwrap();
        if grid.get_block(pos) != Some(1) {
            continue;
        }
        grid.set_block(0, pos).unwrap();
        md.log(BlockMeshChange::Broken, pos, 1, standing_neighbors(&grid, pos));
        // apply some of the changes one by one and some in batches
        if step % 3 == 0 {
            assert_eq!(update_cube_mesh(&mut mesh, &mut md, &reg), Ok(()));
            assert_in_order(&mesh, &md);
        }
    }
    assert_eq!(update_cube_mesh(&mut mesh, &mut md, &reg), Ok(()));
    assert_eq!(quad_count(&md), 0);
    assert_eq!(mesh.count_vertices(), 0);
    assert_eq!(mesh.indices.len(), 0);
    for list in md.vivi.vivi.iter() {
        assert!(list.is_empty());
    }
    for attribute in mesh.attributes.iter() {
        assert!(attribute.values.is_empty());
    }
}

#[test]
fn breaking_a_cube_exposes_its_neighbors() {
    let grid: Grid<27> = Grid::new([1; 27], UVec3::new(3, 3, 3));
    let reg = cube_registry();
    let (mut mesh, mut md) =
        meshify_cubic_voxels(&[], &grid, &reg, MeshingAlgorithm::Culling, None).unwrap();
    assert_eq!(quad_count(&md), 0);
    let center = UVec3::new(1, 1, 1);
    md.log(BlockMeshChange::Broken, center, 1, grid.get_neighbors(center));
    assert_eq!(update_cube_mesh(&mut mesh, &mut md, &reg), Ok(()));
    assert_eq!(quad_count(&md), 6);
    assert!(md.quad_exists(UVec3::new(1, 2, 1), Face::Bottom));
    assert!(md.quad_exists(UVec3::new(1, 0, 1), Face::Top));
    assert!(md.quad_exists(UVec3::new(2, 1, 1), Face::Left));
    assert!(md.quad_exists(UVec3::new(0, 1, 1), Face::Right));
    assert!(md.quad_exists(UVec3::new(1, 1, 2), Face::Front));
    assert!(md.quad_exists(UVec3::new(1, 1, 0), Face::Back));
    assert_in_order(&mesh, &md);
    // the quad of the cell above is the prototype quad of the bottom side, moved there
    let above = pos_to_index(UVec3::new(1, 2, 1), grid.dims).unwrap();
    let quad = md.vivi.get_quad_index(Face::Bottom, above).unwrap() as usize;
    let proto = cube_prototype(7);
    for j in 0..4 {
        let p = proto.attributes[0].values[4 + j];
        assert_eq!(
            mesh.attributes[0].values[quad + j],
            VertexValue::new(p.x + UNITS_PER_BLOCK, p.y + 2 * UNITS_PER_BLOCK, p.z + UNITS_PER_BLOCK, 0)
        );
    }
    // putting the cube back hides them again
    md.log(BlockMeshChange::Added, center, 1, grid.get_neighbors(center));
    assert_eq!(update_cube_mesh(&mut mesh, &mut md, &reg), Ok(()));
    assert_eq!(quad_count(&md), 0);
    assert_eq!(mesh.count_vertices(), 0);
}

#[test]
fn removing_a_quad_moves_the_last_quad_into_its_place() {
    let mut cells = [0; 8];
    cells[0] = 1;
    cells[7] = 1;
    let grid: Grid<8> = Grid::new(cells, UVec3::new(2, 2, 2));
    let reg = cube_registry();
    let (mut mesh, mut md) =
        meshify_cubic_voxels(&all_faces(), &grid, &reg, MeshingAlgorithm::Culling, None).unwrap();
    assert_eq!(quad_count(&md), 12);
    let last_quad: Vec<VertexValue> = mesh.attributes[0].values[44..48].to_vec();
    let mut cull: SurroundingBlocks<BlockId> = [None; 6];
    cull[Face::Bottom.to_index()] = Some(1);
    md.log(BlockMeshChange::CullFaces, UVec3::new(0, 0, 0), 1, cull);
    assert_eq!(update_cube_mesh(&mut mesh, &mut md, &reg), Ok(()));
    assert_eq!(quad_count(&md), 11);
    assert!(!md.quad_exists(UVec3::new(0, 0, 0), Face::Bottom));
    // the bottom quad of voxel 0 stood at vertex 4; the front quad of voxel 7 took over
    assert_eq!(&mesh.attributes[0].values[4..8], &last_quad[..]);
    assert_eq!(md.vivi.get_quad_index(Face::Front, 7), Some(4));
    assert_eq!(md.vivi.get_quad_index(Face::Top, 0), Some(0));
    assert_in_order(&mesh, &md);
    // show the face again
    let mut show: SurroundingBlocks<BlockId> = [Some(1); 6];
    show[Face::Bottom.to_index()] = None;
    md.log(BlockMeshChange::AddFaces, UVec3::new(0, 0, 0), 1, show);
    assert_eq!(update_cube_mesh(&mut mesh, &mut md, &reg), Ok(()));
    assert_eq!(quad_count(&md), 12);
    assert_eq!(md.vivi.get_quad_index(Face::Bottom, 0), Some(44));
    assert_in_order(&mesh, &md);
}

#[test]
fn a_change_outside_the_chunk_is_refused() {
    let grid: Grid<8> = Grid::new([1; 8], UVec3::new(2, 2, 2));
    let reg = cube_registry();
    let (mut mesh, mut md) =
        meshify_cubic_voxels(&all_faces(), &grid, &reg, MeshingAlgorithm::Culling, None).unwrap();
    md.log(BlockMeshChange::Broken, UVec3::new(0, 0, 0), 1, no_neighbors());
    md.log(BlockMeshChange::Broken, UVec3::new(2, 0, 0), 1, no_neighbors());
    assert_eq!(update_cube_mesh(&mut mesh, &mut md, &reg), Err(MeshError::OutOfBounds));
    // nothing was applied
    assert_eq!(quad_count(&md), 24);
    assert_eq!(md.changed_voxels.len(), 2);
    // a change of a block that is no cube is passed over, wherever it is
    md.changed_voxels.clear();
    md.log(BlockMeshChange::Broken, UVec3::new(9, 9, 9), 0, no_neighbors());
    assert_eq!(update_cube_mesh(&mut mesh, &mut md, &reg), Ok(()));
    assert_eq!(quad_count(&md), 24);
}

#[test]
fn an_unfit_cube_prototype_is_refused() {
    let mut twisted = cube_prototype(1);
    // the second triangle of the top side no longer closes the quad
    twisted.indices[5] = 1;
    let mut short = cube_prototype(2);
    short.attributes.pop();
    let reg = MeshReg {
        meshes: vec![
            BlockMesh::Air,
            BlockMesh::Cube(cube_prototype(7)),
            BlockMesh::Cube(twisted),
            BlockMesh::Cube(short),
        ],
    };
    let good: Grid<1> = Grid::new([1], UVec3::new(1, 1, 1));
    let bad: Grid<1> = Grid::new([2], UVec3::new(1, 1, 1));
    let worse: Grid<1> = Grid::new([3], UVec3::new(1, 1, 1));
    assert!(meshify_cubic_voxels(&[], &good, &reg, MeshingAlgorithm::Naive, None).is_some());
    assert!(meshify_cubic_voxels(&[], &bad, &reg, MeshingAlgorithm::Naive, None).is_none());
    assert!(meshify_cubic_voxels(&[], &worse, &reg, MeshingAlgorithm::Naive, None).is_none());
    let (mut mesh, mut md) =
        meshify_cubic_voxels(&[], &good, &reg, MeshingAlgorithm::Naive, None).unwrap();
    md.log(BlockMeshChange::Added, UVec3::new(0, 0, 0), 2, no_neighbors());
    assert_eq!(update_cube_mesh(&mut mesh, &mut md, &reg), Err(MeshError::RegistryMismatch));
    assert_eq!(quad_count(&md), 6);
    md.changed_voxels.clear();
    let mut around = no_neighbors();
    around[0] = Some(3);
    md.log(BlockMeshChange::Broken, UVec3::new(0, 0, 0), 1, around);
    assert_eq!(update_cube_mesh(&mut mesh, &mut md, &reg), Err(MeshError::RegistryMismatch));
}

#[test]
fn a_mesh_is_told_from_one_that_does_not_belong_to_the_metadata() {
    let grid: Grid<8> = Grid::new([1; 8], UVec3::new(2, 2, 2));
    let reg = cube_registry();
    let (mesh, md) =
        meshify_cubic_voxels(&all_faces(), &grid, &reg, MeshingAlgorithm::Culling, None).unwrap();
    assert!(is_cube_consistent(&mesh, &md));
    assert!(md.vivi.is_wf());
    assert!(mesh.is_wf());
    let (other, other_md) =
        meshify_cubic_voxels(&[Face::Top], &grid, &reg, MeshingAlgorithm::Culling, None).unwrap();
    assert!(is_cube_consistent(&other, &other_md));
    assert!(!is_cube_consistent(&other, &md));
    assert!(!is_cube_consistent(&mesh, &other_md));
    let mut short = mesh.clone();
    short.attributes[2].values.pop();
    assert!(!is_cube_consistent(&short, &md));
    let mut twisted = mesh.clone();
    twisted.indices.swap(0, 1);
    assert!(!is_cube_consistent(&twisted, &md));
    let (_, mut doubled) =
        meshify_cubic_voxels(&all_faces(), &grid, &reg, MeshingAlgorithm::Culling, None).unwrap();
    let first = doubled.vivi.vivi[0][0];
    doubled.vivi.vivi[0].push(QuadEntry { face: first.face, vertex: first.vertex });
    assert!(!doubled.vivi.is_wf());
    assert!(!is_cube_consistent(&mesh, &doubled));
    let (_, mut stale) =
        meshify_cubic_voxels(&all_faces(), &grid, &reg, MeshingAlgorithm::Culling, None).unwrap();
    stale.vivi.vivi[3][1].vertex = 0;
    assert!(!stale.vivi.is_wf());
    let (_, mut resized) =
        meshify_cubic_voxels(&all_faces(), &grid, &reg, MeshingAlgorithm::Culling, None).unwrap();
    resized.dims = UVec3::new(2, 2, 3);
    assert!(!is_cube_consistent(&mesh, &resized));
}

#[test]
fn showing_a_face_that_is_shown_is_refused() {
    let grid: Grid<1> = Grid::new([1], UVec3::new(1, 1, 1));
    let reg = cube_registry();
    let (mut mesh, mut md) =
        meshify_cubic_voxels(&[], &grid, &reg, MeshingAlgorithm::Naive, None).unwrap();
    assert_eq!(quad_count(&md), 6);
    let before = mesh.clone();
    let origin = UVec3::new(0, 0, 0);
    md.log(BlockMeshChange::AddFaces, origin, 1, [None, Some(1), Some(1), Some(1), Some(1), Some(1)]);
    assert_eq!(update_cube_mesh(&mut mesh, &mut md, &reg), Err(MeshError::InvariantViolation));
    assert_eq!(quad_count(&md), 6);
    assert_eq!(md.vivi.vivi[0].len(), 6);
    assert_eq!(mesh.indices, before.indices);
    assert_eq!(mesh.attributes[0].values, before.attributes[0].values);
    assert_eq!(md.changed_voxels.len(), 1);
    assert_in_order(&mesh, &md);
    md.changed_voxels.clear();
    // a face that was culled earlier in the log may be shown later in it, but not twice
    let mut top: SurroundingBlocks<BlockId> = [None; 6];
    top[0] = Some(1);
    let mut all_but_top: SurroundingBlocks<BlockId> = [Some(1); 6];
    all_but_top[0] = None;
    md.log(BlockMeshChange::CullFaces, origin, 1, top);
    md.log(BlockMeshChange::AddFaces, origin, 1, all_but_top);
    md.log(BlockMeshChange::AddFaces, origin, 1, all_but_top);
    assert_eq!(update_cube_mesh(&mut mesh, &mut md, &reg), Err(MeshError::InvariantViolation));
    assert_eq!(quad_count(&md), 6);
    assert!(md.quad_exists(origin, Face::Top));
    md.changed_voxels.pop();
    assert_eq!(update_cube_mesh(&mut mesh, &mut md, &reg), Ok(()));
    assert_eq!(quad_count(&md), 6);
    assert!(md.quad_exists(origin, Face::Top));
    assert_in_order(&mesh, &md);
    // culling a face that is gone changes nothing, and so does showing no face at all
    md.log(BlockMeshChange::CullFaces, origin, 1, top);
    md.log(BlockMeshChange::CullFaces, origin, 1, top);
    md.log(BlockMeshChange::AddFaces, origin, 1, [Some(1); 6]);
    assert_eq!(update_cube_mesh(&mut mesh, &mut md, &reg), Ok(()));
    assert_eq!(quad_count(&md), 5);
    assert!(!md.quad_exists(origin, Face::Top));
    // a block that is added anew has its old quads cleared first
    md.log(BlockMeshChange::Added, origin, 1, [None; 6]);
    assert_eq!(update_cube_mesh(&mut mesh, &mut md, &reg), Ok(()));
    assert_eq!(quad_count(&md), 6);
    assert_in_order(&mesh, &md);
}

/// A cube whose sides stand in another order in the index list, with their two
/// triangles apart from each other and wound from other corners, and with a
/// triangle that lies in no side.
fn shuffled_prototype() -> Mesh {
    let mut proto = cube_prototype(7);
    let mut first: Vec<u32> = Vec::new();
    let mut second: Vec<u32> = Vec::new();
    for f in [5u32, 2, 0, 4, 1, 3] {
        let (a, b, c, d) = (4 * f, 4 * f + 1, 4 * f + 2, 4 * f + 3);
        match f % 3 {
            0 => {
                first.extend_from_slice(&[a, b, c]);
                second.extend_from_slice(&[a, c, d]);
            }
            1 => {
                first.extend_from_slice(&[b, c, a]);
                second.extend_from_slice(&[d, a, c]);
            }
            _ => {
                first.extend_from_slice(&[b, c, d]);
                second.extend_from_slice(&[d, a, b]);
            }
        }
    }
    let mut indices = first;
    indices.extend_from_slice(&[0, 6, 10]);
    indices.extend(second.iter().rev().collect::<Vec<_>>().chunks(3).flat_map(|t| [*t[2], *t[1], *t[0]]));
    proto.indices = indices;
    proto
}

#[test]
fn the_triangles_of_a_prototype_are_sorted_by_side() {
    let proto = shuffled_prototype();
    assert_eq!(proto.indices.len(), 39);
    let reg = MeshReg { meshes: vec![BlockMesh::Air, BlockMesh::Cube(proto)] };
    let plain = cube_registry();
    let mut cells = [0; 8];
    cells[7] = 1;
    cells[2] = 1;
    let grid: Grid<8> = Grid::new(cells, UVec3::new(2, 2, 2));
    let (mesh, md) =
        meshify_cubic_voxels(&all_faces(), &grid, &reg, MeshingAlgorithm::Culling, None).unwrap();
    let (same, same_md) =
        meshify_cubic_voxels(&all_faces(), &grid, &plain, MeshingAlgorithm::Culling, None).unwrap();
    assert_eq!(quad_count(&md), 12);
    assert_in_order(&mesh, &md);
    // each quad holds the four vertices of its side; where the first triangle starts
    // from another corner, the quad starts from that corner
    for voxel in [2usize, 7] {
        for face in all_faces() {
            let quad = md.vivi.get_quad_index(face, voxel).unwrap() as usize;
            let other = same_md.vivi.get_quad_index(face, voxel).unwrap() as usize;
            assert_eq!(quad, other);
            let turn = match face.to_index() % 3 {
                0 => [0, 1, 2, 3],
                1 => [0, 1, 2, 3],
                _ => [1, 2, 3, 0],
            };
            for j in 0..4 {
                for a in 0..4 {
                    assert_eq!(mesh.attributes[a].values[quad + j], same.attributes[a].values[other + turn[j]]);
                }
            }
        }
    }
    assert_eq!(mesh.indices, same.indices);
    // updates sort the triangles in the same way
    let (mut mesh, mut md) =
        meshify_cubic_voxels(&[], &grid, &reg, MeshingAlgorithm::Culling, None).unwrap();
    md.log(BlockMeshChange::Added, UVec3::new(0, 0, 0), 1, no_neighbors());
    assert_eq!(update_cube_mesh(&mut mesh, &mut md, &reg), Ok(()));
    assert!(md.quad_exists(UVec3::new(0, 0, 0), Face::Front));
    assert_in_order(&mesh, &md);
}

#[test]
fn a_side_without_its_quad_is_refused() {
    let good: Grid<1> = Grid::new([1], UVec3::new(1, 1, 1));
    let generates = |proto: Mesh| {
        let reg = MeshReg { meshes: vec![BlockMesh::Air, BlockMesh::Cube(proto)] };
        meshify_cubic_voxels(&[], &good, &reg, MeshingAlgorithm::Naive, None).is_some()
    };
    assert!(generates(cube_prototype(7)));
    assert!(generates(shuffled_prototype()));
    // a side with one triangle only
    let mut one = cube_prototype(7);
    one.indices.truncate(33);
    assert!(!generates(one));
    // a side with three triangles
    let mut three = cube_prototype(7);
    three.indices.extend_from_slice(&[0, 1, 3]);
    assert!(!generates(three));
    // two triangles that run along their common edge in the same direction
    let mut folded = cube_prototype(7);
    folded.indices[3] = 0;
    folded.indices[4] = 1;
    folded.indices[5] = 3;
    assert!(!generates(folded));
    // two triangles over three vertices
    let mut flat = cube_prototype(7);
    flat.indices[3] = 2;
    flat.indices[4] = 1;
    flat.indices[5] = 0;
    assert!(!generates(flat));
    // a triangle that lies in no side does not count
    let mut more = cube_prototype(7);
    more.indices.extend_from_slice(&[0, 6, 10]);
    assert!(generates(more));
}

#[test]
fn the_flags_mark_the_sides_that_get_a_quad() {
    let grid: Grid<8> = Grid::new([0; 8], UVec3::new(2, 2, 2));
    let reg = cube_registry();
    let (mut mesh, mut md) =
        meshify_cubic_voxels(&all_faces(), &grid, &reg, MeshingAlgorithm::Culling, None).unwrap();
    let proto = cube_prototype(7);
    let center = VertexValue::new(0, 0, 0, 0);
    let dims = md.dims;
    // top, right and front
    let pos = UVec3::new(1, 0, 1);
    let some = [true, false, true, false, false, true];
    assert!(add_vertices_normal_cube(
        some, &mut mesh, &proto, &mut md.vivi, pos, center, block_offset(1, 0, 1), dims
    ));
    assert_eq!(quad_count(&md), 3);
    assert_eq!(mesh.count_vertices(), 12);
    assert_eq!(mesh.indices.len(), 18);
    assert_eq!(md.vivi.get_quad_index(Face::Top, 3), Some(0));
    assert_eq!(md.vivi.get_quad_index(Face::Right, 3), Some(4));
    assert_eq!(md.vivi.get_quad_index(Face::Front, 3), Some(8));
    assert_eq!(md.vivi.get_quad_index(Face::Bottom, 3), None);
    assert_eq!(md.vivi.get_quad_index(Face::Left, 3), None);
    assert_eq!(md.vivi.get_quad_index(Face::Back, 3), None);
    for (slot, face) in [(0usize, 0usize), (1, 2), (2, 5)] {
        for j in 0..4 {
            let p = proto.attributes[0].values[4 * face + j];
            assert_eq!(
                mesh.attributes[0].values[4 * slot + j],
                VertexValue::new(p.x + UNITS_PER_BLOCK, p.y, p.z + UNITS_PER_BLOCK, 0)
            );
            for a in 1..4 {
                assert_eq!(mesh.attributes[a].values[4 * slot + j], proto.attributes[a].values[4 * face + j]);
            }
        }
    }
    // all six flags set: six quads behind what was there
    let before = mesh.clone();
    assert!(add_vertices_normal_cube(
        [true; 6], &mut mesh, &proto, &mut md.vivi, UVec3::new(0, 1, 0), center, block_offset(0, 1, 0), dims
    ));
    assert_eq!(quad_count(&md), 9);
    for a in 0..4 {
        assert_eq!(mesh.attributes[a].values.len(), 12 + 24);
        assert_eq!(&mesh.attributes[a].values[0..12], &before.attributes[a].values[..]);
    }
    assert_eq!(mesh.indices.len(), 18 + 36);
    assert_eq!(&mesh.indices[0..18], &before.indices[..]);
    for index in mesh.indices[18..].iter() {
        assert!(12 <= *index && *index < 36);
    }
    for (j, face) in all_faces().iter().enumerate() {
        assert_eq!(md.vivi.get_quad_index(*face, 4), Some(12 + 4 * j as u32));
    }
    // no flag set: nothing
    let before = mesh.clone();
    assert!(add_vertices_normal_cube(
        [false; 6], &mut mesh, &proto, &mut md.vivi, UVec3::new(0, 0, 0), center, block_offset(0, 0, 0), dims
    ));
    assert_eq!(quad_count(&md), 9);
    assert_eq!(mesh.indices, before.indices);
    assert_eq!(md.vivi.vivi[0].len(), 0);
    // an unfit prototype: nothing, and the answer is no
    let mut unfit = cube_prototype(7);
    unfit.indices.truncate(30);
    assert!(!add_vertices_normal_cube(
        [true; 6], &mut mesh, &unfit, &mut md.vivi, UVec3::new(0, 0, 0), center, block_offset(0, 0, 0), dims
    ));
    assert_eq!(quad_count(&md), 9);
    assert_in_order(&mesh, &md);
}
