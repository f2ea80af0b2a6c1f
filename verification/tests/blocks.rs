use moxi::block_mesh::BlockMesh;
use moxi::chunk::{Grid, UVec3};
use moxi::custom::meshify::meshify_custom_voxels;
use moxi::custom::update::update_custom_mesh;
use moxi::mesh::{
    Mesh, MeshAttribute, VertexValue, ATTRIBUTE_COLOR, ATTRIBUTE_NORMAL, ATTRIBUTE_POSITION,
    ATTRIBUTE_UV_0, UNITS_PER_BLOCK,
};
use moxi::mesh_reg::MeshReg;
use moxi::xsprite::meshify::meshify_xsprite_voxels;
use moxi::xsprite::update::update_xsprite_mesh;
use moxi::MeshError;

fn free_form(vertices: usize, tag: i64, indices: Vec<u32>) -> Mesh {
    let column = |k: i64| -> Vec<VertexValue> {
        (0..vertices as i64).map(|i| VertexValue::new(10 * tag + i, k, -i, tag)).collect()
    };
    Mesh {
        attributes: vec![
            MeshAttribute { id: ATTRIBUTE_POSITION, values: column(0) },
            MeshAttribute { id: ATTRIBUTE_NORMAL, values: column(1) },
            MeshAttribute { id: ATTRIBUTE_COLOR, values: column(2) },
            MeshAttribute { id: ATTRIBUTE_UV_0, values: column(3) },
        ],
        indices,
    }
}

fn block_registry() -> MeshReg {
    let mut no_normals = free_form(3, 4, vec![0, 1, 2]);
    no_normals.attributes.remove(1);
    MeshReg {
        meshes: vec![
            BlockMesh::Air,
            BlockMesh::Cube(free_form(3, 1, vec![0, 1, 2])),
            BlockMesh::Custom(free_form(3, 2, vec![0, 1, 2])),
            BlockMesh::Custom(free_form(4, 3, vec![0, 1, 2, 2, 3, 0])),
            BlockMesh::Custom(no_normals),
            BlockMesh::XSprite(free_form(8, 5, vec![0, 1, 2, 2, 3, 0, 4, 5, 6, 6, 7, 4])),
            BlockMesh::XSprite(free_form(8, 6, vec![0, 1, 2, 2, 3, 0, 4, 5, 6, 6, 7, 4])),
            BlockMesh::XSprite(free_form(4, 7, vec![0, 1, 2, 2, 3, 0])),
            BlockMesh::XSprite(free_form(8, 8, vec![0, 1, 2, 0, 2, 3, 4, 5, 6, 4, 6, 7])),
        ],
    }
}

fn moved(v: VertexValue, x: i64, y: i64, z: i64) -> VertexValue {
    VertexValue::new(
        v.x + x * UNITS_PER_BLOCK,
        v.y + y * UNITS_PER_BLOCK,
        v.z + z * UNITS_PER_BLOCK,
        v.w,
    )
}

#[test]
fn custom_blocks_are_appended_cell_by_cell() {
    let reg = block_registry();
    let grid: Grid<4> = Grid::new([2, 1, 0, 3], UVec3::new(2, 1, 2));
    let (mesh, md) = meshify_custom_voxels(&reg, &grid).unwrap();
    assert_eq!(mesh.attributes.len(), 3);
    assert_eq!(mesh.attributes[0].id, ATTRIBUTE_POSITION);
    assert_eq!(mesh.attributes[1].id, ATTRIBUTE_NORMAL);
    assert_eq!(mesh.attributes[2].id, ATTRIBUTE_COLOR);
    assert_eq!(mesh.count_vertices(), 7);
    assert_eq!(mesh.indices, vec![0, 1, 2, 3, 4, 5, 5, 6, 3]);
    assert_eq!(md.record_of(UVec3::new(0, 0, 0)), Some((0, 3, 0, 3)));
    assert_eq!(md.record_of(UVec3::new(1, 0, 1)), Some((3, 7, 3, 9)));
    assert_eq!(md.record_of(UVec3::new(1, 0, 0)), None);
    let first = free_form(3, 2, vec![]);
    let second = free_form(4, 3, vec![]);
    for i in 0..3 {
        assert_eq!(mesh.attributes[0].values[i], first.attributes[0].values[i]);
        assert_eq!(mesh.attributes[1].values[i], first.attributes[1].values[i]);
        assert_eq!(mesh.attributes[2].values[i], first.attributes[2].values[i]);
    }
    for i in 0..4 {
        assert_eq!(mesh.attributes[0].values[3 + i], moved(second.attributes[0].values[i], 1, 0, 1));
        assert_eq!(mesh.attributes[1].values[3 + i], second.attributes[1].values[i]);
        assert_eq!(mesh.attributes[2].values[3 + i], second.attributes[2].values[i]);
    }
}

#[test]
fn removing_a_custom_block_moves_up_what_stands_behind() {
    let reg = block_registry();
    let grid: Grid<4> = Grid::new([2, 3, 0, 2], UVec3::new(2, 1, 2));
    let (mut mesh, mut md) = meshify_custom_voxels(&reg, &grid).unwrap();
    assert_eq!(mesh.count_vertices(), 10);
    assert_eq!(mesh.indices, vec![0, 1, 2, 3, 4, 5, 5, 6, 3, 7, 8, 9]);
    let last: Vec<VertexValue> = mesh.attributes[0].values[7..10].to_vec();
    md.log_break(3, UVec3::new(1, 0, 0));
    assert_eq!(update_custom_mesh(&reg, &mut mesh, &mut md), Ok(()));
    assert_eq!(md.log.len(), 0);
    assert_eq!(mesh.count_vertices(), 6);
    for attribute in mesh.attributes.iter() {
        assert_eq!(attribute.values.len(), 6);
    }
    assert_eq!(mesh.indices, vec![0, 1, 2, 3, 4, 5]);
    assert_eq!(&mesh.attributes[0].values[3..6], &last[..]);
    assert_eq!(md.record_of(UVec3::new(0, 0, 0)), Some((0, 3, 0, 3)));
    assert_eq!(md.record_of(UVec3::new(1, 0, 0)), None);
    assert_eq!(md.record_of(UVec3::new(1, 0, 1)), Some((3, 6, 3, 6)));
    // add one, break the first, then break the rest
    md.log_add(3, UVec3::new(0, 0, 1));
    md.log_break(2, UVec3::new(0, 0, 0));
    assert_eq!(update_custom_mesh(&reg, &mut mesh, &mut md), Ok(()));
    assert_eq!(mesh.count_vertices(), 7);
    assert_eq!(mesh.indices, vec![0, 1, 2, 3, 4, 5, 5, 6, 3]);
    assert_eq!(md.record_of(UVec3::new(1, 0, 1)), Some((0, 3, 0, 3)));
    assert_eq!(md.record_of(UVec3::new(0, 0, 1)), Some((3, 7, 3, 9)));
    md.log_break(2, UVec3::new(1, 0, 1));
    md.log_break(3, UVec3::new(0, 0, 1));
    assert_eq!(update_custom_mesh(&reg, &mut mesh, &mut md), Ok(()));
    assert_eq!(mesh.count_vertices(), 0);
    assert_eq!(mesh.indices.len(), 0);
    assert_eq!(md.record_of(UVec3::new(0, 0, 1)), None);
}

#[test]
fn custom_changes_of_other_blocks_are_passed_over() {
    let reg = block_registry();
    let grid: Grid<4> = Grid::new([2, 0, 0, 0], UVec3::new(2, 1, 2));
    let (mut mesh, mut md) = meshify_custom_voxels(&reg, &grid).unwrap();
    md.log_add(1, UVec3::new(1, 0, 0));
    md.log_break(5, UVec3::new(0, 0, 0));
    md.log_add(0, UVec3::new(7, 7, 7));
    assert_eq!(update_custom_mesh(&reg, &mut mesh, &mut md), Ok(()));
    assert_eq!(mesh.count_vertices(), 3);
    assert_eq!(md.record_of(UVec3::new(0, 0, 0)), Some((0, 3, 0, 3)));
}

#[test]
fn custom_errors_leave_everything_as_it_was() {
    let reg = block_registry();
    let grid: Grid<4> = Grid::new([2, 0, 0, 0], UVec3::new(2, 1, 2));
    let (mut mesh, mut md) = meshify_custom_voxels(&reg, &grid).unwrap();
    md.log_add(3, UVec3::new(1, 0, 0));
    md.log_add(3, UVec3::new(2, 0, 0));
    assert_eq!(update_custom_mesh(&reg, &mut mesh, &mut md), Err(MeshError::OutOfBounds));
    assert_eq!(mesh.count_vertices(), 3);
    assert_eq!(md.log.len(), 2);
    md.log.clear();
    md.log_add(4, UVec3::new(1, 0, 0));
    assert_eq!(update_custom_mesh(&reg, &mut mesh, &mut md), Err(MeshError::RegistryMismatch));
    assert_eq!(mesh.count_vertices(), 3);
    let unfit: Grid<4> = Grid::new([2, 4, 0, 0], UVec3::new(2, 1, 2));
    assert!(meshify_custom_voxels(&reg, &unfit).is_none());
}

#[test]
fn sprites_are_appended_cell_by_cell() {
    let reg = block_registry();
    let grid: Grid<4> = Grid::new([5, 0, 6, 2], UVec3::new(2, 1, 2));
    let (mesh, md) = meshify_xsprite_voxels(&reg, &grid).unwrap();
    assert_eq!(mesh.attributes.len(), 3);
    assert_eq!(mesh.attributes[0].id, ATTRIBUTE_POSITION);
    assert_eq!(mesh.attributes[1].id, ATTRIBUTE_UV_0);
    assert_eq!(mesh.attributes[2].id, ATTRIBUTE_NORMAL);
    assert_eq!(mesh.count_vertices(), 16);
    assert_eq!(mesh.indices.len(), 24);
    assert_eq!(&mesh.indices[12..18], &[8, 9, 10, 10, 11, 8]);
    assert_eq!(md.vivi[0], (0, 8, 0, 12));
    assert_eq!(md.vivi[1], (0, 0, 0, 0));
    assert_eq!(md.vivi[2], (8, 16, 12, 24));
    assert_eq!(md.vivi[3], (0, 0, 0, 0));
    assert_eq!(md.sprite_vertices, 8);
    let second = free_form(8, 6, vec![]);
    for i in 0..8 {
        assert_eq!(mesh.attributes[0].values[8 + i], moved(second.attributes[0].values[i], 0, 0, 1));
        assert_eq!(mesh.attributes[1].values[8 + i], second.attributes[3].values[i]);
        assert_eq!(mesh.attributes[2].values[8 + i], second.attributes[1].values[i]);
    }
}

#[test]
fn removing_a_sprite_moves_the_last_sprite_into_its_place() {
    let reg = block_registry();
    let grid: Grid<4> = Grid::new([5, 6, 5, 6], UVec3::new(2, 1, 2));
    let (mut mesh, mut md) = meshify_xsprite_voxels(&reg, &grid).unwrap();
    assert_eq!(mesh.count_vertices(), 32);
    let last: Vec<VertexValue> = mesh.attributes[0].values[24..32].to_vec();
    let third: Vec<VertexValue> = mesh.attributes[0].values[16..24].to_vec();
    md.log_break(6, UVec3::new(1, 0, 0));
    let dims = md.dims;
    assert_eq!(update_xsprite_mesh(&reg, &mut mesh, &mut md, dims), Ok(()));
    assert_eq!(mesh.count_vertices(), 24);
    assert_eq!(mesh.indices.len(), 36);
    for attribute in mesh.attributes.iter() {
        assert_eq!(attribute.values.len(), 24);
    }
    assert_eq!(&mesh.attributes[0].values[8..16], &last[..]);
    assert_eq!(&mesh.attributes[0].values[16..24], &third[..]);
    assert_eq!(md.vivi[0], (0, 8, 0, 12));
    assert_eq!(md.vivi[1], (0, 0, 0, 0));
    assert_eq!(md.vivi[2], (16, 24, 24, 36));
    assert_eq!(md.vivi[3], (8, 16, 12, 24));
    for (i, index) in mesh.indices.iter().enumerate() {
        let pattern = [0u32, 1, 2, 2, 3, 0, 4, 5, 6, 6, 7, 4];
        assert_eq!(*index, 8 * (i as u32 / 12) + pattern[i % 12]);
    }
    // breaking where nothing stands changes nothing; breaking the last needs no move
    md.log_break(6, UVec3::new(1, 0, 0));
    md.log_break(5, UVec3::new(0, 0, 1));
    assert_eq!(update_xsprite_mesh(&reg, &mut mesh, &mut md, dims), Ok(()));
    assert_eq!(mesh.count_vertices(), 16);
    assert_eq!(md.vivi[2], (0, 0, 0, 0));
    assert_eq!(md.vivi[3], (8, 16, 12, 24));
    md.log_add(5, UVec3::new(1, 0, 0));
    md.log_break(5, UVec3::new(0, 0, 0));
    md.log_break(6, UVec3::new(1, 0, 1));
    md.log_break(5, UVec3::new(1, 0, 0));
    assert_eq!(update_xsprite_mesh(&reg, &mut mesh, &mut md, dims), Ok(()));
    assert_eq!(mesh.count_vertices(), 0);
    assert_eq!(mesh.indices.len(), 0);
    assert_eq!(md.vivi, vec![(0, 0, 0, 0); 4]);
}

#[test]
fn the_first_sprite_sets_the_shape_of_all() {
    let reg = block_registry();
    let empty: Grid<4> = Grid::new([0, 2, 1, 0], UVec3::new(2, 1, 2));
    let (mut mesh, mut md) = meshify_xsprite_voxels(&reg, &empty).unwrap();
    assert_eq!(md.sprite_vertices, 0);
    let dims = md.dims;
    md.log_add(7, UVec3::new(0, 0, 0));
    md.log_add(5, UVec3::new(1, 0, 0));
    assert_eq!(update_xsprite_mesh(&reg, &mut mesh, &mut md, dims), Err(MeshError::RegistryMismatch));
    assert_eq!(mesh.count_vertices(), 0);
    assert_eq!(md.sprite_vertices, 0);
    assert_eq!(md.log.len(), 2);
    md.log.clear();
    md.log_add(7, UVec3::new(0, 0, 0));
    assert_eq!(update_xsprite_mesh(&reg, &mut mesh, &mut md, dims), Ok(()));
    assert_eq!(md.sprite_vertices, 4);
    assert_eq!(md.sprite_indices, 6);
    assert_eq!(mesh.count_vertices(), 4);
    md.log_add(5, UVec3::new(1, 0, 0));
    assert_eq!(update_xsprite_mesh(&reg, &mut mesh, &mut md, dims), Err(MeshError::RegistryMismatch));
    md.log.clear();
    md.log_break(7, UVec3::new(0, 0, 2));
    assert_eq!(update_xsprite_mesh(&reg, &mut mesh, &mut md, dims), Err(MeshError::OutOfBounds));
    let mixed: Grid<4> = Grid::new([5, 7, 0, 0], UVec3::new(2, 1, 2));
    assert!(meshify_xsprite_voxels(&reg, &mixed).is_none());
}

#[test]
fn custom_changes_that_disagree_with_the_mesh_are_refused() {
    let reg = block_registry();
    let grid: Grid<4> = Grid::new([2, 0, 0, 3], UVec3::new(2, 1, 2));
    let (mut mesh, mut md) = meshify_custom_voxels(&reg, &grid).unwrap();
    let before = mesh.clone();
    // a block is added where one stands
    md.log_add(3, UVec3::new(1, 0, 0));
    md.log_add(2, UVec3::new(0, 0, 0));
    assert_eq!(update_custom_mesh(&reg, &mut mesh, &mut md), Err(MeshError::InvariantViolation));
    assert_eq!(mesh.indices, before.indices);
    assert_eq!(mesh.count_vertices(), 7);
    assert_eq!(md.record_of(UVec3::new(1, 0, 0)), None);
    assert_eq!(md.log.len(), 2);
    md.log.clear();
    // a block is broken where none stands
    md.log_break(2, UVec3::new(0, 0, 1));
    assert_eq!(update_custom_mesh(&reg, &mut mesh, &mut md), Err(MeshError::InvariantViolation));
    md.log.clear();
    // a block is broken twice
    md.log_break(2, UVec3::new(0, 0, 0));
    md.log_break(2, UVec3::new(0, 0, 0));
    assert_eq!(update_custom_mesh(&reg, &mut mesh, &mut md), Err(MeshError::InvariantViolation));
    assert_eq!(mesh.count_vertices(), 7);
    md.log.clear();
    // within one log a block may go and come back, and come and go
    md.log_break(2, UVec3::new(0, 0, 0));
    md.log_add(3, UVec3::new(0, 0, 0));
    md.log_add(2, UVec3::new(1, 0, 0));
    md.log_break(2, UVec3::new(1, 0, 0));
    assert_eq!(update_custom_mesh(&reg, &mut mesh, &mut md), Ok(()));
    assert_eq!(mesh.count_vertices(), 8);
    assert_eq!(md.record_of(UVec3::new(1, 0, 1)), Some((0, 4, 0, 6)));
    assert_eq!(md.record_of(UVec3::new(0, 0, 0)), Some((4, 8, 6, 12)));
    assert_eq!(md.record_of(UVec3::new(1, 0, 0)), None);
    assert_eq!(mesh.indices, vec![0, 1, 2, 2, 3, 0, 4, 5, 6, 6, 7, 4]);
}

#[test]
fn a_sprite_is_not_added_where_one_stands() {
    let reg = block_registry();
    let grid: Grid<4> = Grid::new([5, 0, 0, 0], UVec3::new(2, 1, 2));
    let (mut mesh, mut md) = meshify_xsprite_voxels(&reg, &grid).unwrap();
    let dims = md.dims;
    md.log_add(6, UVec3::new(1, 0, 0));
    md.log_add(6, UVec3::new(0, 0, 0));
    assert_eq!(
        update_xsprite_mesh(&reg, &mut mesh, &mut md, dims),
        Err(MeshError::InvariantViolation)
    );
    assert_eq!(mesh.count_vertices(), 8);
    assert_eq!(md.vivi[1], (0, 0, 0, 0));
    assert_eq!(md.log.len(), 2);
    md.log.clear();
    md.log_add(6, UVec3::new(1, 0, 0));
    md.log_add(6, UVec3::new(1, 0, 0));
    assert_eq!(
        update_xsprite_mesh(&reg, &mut mesh, &mut md, dims),
        Err(MeshError::InvariantViolation)
    );
    md.log.clear();
    // once the sprite is broken another may take its place
    md.log_break(5, UVec3::new(0, 0, 0));
    md.log_add(6, UVec3::new(0, 0, 0));
    md.log_add(5, UVec3::new(1, 0, 1));
    assert_eq!(update_xsprite_mesh(&reg, &mut mesh, &mut md, dims), Ok(()));
    assert_eq!(mesh.count_vertices(), 16);
    assert_eq!(md.vivi[0], (0, 8, 0, 12));
    assert_eq!(md.vivi[3], (8, 16, 12, 24));
}

#[test]
fn block_meshes_are_told_from_ones_that_do_not_belong_to_the_metadata() {
    let reg = block_registry();
    let grid: Grid<4> = Grid::new([2, 5, 6, 3], UVec3::new(2, 1, 2));
    let (custom_mesh, mut custom_md) = meshify_custom_voxels(&reg, &grid).unwrap();
    let (sprite_mesh, mut sprite_md) = meshify_xsprite_voxels(&reg, &grid).unwrap();
    assert!(custom_md.is_consistent(&custom_mesh));
    assert!(sprite_md.is_consistent(&sprite_mesh));
    assert!(!custom_md.is_consistent(&sprite_mesh));
    assert!(!sprite_md.is_consistent(&custom_mesh));
    let mut short = custom_mesh.clone();
    short.attributes[1].values.pop();
    assert!(!custom_md.is_consistent(&short));
    let mut crossed = custom_mesh.clone();
    crossed.indices[0] = 5;
    assert!(!custom_md.is_consistent(&crossed));
    let mut torn = sprite_mesh.clone();
    torn.indices.swap(3, 4);
    assert!(sprite_md.is_consistent(&torn));
    torn.indices[3] = 8;
    assert!(!sprite_md.is_consistent(&torn));
    sprite_md.vivi[0] = (8, 16, 12, 24);
    assert!(!sprite_md.is_consistent(&sprite_mesh));
    sprite_md.vivi[0] = (0, 0, 0, 0);
    assert!(sprite_md.is_consistent(&sprite_mesh));
    sprite_md.vivi[1] = (0, 0, 0, 0);
    assert!(!sprite_md.is_consistent(&sprite_mesh));
    sprite_md.vivi[1] = (0, 8, 0, 12);
    sprite_md.owners.swap(0, 1);
    assert!(!sprite_md.is_consistent(&sprite_mesh));
    // an update leaves the two together
    custom_md.log_break(2, UVec3::new(0, 0, 0));
    let mut mesh = custom_mesh.clone();
    assert_eq!(update_custom_mesh(&reg, &mut mesh, &mut custom_md), Ok(()));
    assert!(custom_md.is_consistent(&mesh));
    assert!(!custom_md.is_consistent(&custom_mesh));
}

#[test]
fn sprites_of_one_size_keep_their_own_indices() {
    let reg = block_registry();
    let grid: Grid<4> = Grid::new([5, 8, 0, 8], UVec3::new(2, 1, 2));
    let (mut mesh, mut md) = meshify_xsprite_voxels(&reg, &grid).unwrap();
    assert_eq!(md.sprite_vertices, 8);
    assert_eq!(md.sprite_indices, 12);
    let plain = [0u32, 1, 2, 2, 3, 0, 4, 5, 6, 6, 7, 4];
    let other = [0u32, 1, 2, 0, 2, 3, 4, 5, 6, 4, 6, 7];
    let listed = |base: u32, list: &[u32; 12]| -> Vec<u32> { list.iter().map(|i| i + base).collect() };
    assert_eq!(&mesh.indices[0..12], &listed(0, &plain)[..]);
    assert_eq!(&mesh.indices[12..24], &listed(8, &other)[..]);
    assert_eq!(&mesh.indices[24..36], &listed(16, &other)[..]);
    assert!(md.is_consistent(&mesh));
    // the first sprite goes: the last takes its place and brings its indices along
    let last: Vec<VertexValue> = mesh.attributes[0].values[16..24].to_vec();
    let dims = md.dims;
    md.log_break(5, UVec3::new(0, 0, 0));
    assert_eq!(update_xsprite_mesh(&reg, &mut mesh, &mut md, dims), Ok(()));
    assert_eq!(mesh.count_vertices(), 16);
    assert_eq!(mesh.indices.len(), 24);
    assert_eq!(&mesh.attributes[0].values[0..8], &last[..]);
    assert_eq!(&mesh.indices[0..12], &listed(0, &other)[..]);
    assert_eq!(&mesh.indices[12..24], &listed(8, &other)[..]);
    assert_eq!(md.vivi[3], (0, 8, 0, 12));
    assert_eq!(md.vivi[1], (8, 16, 12, 24));
    assert!(md.is_consistent(&mesh));
    // a sprite of the other kind comes, and the first goes again
    md.log_add(6, UVec3::new(0, 0, 1));
    md.log_break(8, UVec3::new(1, 0, 1));
    assert_eq!(update_xsprite_mesh(&reg, &mut mesh, &mut md, dims), Ok(()));
    assert_eq!(mesh.count_vertices(), 16);
    assert_eq!(&mesh.indices[0..12], &listed(0, &plain)[..]);
    assert_eq!(&mesh.indices[12..24], &listed(8, &other)[..]);
    assert_eq!(md.vivi[2], (0, 8, 0, 12));
    assert_eq!(md.vivi[3], (0, 0, 0, 0));
    assert!(md.is_consistent(&mesh));
    // an index that points into another sprite is told
    mesh.indices[0] = 8;
    assert!(!md.is_consistent(&mesh));
}
