use moxi::block::{BlockInGrid, GridBlock};
use moxi::block_mesh::{compute_aabb, Aabb, BlockMesh, BlockMeshRef, BlockMeshType};
use moxi::chunk::{
    adj_chunk, chunk_distance, enumerate_neighbors_across_chunks, global_enumerate_neighboring_blocks,
    global_neighbor, is_block_pos_on_edge, iter_blocks_on_edge, neighbor_across_chunk,
    neighbor_pos, pos_in_bounds, surrounding_block, BlockGlobalPos, Grid, IVec2,
    SurroundingBlocksCommon, UVec3,
};
use moxi::chunk_mesh::{ChunkMeshMd, ChunkMeshType};
use moxi::cube::md::CubeMD;
use moxi::cube::md::CubeVIVI;
use moxi::cube::proto::classify_triangle;
use moxi::cube::CubeTextureCords;
use moxi::custom::gen::MeshCaster;
use moxi::dir::NDir::{East, NoEast, NoWest, North, SoEast, SoWest, South, West};
use moxi::dir::{directions, from_cords_change, to_cords, NDir};
use moxi::face::{faces, Face};
use moxi::mesh::{Mesh, MeshAttribute, VertexValue, ATTRIBUTE_NORMAL, ATTRIBUTE_POSITION};
use moxi::mesh_reg::{get_block_mesh_aabb, MeshReg, MeshRegistry, MeshRegistryCommon};
use moxi::update_event::{
    BlockUpdate, BlockUpdateType, BlockWorldUpdateEvent, BLOCK_PLACED_ID, BLOCK_REMOVED_ID,
};
use moxi::xsprite::XSpriteTextureCords;
use moxi::BlockMeshChange;

#[test]
fn faces_have_stable_codes_and_opposites() {
    let all = faces();
    assert_eq!(all, [Face::Top, Face::Bottom, Face::Right, Face::Left, Face::Back, Face::Front]);
    for (i, face) in all.iter().enumerate() {
        assert_eq!(face.to_index(), i);
        assert_eq!(Face::from_index(i), Some(*face));
        assert_eq!(face.opposite().opposite(), *face);
        assert_ne!(face.opposite(), *face);
    }
    assert_eq!(Face::from_index(6), None);
    assert_eq!(Face::Top.opposite(), Face::Bottom);
    assert_eq!(Face::Right.opposite(), Face::Left);
    assert_eq!(Face::Back.opposite(), Face::Front);
    assert!(Face::Top.is_vertical() && Face::Bottom.is_vertical());
    assert!(!Face::Left.is_vertical() && !Face::Back.is_vertical());
}

#[test]
fn neighbors_stop_at_the_border() {
    let dims = UVec3::new(2, 3, 4);
    let pos = UVec3::new(1, 0, 3);
    assert!(pos_in_bounds(pos, dims));
    assert!(!pos_in_bounds(UVec3::new(1, 3, 0), dims));
    assert_eq!(neighbor_pos(pos, Face::Top, dims), Some(UVec3::new(1, 1, 3)));
    assert_eq!(neighbor_pos(pos, Face::Bottom, dims), None);
    assert_eq!(neighbor_pos(pos, Face::Right, dims), None);
    assert_eq!(neighbor_pos(pos, Face::Left, dims), Some(UVec3::new(0, 0, 3)));
    assert_eq!(neighbor_pos(pos, Face::Back, dims), None);
    assert_eq!(neighbor_pos(pos, Face::Front, dims), Some(UVec3::new(1, 0, 2)));
    assert_eq!(neighbor_pos(UVec3::new(u32::MAX, 0, 0), Face::Right, dims), None);
    assert!(is_block_pos_on_edge(pos, Face::Right, dims));
    assert!(!is_block_pos_on_edge(pos, Face::Left, dims));
    assert_eq!(neighbor_across_chunk(pos, Face::Right, dims), Some(UVec3::new(0, 0, 3)));
    assert_eq!(neighbor_across_chunk(pos, Face::Back, dims), Some(UVec3::new(1, 0, 0)));
    assert_eq!(neighbor_across_chunk(pos, Face::Bottom, dims), None);
    assert_eq!(neighbor_across_chunk(pos, Face::Left, dims), None);
    assert_eq!(
        neighbor_across_chunk(UVec3::new(0, 1, 0), Face::Left, dims),
        Some(UVec3::new(1, 1, 0))
    );
    assert_eq!(
        neighbor_across_chunk(UVec3::new(0, 1, 0), Face::Front, dims),
        Some(UVec3::new(0, 1, 3))
    );
    assert_eq!(
        enumerate_neighbors_across_chunks(pos, dims),
        vec![(Face::Right, UVec3::new(0, 0, 3)), (Face::Back, UVec3::new(1, 0, 0))]
    );
}

#[test]
fn cells_on_an_edge_come_in_index_order() {
    let dims = UVec3::new(2, 2, 2);
    assert_eq!(
        iter_blocks_on_edge(Face::Right, dims),
        vec![UVec3::new(1, 0, 0), UVec3::new(1, 0, 1), UVec3::new(1, 1, 0), UVec3::new(1, 1, 1)]
    );
    assert_eq!(
        iter_blocks_on_edge(Face::Bottom, dims),
        vec![UVec3::new(0, 0, 0), UVec3::new(1, 0, 0), UVec3::new(0, 0, 1), UVec3::new(1, 0, 1)]
    );
    assert_eq!(iter_blocks_on_edge(Face::Top, UVec3::new(0, 2, 2)), vec![]);
}

#[test]
fn grid_reads_and_writes_blocks() {
    let mut grid: Grid<8> = Grid::new([0, 1, 2, 3, 4, 5, 6, 7], UVec3::new(2, 2, 2));
    assert!(grid.is_wf());
    let wrong: Grid<8> = Grid::new([0; 8], UVec3::new(2, 2, 3));
    assert!(!wrong.is_wf());
    assert_eq!(grid.len(), 8);
    assert_eq!(grid.cell(5), 5);
    assert_eq!(grid.get_block(UVec3::new(1, 0, 1)), Some(3));
    assert_eq!(grid.get_block(UVec3::new(0, 1, 1)), Some(6));
    assert_eq!(grid.get_block(UVec3::new(2, 0, 0)), None);
    assert_eq!(grid.get_block_or(UVec3::new(2, 0, 0), 9), 9);
    assert_eq!(grid.get_block_or(UVec3::new(1, 1, 1), 9), 7);
    let pos = UVec3::new(0, 0, 0);
    assert_eq!(grid.get_neighbor_of(pos, Face::Top), Some(4));
    assert_eq!(grid.get_neighbor_of(pos, Face::Bottom), None);
    assert_eq!(grid.get_neighbor_of_or(pos, Face::Bottom, 9), 9);
    assert_eq!(grid.get_neighbors(pos), [Some(4), None, Some(1), None, Some(2), None]);
    assert_eq!(grid.get_neighbors_or(pos, 9), [4, 9, 1, 9, 2, 9]);
    assert_eq!(
        grid.enumerate_neighbors(pos),
        [
            (Face::Top, Some(4)),
            (Face::Bottom, None),
            (Face::Right, Some(1)),
            (Face::Left, None),
            (Face::Back, Some(2)),
            (Face::Front, None),
        ]
    );
    let blocks = grid.enumerate_blocks();
    assert_eq!(blocks.len(), 8);
    assert_eq!(blocks[3], (UVec3::new(1, 0, 1), 3));
    assert_eq!(blocks[6], (UVec3::new(0, 1, 1), 6));
    assert_eq!(grid.iter_blocks_on_edge(Face::Top).len(), 4);
    assert_eq!(
        grid.enumerate_blocks_on_edge(Face::Left),
        vec![
            (UVec3::new(0, 0, 0), 0),
            (UVec3::new(0, 0, 1), 2),
            (UVec3::new(0, 1, 0), 4),
            (UVec3::new(0, 1, 1), 6),
        ]
    );
    *grid.get_block_mut(UVec3::new(0, 1, 0)).unwrap() = 17;
    assert_eq!(grid.cell(4), 17);
    assert_eq!(grid.get_block(UVec3::new(0, 1, 0)), Some(17));
    assert!(grid.get_block_mut(UVec3::new(0, 2, 0)).is_none());
    assert_eq!(grid.set_block(42, UVec3::new(1, 1, 0)), Ok(()));
    assert_eq!(grid.get_block(UVec3::new(1, 1, 0)), Some(42));
    assert_eq!(grid.cell(5), 42);
    assert_eq!(grid.set_block(42, UVec3::new(1, 2, 0)), Err(()));
}

#[test]
fn surrounding_blocks_are_read_by_face() {
    let around = [Some(0u16), Some(1), Some(2), Some(3), Some(4), None];
    assert_eq!(*around.top(), Some(0));
    assert_eq!(*around.bottom(), Some(1));
    assert_eq!(*around.right(), Some(2));
    assert_eq!(*around.left(), Some(3));
    assert_eq!(*around.back(), Some(4));
    assert_eq!(*around.front(), None);
    assert_eq!(surrounding_block(&around, Face::Left), Some(3));
    assert_eq!(around.with_face(Face::Front, 9), [Some(0), Some(1), Some(2), Some(3), Some(4), Some(9)]);
    let same: [Option<u16>; 6] = SurroundingBlocksCommon::uniform(5);
    assert_eq!(same, [Some(5); 6]);
}

#[test]
fn neighbors_in_the_world_cross_chunks() {
    let dims = UVec3::new(4, 8, 4);
    let here = BlockGlobalPos::new(UVec3::new(3, 7, 0), IVec2::new(2, -1));
    assert!(here.valid);
    let right = global_neighbor(here, Face::Right, dims);
    assert_eq!(right, BlockGlobalPos { pos: UVec3::new(0, 7, 0), cords: IVec2::new(3, -1), valid: true });
    let front = global_neighbor(here, Face::Front, dims);
    assert_eq!(front, BlockGlobalPos { pos: UVec3::new(3, 7, 3), cords: IVec2::new(2, -2), valid: true });
    let left = global_neighbor(here, Face::Left, dims);
    assert_eq!(left, BlockGlobalPos { pos: UVec3::new(2, 7, 0), cords: IVec2::new(2, -1), valid: true });
    let top = global_neighbor(here, Face::Top, dims);
    assert_eq!(top, BlockGlobalPos { pos: UVec3::new(3, 7, 0), cords: IVec2::new(2, -1), valid: false });
    let all = global_enumerate_neighboring_blocks(here, dims);
    assert_eq!(all.len(), 6);
    assert_eq!(all[0], (Face::Top, top));
    assert_eq!(all[2], (Face::Right, right));
    assert_eq!(all[5], (Face::Front, front));
    assert_eq!(adj_chunk(IVec2::new(0, 0), Face::Back), IVec2::new(0, 1));
    assert_eq!(adj_chunk(IVec2::new(0, 0), Face::Front), IVec2::new(0, -1));
    assert_eq!(adj_chunk(IVec2::new(0, 0), Face::Right), IVec2::new(1, 0));
    assert_eq!(adj_chunk(IVec2::new(0, 0), Face::Left), IVec2::new(-1, 0));
    assert_eq!(adj_chunk(IVec2::new(5, 6), Face::Top), IVec2::new(5, 6));
    assert_eq!(chunk_distance(IVec2::new(1, -4), IVec2::new(3, 2)), 6);
    assert_eq!(chunk_distance(IVec2::new(-7, 2), IVec2::new(3, 2)), 10);
    assert_eq!(chunk_distance(IVec2::new(3, 2), IVec2::new(3, 2)), 0);
}

#[test]
fn directions_compose_by_their_steps() {
    assert_eq!(NDir::add_direction(None, None), None);
    assert_eq!(NDir::add_direction(None, Some(East)), Some(East));
    assert_eq!(NDir::add_direction(Some(West), None), Some(West));
    assert_eq!(NDir::add_direction(Some(North), Some(East)), Some(NoEast));
    assert_eq!(NDir::add_direction(Some(South), Some(West)), Some(SoWest));
    assert_eq!(NDir::add_direction(Some(East), Some(West)), None);
    assert_eq!(NDir::add_direction(Some(NoEast), Some(SoWest)), None);
    assert_eq!(NDir::add_direction(Some(NoEast), Some(South)), Some(East));
    assert_eq!(NDir::add_direction(Some(NoWest), Some(East)), Some(North));
    assert_eq!(NDir::add_direction(Some(North), Some(North)), Some(North));
    assert_eq!(NDir::add_direction(Some(SoEast), Some(NoEast)), Some(East));
    for (i, a) in directions().iter().enumerate() {
        assert_eq!(a.to_index(), i);
        assert_eq!(a.opposite().opposite(), *a);
        assert_eq!(NDir::add_direction(Some(*a), Some(a.opposite())), None);
        assert_eq!(from_cords_change(to_cords(Some(*a))), Some(*a));
        let (z, x) = a.decompose();
        assert_eq!(NDir::add_direction(z, x), Some(*a));
        for b in directions().iter() {
            let sum = IVec2::new(
                to_cords(Some(*a)).x + to_cords(Some(*b)).x,
                to_cords(Some(*a)).y + to_cords(Some(*b)).y,
            );
            assert_eq!(NDir::add_direction(Some(*a), Some(*b)), from_cords_change(sum));
        }
    }
    assert_eq!(to_cords(None), IVec2::new(0, 0));
    assert_eq!(to_cords(Some(NoWest)), IVec2::new(-1, 1));
    assert_eq!(from_cords_change(IVec2::new(5, -3)), Some(SoEast));
    assert_eq!(from_cords_change(IVec2::new(0, 0)), None);
    assert_eq!(NoWest.decompose(), (Some(North), Some(West)));
    assert_eq!(East.decompose(), (None, Some(East)));
    assert_eq!(NDir::from_face(Face::Back), North);
    assert_eq!(NDir::from_face(Face::Left), West);
    assert_eq!(SoWest.to_face(), Face::Front);
    assert_eq!(East.to_face(), Face::Right);
    assert_eq!(NoEast.name(), "NorthEast");
    assert_eq!(format!("{:?}", South), "South");
}

fn two_attribute_mesh() -> Mesh {
    Mesh {
        attributes: vec![
            MeshAttribute {
                id: ATTRIBUTE_NORMAL,
                values: vec![VertexValue::new(0, 0, 1, 0); 3],
            },
            MeshAttribute {
                id: ATTRIBUTE_POSITION,
                values: vec![
                    VertexValue::new(-3, 5, 0, 0),
                    VertexValue::new(4, -6, 2, 0),
                    VertexValue::new(1, 1, -9, 0),
                ],
            },
        ],
        indices: vec![0, 1, 2],
    }
}

#[test]
fn meshes_hold_columns_and_indices() {
    let mut mesh = Mesh::new();
    assert_eq!(mesh.count_vertices(), 0);
    assert!(mesh.is_wf());
    mesh.insert_attribute(ATTRIBUTE_POSITION, vec![VertexValue::new(1, 2, 3, 0); 2]);
    mesh.insert_attribute(ATTRIBUTE_NORMAL, vec![VertexValue::new(0, 1, 0, 0); 2]);
    assert_eq!(mesh.count_vertices(), 2);
    assert_eq!(mesh.attribute_position(ATTRIBUTE_NORMAL), Some(1));
    assert_eq!(mesh.attribute(ATTRIBUTE_NORMAL).unwrap().len(), 2);
    assert!(mesh.attribute(7).is_none());
    mesh.set_indices(vec![0, 1, 1]);
    assert_eq!(mesh.indices(), &vec![0, 1, 1]);
    assert!(mesh.is_wf());
    mesh.insert_attribute(ATTRIBUTE_NORMAL, vec![VertexValue::new(0, 1, 0, 0); 3]);
    assert_eq!(mesh.attributes.len(), 2);
    assert!(!mesh.is_wf());
    mesh.insert_attribute(ATTRIBUTE_NORMAL, vec![VertexValue::new(0, 1, 0, 0); 2]);
    mesh.set_indices(vec![0, 1, 2]);
    assert!(!mesh.is_wf());
    mesh.set_indices(vec![0, 1]);
    assert!(!mesh.is_wf());
    assert!(VertexValue::new(1 << 31, 0, 0, 9).is_local() == false);
    assert!(VertexValue::new(-(1 << 31), (1 << 31) - 1, 0, 1 << 40).is_local());
}

#[test]
fn block_meshes_tell_their_kind() {
    let mesh = two_attribute_mesh();
    let cube = BlockMesh::Cube(mesh.clone());
    let custom = BlockMesh::from_custom_mesh(mesh.clone());
    let sprite = BlockMesh::XSprite(mesh.clone());
    let air = BlockMesh::Air;
    assert_eq!(cube.get_type(), BlockMeshType::Cube);
    assert_eq!(custom.get_type(), BlockMeshType::Custom);
    assert_eq!(sprite.get_type(), BlockMeshType::XSprite);
    assert_eq!(air.get_type(), BlockMeshType::Air);
    assert!(matches!(MeshCaster(mesh.clone()).into_block_mesh(), BlockMesh::Custom(_)));
    let r = cube.as_ref();
    assert_eq!(r.get_type(), BlockMeshType::Cube);
    assert!(r.is_cube() && !r.is_air() && !r.is_custom() && !r.is_xsprite());
    assert!(custom.as_ref().is_custom());
    assert!(sprite.as_ref().is_xsprite());
    assert!(air.as_ref().is_air());
    assert!(r.get_if(BlockMeshType::Cube).is_some());
    assert!(r.get_if(BlockMeshType::Custom).is_none());
    assert!(air.as_ref().get_if(BlockMeshType::Air).is_none());
    assert_eq!(r.get_vertex_count(), 3);
    assert_eq!(r.get_indices_count(), 3);
    assert_eq!(air.as_ref().get_vertex_count(), 0);
    assert_eq!(air.as_ref().get_indices_count(), 0);
    assert!(r.as_option().is_some());
    assert!(BlockMeshRef::Air.as_option().is_none());
    assert_eq!(r.unwrap().indices, vec![0, 1, 2]);
    assert_eq!(sprite.as_ref().expect("a sprite has a mesh").indices.len(), 3);
    let aabb = Aabb { min: VertexValue::new(-3, -6, -9, 0), max: VertexValue::new(4, 5, 2, 0) };
    assert_eq!(r.get_aabb(), aabb);
    assert_eq!(compute_aabb(&mesh), Some(aabb));
    assert_eq!(compute_aabb(&Mesh::new()), None);
    let empty = Aabb { min: VertexValue::new(0, 0, 0, 0), max: VertexValue::new(0, 0, 0, 0) };
    assert_eq!(air.as_ref().get_aabb(), empty);
}

#[test]
fn the_registry_answers_for_every_block() {
    let reg = MeshReg {
        meshes: vec![
            BlockMesh::Air,
            BlockMesh::Cube(two_attribute_mesh()),
            BlockMesh::Custom(two_attribute_mesh()),
            BlockMesh::XSprite(two_attribute_mesh()),
        ],
    };
    assert_eq!(MeshReg::new().meshes.len(), 0);
    assert_eq!(reg.get_block_mesh_type(&0), BlockMeshType::Air);
    assert_eq!(reg.get_block_mesh_type(&1), BlockMeshType::Cube);
    assert_eq!(reg.get_block_mesh_type(&9), BlockMeshType::Air);
    assert!(reg.get_block_mesh_ref(&2).is_custom());
    assert!(reg.is_air(&0) && reg.is_cube(&1) && reg.is_custom(&2) && reg.is_xsprite(&3));
    assert!(reg.is_air(&4) && !reg.is_cube(&2));
    assert_eq!(reg.get_block_mesh_vertex_count(&1), 3);
    assert_eq!(reg.get_block_mesh_indices_len(&0), 0);
    assert!(reg.get_default_mesh().is_air());
    assert_eq!(reg.get_block_dims(), VertexValue::new(65536, 65536, 65536, 0));
    assert_eq!(reg.get_block_center(), VertexValue::new(0, 0, 0, 0));
    assert_eq!(reg.all_attributes(), vec![0, 1, 2, 5]);
    assert_eq!(reg.custom_attributes(), vec![0, 1, 5]);
    assert_eq!(get_block_mesh_aabb(&reg, &1).max, VertexValue::new(4, 5, 2, 0));
}

#[test]
fn triangles_are_sorted_by_the_side_they_lie_in() {
    let center = VertexValue::new(0, 0, 0, 0);
    let p = |x, y, z| VertexValue::new(x, y, z, 0);
    assert_eq!(classify_triangle(p(1, 0, 0), p(1, 1, 0), p(1, 1, 1), center), Some(Face::Right));
    assert_eq!(classify_triangle(p(-1, 0, 0), p(-1, 1, 0), p(-1, 1, 1), center), Some(Face::Left));
    assert_eq!(classify_triangle(p(0, 1, 0), p(1, 1, 0), p(1, 1, 1), center), Some(Face::Top));
    assert_eq!(classify_triangle(p(0, -1, 0), p(1, -1, 0), p(1, -1, 1), center), Some(Face::Bottom));
    assert_eq!(classify_triangle(p(0, 0, 1), p(1, 0, 1), p(1, 1, 1), center), Some(Face::Back));
    assert_eq!(classify_triangle(p(0, 0, -1), p(1, 0, -1), p(1, 1, -1), center), Some(Face::Front));
    assert_eq!(classify_triangle(p(0, 0, 0), p(1, 0, 1), p(1, 1, 2), center), None);
    // on the plane through the center a triangle counts to the positive side
    assert_eq!(classify_triangle(p(0, 0, 0), p(0, 1, 0), p(0, 1, 1), center), Some(Face::Right));
}

#[test]
fn block_updates_are_told_apart() {
    let removed = BlockUpdateType::from_u128(BLOCK_REMOVED_ID);
    let placed = BlockUpdateType::from_u128(BLOCK_PLACED_ID);
    assert!(removed.is(48124891481412311));
    assert!(!removed.is(BLOCK_PLACED_ID));
    assert_ne!(removed, placed);
    let pure = BlockUpdate::Pure(removed);
    let reaction = BlockUpdate::Reaction(Face::Left, placed);
    assert!(pure.is_pure_and(|t| t.is(BLOCK_REMOVED_ID)));
    assert!(!pure.is_pure_and(|t| t.is(BLOCK_PLACED_ID)));
    assert!(!pure.is_reaction_and(|_, _| true));
    assert!(reaction.is_reaction_and(|f, t| f == Face::Left && t.is(BLOCK_PLACED_ID)));
    assert!(!reaction.is_reaction_and(|f, _| f == Face::Right));
    assert!(!reaction.is_pure_and(|_| true));
    let event = BlockWorldUpdateEvent::new(UVec3::new(1, 2, 3), IVec2::new(-1, 4), pure);
    assert_eq!(event.block_pos(), UVec3::new(1, 2, 3));
    assert_eq!(event.chunk_cords(), IVec2::new(-1, 4));
    assert!(matches!(event.block_update(), BlockUpdate::Pure(t) if t == removed));
    assert_eq!(
        event.global_block_pos(),
        BlockGlobalPos { pos: UVec3::new(1, 2, 3), cords: IVec2::new(-1, 4), valid: true }
    );
}

#[test]
fn chunk_metadata_logs_to_the_right_log() {
    assert_eq!(ChunkMeshType::from_block(BlockMeshType::Cube), ChunkMeshType::Cube);
    assert_eq!(ChunkMeshType::from_block(BlockMeshType::Air), ChunkMeshType::Cube);
    assert_eq!(ChunkMeshType::from_block(BlockMeshType::Custom), ChunkMeshType::Custom);
    assert_eq!(ChunkMeshType::from_block(BlockMeshType::XSprite), ChunkMeshType::XSprite);
    assert_eq!(ChunkMeshType::from(BlockMeshType::Custom), ChunkMeshType::Custom);
    let through_into: ChunkMeshType = BlockMeshType::Air.into();
    assert_eq!(through_into, ChunkMeshType::Cube);
    let mut md = ChunkMeshMd::Cube(CubeMD {
        vivi: CubeVIVI::new(1),
        smooth_lighting_params: None,
        dims: UVec3::new(1, 1, 1),
        changed_voxels: vec![],
    });
    let pos = UVec3::new(0, 0, 0);
    md.log_block_add(pos, 3, [None; 6]);
    md.log_block_break(pos, 3, [Some(1); 6]);
    md.update_block(BlockMeshChange::CullFaces, pos, 4, [None; 6]);
    match md {
        ChunkMeshMd::Cube(cube) => {
            assert!(cube.get_sl_params().is_none());
            assert_eq!(cube.changed_voxels.len(), 3);
            assert_eq!(cube.changed_voxels[0], (3, pos, BlockMeshChange::Added, [None; 6]));
            assert_eq!(cube.changed_voxels[1], (3, pos, BlockMeshChange::Broken, [Some(1); 6]));
            assert_eq!(cube.changed_voxels[2], (4, pos, BlockMeshChange::CullFaces, [None; 6]));
        }
        _ => unreachable!(),
    }
}

#[test]
fn blocks_carry_their_id() {
    let block = GridBlock::from_id(7);
    assert_eq!(block, GridBlock { id: 7 });
    assert_eq!(block.id(), 7);
    assert_eq!(block.into_id(), 7);
    let id: u16 = BlockInGrid::from_id(9);
    assert_eq!(BlockInGrid::id(&id), 9);
    assert_eq!(BlockInGrid::into_id(id), 9);
}

#[test]
fn texture_cords_are_kept_by_side() {
    let cords = CubeTextureCords::uniform([1, 2]).with_face(Face::Left, [3, 4]);
    assert_eq!(cords.top, [1, 2]);
    assert_eq!(cords.bottom, [1, 2]);
    assert_eq!(cords.right, [1, 2]);
    assert_eq!(cords.left, [3, 4]);
    assert_eq!(cords.back, [1, 2]);
    assert_eq!(cords.front, [1, 2]);
    assert_eq!(XSpriteTextureCords::uniform([5, 6]).sprite, [5, 6]);
}
