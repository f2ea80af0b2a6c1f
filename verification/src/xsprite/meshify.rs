//! Generating the merged mesh of all sprites of a chunk.
use vstd::prelude::*;
use crate::chunk::{index_to_pos, spec_index_to_pos, BlockId, BlockPos, Grid};
use crate::cube::update::{offset_of, prototype_of};
use crate::merge::is_valid_prototype;
use crate::mesh::{
    AttributeId, Mesh, MeshAttribute, VertexValue, ATTRIBUTE_NORMAL, ATTRIBUTE_POSITION,
    ATTRIBUTE_UV_0,
};
use crate::mesh_reg::MeshRegistry;
use crate::xsprite::md::{SpriteRecord, SpriteState, XSpriteMD};
use crate::xsprite::update::{
    add_xsprite_block, is_xsprite_block, product_fits, sprite_fits,
};

verus! {

/// The attributes that a merged mesh of sprites tracks.
pub open spec fn spec_xsprite_attributes() -> Seq<AttributeId> {
    seq![ATTRIBUTE_POSITION, ATTRIBUTE_UV_0, ATTRIBUTE_NORMAL]
}

/// The prototype of the first sprite among the first `upto` cells of the grid.
pub open spec fn first_sprite_cell<R: MeshRegistry, const N: usize>(
    grid: &Grid<N>,
    reg: &R,
    upto: int,
) -> Option<Mesh>
    decreases upto,
{
    if upto <= 0 {
        None
    } else {
        match first_sprite_cell(grid, reg, upto - 1) {
            Some(m) => Some(m),
            None => if is_xsprite_block(reg, grid.cells()[upto - 1]) {
                Some(prototype_of(reg, grid.cells()[upto - 1]))
            } else {
                None
            },
        }
    }
}

/// The number of vertices and the number of indices of the sprites of the grid:
/// those of its first sprite.
pub open spec fn grid_unit<R: MeshRegistry, const N: usize>(grid: &Grid<N>, reg: &R) -> (
    nat,
    nat,
) {
    match first_sprite_cell(grid, reg, N as int) {
        Some(m) => (m.spec_count_vertices(), m.indices@.len()),
        None => (0, 0),
    }
}

/// Whether a merged mesh of the sprites of the grid can be made: the registry holds
/// a fit prototype for each, and all are alike in their vertices and indices.
pub open spec fn can_meshify_sprites<R: MeshRegistry, const N: usize>(
    grid: &Grid<N>,
    reg: &R,
) -> bool {
    forall|v: int|
        0 <= v < N && is_xsprite_block(reg, #[trigger] grid.cells()[v]) ==> sprite_fits(
            prototype_of(reg, grid.cells()[v]),
            spec_xsprite_attributes(),
            N as nat,
            grid_unit(grid, reg).0,
            grid_unit(grid, reg).1,
        )
}

/// The mesh without any sprite, with one empty column for each of `columns`
/// attributes.
pub open spec fn empty_sprites(columns: nat) -> SpriteState {
    SpriteState {
        columns: Seq::new(columns, |a: int| Seq::<VertexValue>::empty()),
        indices: Seq::<u32>::empty(),
        owners: Seq::<usize>::empty(),
    }
}

/// The merged mesh of the sprites among the first `upto` cells of the grid: cell by
/// cell in the order of the indices, each sprite is appended.
pub open spec fn spec_meshify_sprites<R: MeshRegistry, const N: usize>(
    grid: &Grid<N>,
    reg: &R,
    ids: Seq<AttributeId>,
    upto: int,
) -> SpriteState
    decreases upto,
{
    if upto <= 0 {
        empty_sprites(ids.len())
    } else {
        let s = spec_meshify_sprites(grid, reg, ids, upto - 1);
        let block = grid.cells()[upto - 1];
        let pos = spec_index_to_pos((upto - 1) as usize, grid.dims).unwrap();
        if is_xsprite_block(reg, block) {
            s.push((upto - 1) as usize, prototype_of(reg, block), ids, offset_of(pos))
        } else {
            s
        }
    }
}

/// The first sprite among some cells is the first sprite among more cells.
pub proof fn lemma_first_sprite_cell_stays<R: MeshRegistry, const N: usize>(
    grid: &Grid<N>,
    reg: &R,
    upto: int,
    end: int,
)
    requires
        0 <= upto <= end,
        first_sprite_cell(grid, reg, upto) is Some,
    ensures
        first_sprite_cell(grid, reg, end) == first_sprite_cell(grid, reg, upto),
    decreases end - upto,
{
    if upto < end {
        lemma_first_sprite_cell_stays(grid, reg, upto, end - 1);
    }
}

/// The prototype of the first sprite of the grid.
fn find_first_sprite_cell<'a, R: MeshRegistry, const N: usize>(grid: &Grid<N>, reg: &'a R) -> (r:
    Option<&'a Mesh>)
    requires
        grid.wf(),
    ensures
        match r {
            Some(m) => first_sprite_cell(grid, reg, N as int) == Some(*m),
            None => first_sprite_cell(grid, reg, N as int) is None,
        },
        r is None ==> forall|v: int| 0 <= v < N ==> !is_xsprite_block(reg, #[trigger] grid.cells()[v]),
        r matches Some(m) ==> exists|v: int|
            0 <= v < N && is_xsprite_block(reg, #[trigger] grid.cells()[v]) && prototype_of(
                reg,
                grid.cells()[v],
            ) == *m,
{
    let mut v: usize = 0;
    while v < N
        invariant
            v <= N,
            first_sprite_cell(grid, reg, v as int) is None,
            forall|w: int| 0 <= w < v ==> !is_xsprite_block(reg, #[trigger] grid.cells()[w]),
        decreases N - v,
    {
        let block: BlockId = grid.cell(v);
        let block_mesh = reg.get_block_mesh_ref(&block);
        if block_mesh.is_xsprite() {
            let proto = block_mesh.unwrap();
            proof {
                assert(first_sprite_cell(grid, reg, v + 1) == Some(*proto));
                lemma_first_sprite_cell_stays(grid, reg, v + 1, N as int);
                assert(is_xsprite_block(reg, grid.cells()[v as int]));
            }
            return Some(proto);
        }
        v = v + 1;
    }
    None
}

/// Meshify all of the sprites in a chunk grid. Returns the mesh and its metadata.
///
/// All sprites of one mesh are alike in their number of vertices and in their
/// number of indices: a sprite is removed by moving the last sprite of the mesh into
/// its place, which asks for ranges of one size. The first sprite of the grid sets
/// them. Which vertices the indices of a sprite name is up to each sprite.
///
/// Returns `None` where the registry holds an unfit prototype for a sprite of the
/// grid: one that is not in order itself, lacks an attribute that the merged mesh
/// tracks, has positions too large to be moved, has no vertex, differs from the
/// first sprite of the grid in its number of vertices or of indices, or is
/// so large that the sprites of a full chunk would come to more vertices or indices
/// than a 32-bit index can count.
pub fn meshify_xsprite_voxels<R: MeshRegistry, const N: usize>(reg: &R, grid: &Grid<N>) -> (r: Option<
    (Mesh, XSpriteMD),
>)
    requires
        grid.wf(),
    ensures
        r is Some <==> can_meshify_sprites(grid, reg),
        r matches Some((mesh, md)) ==> {
            &&& md.consistent(mesh)
            &&& mesh.wf()
            &&& md.dims == grid.dims
            &&& md.log@.len() == 0
            &&& mesh.ids() == spec_xsprite_attributes()
            &&& md.sprite_vertices == grid_unit(grid, reg).0
            &&& md.sprite_indices == grid_unit(grid, reg).1
            &&& md.state(mesh) == spec_meshify_sprites(
                grid,
                reg,
                spec_xsprite_attributes(),
                N as int,
            )
        },
{
    let mut mesh = Mesh::new();
    mesh.attributes.push(MeshAttribute { id: ATTRIBUTE_POSITION, values: Vec::new() });
    mesh.attributes.push(MeshAttribute { id: ATTRIBUTE_UV_0, values: Vec::new() });
    mesh.attributes.push(MeshAttribute { id: ATTRIBUTE_NORMAL, values: Vec::new() });
    let ghost ids = spec_xsprite_attributes();
    proof {
        assert(mesh.ids() =~= ids);
    }
    let first = find_first_sprite_cell(grid, reg);
    let mut length: usize = 0;
    let mut unit: usize = 0;
    match first {
        Some(m) => {
            let fits: bool = is_valid_prototype(m, &mesh) && m.count_vertices() > 0
                && product_fits(m.count_vertices(), N) && product_fits(m.indices.len(), N);
            if !fits {
                proof {
                    let v = choose|v: int|
                        0 <= v < N && is_xsprite_block(reg, #[trigger] grid.cells()[v])
                            && prototype_of(reg, grid.cells()[v]) == *m;
                    assert(is_xsprite_block(reg, grid.cells()[v]));
                }
                return None;
            }
            unit = m.count_vertices();
            length = m.indices.len();
        },
        None => {},
    }
    let mut vivi: Vec<SpriteRecord> = Vec::new();
    let mut i: usize = 0;
    while i < N
        invariant
            i <= N,
            vivi@.len() == i,
            forall|v: int| 0 <= v < i ==> (#[trigger] vivi@[v]) == (0usize, 0usize, 0u32, 0u32),
        decreases N - i,
    {
        vivi.push((0, 0, 0, 0));
        i = i + 1;
    }
    let mut md = XSpriteMD {
        vivi,
        log: Vec::new(),
        dims: grid.dims,
        sprite_vertices: unit,
        sprite_indices: length,
        owners: Vec::new(),
    };
    proof {
        let s = md.state(mesh);
        assert(s.columns =~~= empty_sprites(ids.len()).columns);
        assert(s.indices =~= empty_sprites(ids.len()).indices);
        assert(s == empty_sprites(ids.len()));
        assert forall|v: int| 0 <= v < md.vivi@.len() implies #[trigger] md.record_ok(v) by {}
        assert(md.wf());
        assert(s.wf(unit as nat, md.sprite_indices as nat, md.vivi@.len()));
    }
    let mut v: usize = 0;
    while v < N
        invariant
            v <= N,
            grid.wf(),
            md.consistent(mesh),
            md.dims == grid.dims,
            md.log@.len() == 0,
            md.vivi@.len() == N,
            mesh.ids() == ids,
            ids == spec_xsprite_attributes(),
            md.sprite_vertices == unit,
            (unit as nat, md.sprite_indices as nat) == grid_unit(grid, reg),
            unit > 0 ==> unit * N <= u32::MAX && md.sprite_indices * N <= u32::MAX,
            forall|j: int| 0 <= j < md.owners@.len() ==> (#[trigger] md.owners@[j]) < v,
            forall|w: int|
                0 <= w < v && is_xsprite_block(reg, #[trigger] grid.cells()[w]) ==> sprite_fits(
                    prototype_of(reg, grid.cells()[w]),
                    spec_xsprite_attributes(),
                    N as nat,
                    grid_unit(grid, reg).0,
                    grid_unit(grid, reg).1,
                ),
            md.state(mesh) == spec_meshify_sprites(grid, reg, ids, v as int),
        decreases N - v,
    {
        let block: BlockId = grid.cell(v);
        let block_pos: BlockPos = index_to_pos(v, grid.dims).unwrap();
        let block_mesh = reg.get_block_mesh_ref(&block);
        if block_mesh.is_xsprite() {
            let proto = block_mesh.unwrap();
            let fits: bool = is_valid_prototype(proto, &mesh) && unit > 0 && proto.count_vertices()
                == unit && proto.indices.len() == md.sprite_indices && product_fits(
                unit,
                N,
            ) && product_fits(md.sprite_indices, N);
            if !fits {
                assert(is_xsprite_block(reg, grid.cells()[v as int]));
                return None;
            }
            proof {
                if md.owners@.contains(v) {
                    let j = choose|j: int| 0 <= j < md.owners@.len() && md.owners@[j] == v;
                    assert(md.owners@[j] < v);
                }
            }
            add_xsprite_block(&mut mesh, &mut md, block_pos, proto, grid.dims);
            proof {
                assert forall|j: int| 0 <= j < md.owners@.len() implies (#[trigger] md.owners@[j])
                    < v + 1 by {
                    let before = spec_meshify_sprites(grid, reg, ids, v as int).owners;
                    if j < before.len() {
                        assert(before[j] < v);
                    }
                }
            }
        }
        v = v + 1;
    }
    proof {
        md.lemma_consistent_mesh_wf(mesh);
    }
    Some((mesh, md))
}

} // verus!
