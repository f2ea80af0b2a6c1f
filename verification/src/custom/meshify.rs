//! Generating the merged mesh of all free-form blocks of a chunk.
use vstd::prelude::*;
use crate::chunk::{
    index_to_pos, spec_index_to_pos, spec_pos_to_index, BlockId, BlockPos, Grid, UVec3,
};
use crate::cube::update::{offset_of, prototype_of};
use crate::custom::md::{
    custom_records, key_of, no_records, records_new, CustomMD, CustomState, PositionKey,
};
use crate::custom::update::{add_custom_block, is_custom_block};
use crate::merge::{is_valid_prototype, valid_prototype};
use crate::mesh::{
    AttributeId, Mesh, MeshAttribute, VertexValue,
};
use crate::mesh_reg::{spec_custom_attributes, MeshRegistry, MeshRegistryCommon};

verus! {

/// The mesh without any block, with one empty column for each of `columns`
/// attributes.
pub open spec fn empty_custom(columns: nat) -> CustomState {
    CustomState {
        columns: Seq::new(columns, |a: int| Seq::<VertexValue>::empty()),
        indices: Seq::<u32>::empty(),
        records: no_records(),
    }
}

/// The merged mesh of the free-form blocks among the first `upto` cells of the
/// grid: cell by cell in the order of the indices, each block is appended. There is
/// none where the registry holds an unfit prototype for one of the blocks, or where
/// the mesh has no room for them with 32-bit indices.
pub open spec fn spec_meshify_custom<R: MeshRegistry, const N: usize>(
    grid: &Grid<N>,
    reg: &R,
    ids: Seq<AttributeId>,
    upto: int,
) -> Option<CustomState>
    decreases upto,
{
    if upto <= 0 {
        Some(empty_custom(ids.len()))
    } else {
        match spec_meshify_custom(grid, reg, ids, upto - 1) {
            None => None,
            Some(s) => {
                let block = grid.cells()[upto - 1];
                let pos = spec_index_to_pos((upto - 1) as usize, grid.dims).unwrap();
                let proto = prototype_of(reg, block);
                if !is_custom_block(reg, block) {
                    Some(s)
                } else if valid_prototype(proto, ids) && s.vertices() + proto.spec_count_vertices()
                    <= u32::MAX && s.indices.len() + proto.indices@.len() <= u32::MAX {
                    Some(s.add(key_of(pos), proto, ids, offset_of(pos)))
                } else {
                    None
                }
            },
        }
    }
}

/// Whether the position that `key` stands for is a cell with an index below `bound`.
pub open spec fn placed_below<const N: usize>(grid: &Grid<N>, key: PositionKey, bound: int) -> bool {
    match spec_pos_to_index(UVec3 { x: key.0, y: key.1, z: key.2 }, grid.dims) {
        Some(w) => w < bound,
        None => false,
    }
}

/// Once no mesh can be made of some cells, none can be made of more cells.
pub proof fn lemma_meshify_custom_none<R: MeshRegistry, const N: usize>(
    grid: &Grid<N>,
    reg: &R,
    ids: Seq<AttributeId>,
    upto: int,
    end: int,
)
    requires
        0 <= upto <= end,
        spec_meshify_custom(grid, reg, ids, upto) is None,
    ensures
        spec_meshify_custom(grid, reg, ids, end) is None,
    decreases end - upto,
{
    if upto < end {
        lemma_meshify_custom_none(grid, reg, ids, upto, end - 1);
    }
}

/// Whether the sum of two sizes is a 32-bit quantity.
pub fn sum_fits(a: usize, b: usize) -> (r: bool)
    ensures
        r == (a + b <= u32::MAX),
{
    a <= 0xffff_ffff && b <= 0xffff_ffff - a
}

/// Meshify all of the free-form blocks in a chunk grid. Returns the mesh and its
/// metadata.
///
/// Returns `None` where the registry holds an unfit prototype for a free-form block
/// of the grid (one that is not in order itself, lacks an attribute that the merged
/// mesh tracks, or has positions too large to be moved), and where the vertices or
/// the indices of the blocks, cell by cell, come to more than a 32-bit index can
/// count.
pub fn meshify_custom_voxels<R: MeshRegistry, const N: usize>(reg: &R, grid: &Grid<N>) -> (r: Option<
    (Mesh, CustomMD),
>)
    requires
        grid.wf(),
    ensures
        match spec_meshify_custom(grid, reg, spec_custom_attributes(), N as int) {
            Some(s) => r matches Some((mesh, md)) && md.consistent(mesh) && mesh.wf() && md.dims
                == grid.dims
                && md.log@.len() == 0 && mesh.ids() == spec_custom_attributes() && md.state(mesh)
                == s,
            None => r is None,
        },
{
    let mut mesh = Mesh::new();
    let attributes = reg.custom_attributes();
    let mut a: usize = 0;
    while a < attributes.len()
        invariant
            a <= attributes@.len(),
            attributes@ == spec_custom_attributes(),
            mesh.attributes@.len() == a,
            mesh.indices@.len() == 0,
            forall|b: int|
                0 <= b < a ==> (#[trigger] mesh.attributes@[b]).id == attributes@[b]
                    && mesh.attributes@[b].values@.len() == 0,
        decreases attributes@.len() - a,
    {
        mesh.attributes.push(MeshAttribute { id: attributes[a], values: Vec::new() });
        a = a + 1;
    }
    let ghost ids = spec_custom_attributes();
    let mut md = CustomMD { vivi: records_new(), log: Vec::new(), dims: grid.dims };
    proof {
        assert(mesh.ids() =~= ids);
        let s = md.state(mesh);
        assert(s.columns =~~= empty_custom(ids.len()).columns);
        assert(s.indices =~= empty_custom(ids.len()).indices);
        assert(s == empty_custom(ids.len()));
    }
    let mut v: usize = 0;
    while v < N
        invariant
            v <= N,
            grid.wf(),
            md.consistent(mesh),
            md.dims == grid.dims,
            md.log@.len() == 0,
            mesh.ids() == ids,
            ids == spec_custom_attributes(),
            forall|k: PositionKey| #[trigger]
                custom_records(md.vivi).contains_key(k) ==> placed_below(grid, k, v as int),
            spec_meshify_custom(grid, reg, ids, v as int) == Some(md.state(mesh)),
        decreases N - v,
    {
        let block: BlockId = grid.cell(v);
        let block_pos: BlockPos = index_to_pos(v, grid.dims).unwrap();
        let block_mesh = reg.get_block_mesh_ref(&block);
        if block_mesh.is_custom() {
            let custom_mesh = block_mesh.unwrap();
            proof {
                assert(md.state(mesh).columns[0].len() == mesh.spec_count_vertices());
            }
            let fits: bool = is_valid_prototype(custom_mesh, &mesh) && sum_fits(
                mesh.count_vertices(),
                custom_mesh.count_vertices(),
            ) && sum_fits(mesh.indices.len(), custom_mesh.indices.len());
            if !fits {
                proof {
                    assert(spec_meshify_custom(grid, reg, ids, v + 1) is None);
                    lemma_meshify_custom_none(grid, reg, ids, v + 1, N as int);
                }
                return None;
            }
            proof {
                let k = key_of(block_pos);
                assert(UVec3 { x: k.0, y: k.1, z: k.2 } == block_pos);
                if custom_records(md.vivi).contains_key(k) {
                    assert(placed_below(grid, k, v as int));
                }
            }
            let ghost before = custom_records(md.vivi);
            add_custom_block(&mut mesh, &mut md.vivi, block_pos, custom_mesh);
            proof {
                assert forall|k: PositionKey| #[trigger]
                    custom_records(md.vivi).contains_key(k) implies placed_below(
                    grid,
                    k,
                    v + 1,
                ) by {
                    if k == key_of(block_pos) {
                        assert(UVec3 { x: k.0, y: k.1, z: k.2 } == block_pos);
                    } else {
                        assert(before.contains_key(k));
                        assert(placed_below(grid, k, v as int));
                    }
                }
            }
        }
        v = v + 1;
    }
    proof {
        md.lemma_consistent_mesh_wf(mesh);
    }
    Some((mesh, md))
}

} // verus!
