//! Stitching two chunks that were generated apart.
use vstd::prelude::*;
use crate::chunk::{
    iter_blocks_on_edge, neighbor_across_chunk, spec_blocks_on_edge,
    spec_neighbor_across_chunk, spec_pos_to_index, BlockId, BlockPos, Dimensions, Grid,
    SurroundingBlocks,
};
use crate::cube::md::{CubeMD, QuadOwner, VoxelChange};
use crate::cube::update::is_cube_block;
use crate::face::Face;
use crate::mesh_reg::{MeshRegistry, MeshRegistryCommon};
use crate::BlockMeshChange;

verus! {

/// The neighbor record that knows only `block`, towards `side`.
pub open spec fn sole_neighbor(side: Face, block: BlockId) -> SurroundingBlocks<BlockId> {
    [
        if side == Face::Top {
            Some(block)
        } else {
            None
        },
        if side == Face::Bottom {
            Some(block)
        } else {
            None
        },
        if side == Face::Right {
            Some(block)
        } else {
            None
        },
        if side == Face::Left {
            Some(block)
        } else {
            None
        },
        if side == Face::Back {
            Some(block)
        } else {
            None
        },
        if side == Face::Front {
            Some(block)
        } else {
            None
        },
    ]
}

/// The cube that covers the cell `pos` of the border from the adjacent chunk, where
/// the cell has a quad towards that chunk.
pub open spec fn covering_cube<R: MeshRegistry, const N: usize>(
    owners: Seq<QuadOwner>,
    dims: Dimensions,
    reg: &R,
    side: Face,
    adjacent: &Grid<N>,
    pos: BlockPos,
) -> Option<BlockId> {
    match (spec_pos_to_index(pos, dims), spec_neighbor_across_chunk(pos, side, dims)) {
        (Some(v), Some(across)) => if owners.contains(QuadOwner { voxel: v, face: side }) {
            match adjacent.spec_get_block(across) {
                Some(b) => if is_cube_block(reg, b) {
                    Some(b)
                } else {
                    None
                },
                None => None,
            }
        } else {
            None
        },
        _ => None,
    }
}

/// The changes that stitching logs for the first `upto` of `positions`: for every
/// cell that a cube of the adjacent chunk covers, that its quad towards that chunk
/// is to be culled.
pub open spec fn stitch_changes<R: MeshRegistry, const N: usize>(
    owners: Seq<QuadOwner>,
    dims: Dimensions,
    reg: &R,
    side: Face,
    adjacent: &Grid<N>,
    positions: Seq<BlockPos>,
    upto: int,
) -> Seq<VoxelChange>
    decreases upto,
{
    if upto <= 0 {
        Seq::empty()
    } else {
        let rest = stitch_changes(owners, dims, reg, side, adjacent, positions, upto - 1);
        match covering_cube(owners, dims, reg, side, adjacent, positions[upto - 1]) {
            Some(b) => rest.push(
                (b, positions[upto - 1], BlockMeshChange::CullFaces, sole_neighbor(side, b)),
            ),
            None => rest,
        }
    }
}

/// This function irons out what is left from generating two adjacent chunks apart:
/// it logs, for every quad on the border of this chunk that a cube of the adjacent
/// chunk covers, that the quad is to be culled. The next update of the mesh
/// removes those quads.
///
/// - `reg`: the mesh registry
/// - `main_md`: the metadata of the mesh to change
/// - `connection_side`: from the point of view of the main mesh, where is the
///   adjacent chunk?
/// - `adjacent_chunk_grid`: the grid of the chunk to introduce, which has as many
///   cells as this chunk
pub fn introduce_adjacent_chunks<R: MeshRegistry, const N: usize>(
    reg: &R,
    main_md: &mut CubeMD,
    connection_side: Face,
    adjacent_chunk_grid: &Grid<N>,
)
    requires
        old(main_md).wf(),
        adjacent_chunk_grid.wf(),
        N == old(main_md).vivi.voxel_count(),
    ensures
        final(main_md).wf(),
        final(main_md).vivi == old(main_md).vivi,
        final(main_md).dims == old(main_md).dims,
        final(main_md).smooth_lighting_params == old(main_md).smooth_lighting_params,
        final(main_md).changed_voxels@ == old(main_md).changed_voxels@ + stitch_changes(
            old(main_md).vivi.owners(),
            old(main_md).dims,
            reg,
            connection_side,
            adjacent_chunk_grid,
            spec_blocks_on_edge(connection_side, old(main_md).dims, old(main_md).dims.volume()),
            spec_blocks_on_edge(
                connection_side,
                old(main_md).dims,
                old(main_md).dims.volume(),
            ).len() as int,
        ),
{
    let dims: Dimensions = main_md.dims;
    let positions = iter_blocks_on_edge(connection_side, dims);
    let ghost owners = main_md.vivi.owners();
    let ghost log0 = main_md.changed_voxels@;
    let mut i: usize = 0;
    while i < positions.len()
        invariant
            i <= positions@.len(),
            main_md.wf(),
            main_md.vivi == old(main_md).vivi,
            main_md.dims == dims,
            main_md.smooth_lighting_params == old(main_md).smooth_lighting_params,
            owners == main_md.vivi.owners(),
            main_md.changed_voxels@ == log0 + stitch_changes(
                owners,
                dims,
                reg,
                connection_side,
                adjacent_chunk_grid,
                positions@,
                i as int,
            ),
        decreases positions@.len() - i,
    {
        let block_pos: BlockPos = positions[i];
        let ghost before = stitch_changes(
            owners,
            dims,
            reg,
            connection_side,
            adjacent_chunk_grid,
            positions@,
            i as int,
        );
        if main_md.quad_exists(block_pos, connection_side) {
            match neighbor_across_chunk(block_pos, connection_side, dims) {
                Some(adj_block_pos) => {
                    match adjacent_chunk_grid.get_block(adj_block_pos) {
                        Some(adj_block) => {
                            if reg.is_cube(&adj_block) {
                                let mut tmp: SurroundingBlocks<BlockId> = [
                                    None,
                                    None,
                                    None,
                                    None,
                                    None,
                                    None,
                                ];
                                tmp[connection_side.to_index()] = Some(adj_block);
                                assert(tmp =~= sole_neighbor(connection_side, adj_block));
                                main_md.log(
                                    BlockMeshChange::CullFaces,
                                    block_pos,
                                    adj_block,
                                    tmp,
                                );
                                assert(main_md.changed_voxels@ =~= log0 + before.push(
                                    (
                                        adj_block,
                                        block_pos,
                                        BlockMeshChange::CullFaces,
                                        sole_neighbor(connection_side, adj_block),
                                    ),
                                ));
                            }
                        },
                        None => {},
                    }
                },
                None => {},
            }
        }
        i = i + 1;
    }
}

} // verus!
