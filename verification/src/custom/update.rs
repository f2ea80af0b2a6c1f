//! Updating a merged mesh of free-form blocks in place from the logged changes.
use vstd::prelude::*;
use crate::block_mesh::BlockMeshType;
use crate::chunk::{pos_in_bounds, spec_pos_in_bounds, BlockId, BlockPos, Dimensions, UVec3};
use crate::cube::update::{offset_of, prototype_of};
use crate::custom::md::{
    custom_records, index_moved_up, key_of, lemma_add_wf, lemma_remove_wf, moved_up, records_get,
    records_insert, records_keys, records_remove, CustomMD, CustomRecord, CustomState,
    CustomVIVI, PositionKey,
};
use crate::merge::{append_prototype, is_valid_prototype, proto_column, valid_prototype};
use crate::mesh::{block_offset, AttributeId, Mesh};
use crate::mesh_reg::MeshRegistry;
use crate::xsprite::md::BlockChange;
use crate::{BlockMeshChange, MeshError};

verus! {

/// Whether the registry holds a free-form mesh for `block`.
pub open spec fn is_custom_block<R: MeshRegistry>(reg: &R, block: BlockId) -> bool {
    reg.block_mesh(block).spec_get_type() == BlockMeshType::Custom
}

/// Add a free-form block to the mesh: the prototype is appended, moved to the
/// block, and the position records where it stands.
pub fn add_custom_block(
    mesh: &mut Mesh,
    vivi: &mut CustomVIVI,
    block_pos: BlockPos,
    voxel_mesh: &Mesh,
)
    requires
        old(mesh).ids().no_duplicates(),
        (CustomState {
            columns: old(mesh).columns(),
            indices: old(mesh).indices@,
            records: custom_records(*old(vivi)),
        }).wf(),
        valid_prototype(*voxel_mesh, old(mesh).ids()),
        !custom_records(*old(vivi)).contains_key(key_of(block_pos)),
        old(mesh).spec_count_vertices() + voxel_mesh.spec_count_vertices() <= u32::MAX,
        old(mesh).indices@.len() + voxel_mesh.indices@.len() <= u32::MAX,
    ensures
        final(mesh).ids() == old(mesh).ids(),
        (CustomState {
            columns: final(mesh).columns(),
            indices: final(mesh).indices@,
            records: custom_records(*final(vivi)),
        }) == (CustomState {
            columns: old(mesh).columns(),
            indices: old(mesh).indices@,
            records: custom_records(*old(vivi)),
        }).add(key_of(block_pos), *voxel_mesh, old(mesh).ids(), offset_of(block_pos)),
        (CustomState {
            columns: final(mesh).columns(),
            indices: final(mesh).indices@,
            records: custom_records(*final(vivi)),
        }).wf(),
{
    let ghost s0 = CustomState {
        columns: mesh.columns(),
        indices: mesh.indices@,
        records: custom_records(*vivi),
    };
    let ghost ids = mesh.ids();
    proof {
        assert(crate::merge::columns_aligned(*mesh)) by {
            assert forall|a: int| 0 <= a < mesh.attributes@.len() implies (
            #[trigger] mesh.attributes@[a]).values@.len() == mesh.spec_count_vertices() by {
                assert(s0.columns[a].len() == s0.vertices());
            }
        }
    }
    let ver_count: usize = mesh.count_vertices();
    let indices_count: usize = mesh.indices.len();
    let position_offset = block_offset(block_pos.x, block_pos.y, block_pos.z);
    append_prototype(mesh, voxel_mesh, position_offset);
    let ver_count2: usize = mesh.count_vertices();
    let indices_count2: usize = mesh.indices.len();
    records_insert(
        vivi,
        block_pos,
        (ver_count as u32, ver_count2 as u32, indices_count as u32, indices_count2 as u32),
    );
    proof {
        let s1 = CustomState {
            columns: mesh.columns(),
            indices: mesh.indices@,
            records: custom_records(*vivi),
        };
        let t = s0.add(key_of(block_pos), *voxel_mesh, ids, offset_of(block_pos));
        assert(s1.columns =~~= t.columns) by {
            assert forall|a: int| 0 <= a < s1.columns.len() implies s1.columns[a]
                =~= t.columns[a] by {
                assert(mesh.attributes@[a].values@ == old(mesh).attributes@[a].values@
                    + proto_column(*voxel_mesh, ids[a], position_offset));
            }
        }
        assert(s1.indices =~= t.indices);
        assert(s1.records =~= t.records);
        assert(s1 == t);
        lemma_add_wf(s0, key_of(block_pos), *voxel_mesh, ids, offset_of(block_pos));
    }
}

/// Remove a free-form block from the mesh: its vertices and indices are cut out,
/// the indices behind them are moved up, and so are the records of the blocks
/// behind.
pub fn remove_custom_voxel(mesh: &mut Mesh, vivi: &mut CustomVIVI, block_pos: BlockPos)
    requires
        old(mesh).ids().no_duplicates(),
        (CustomState {
            columns: old(mesh).columns(),
            indices: old(mesh).indices@,
            records: custom_records(*old(vivi)),
        }).wf(),
        custom_records(*old(vivi)).contains_key(key_of(block_pos)),
    ensures
        final(mesh).ids() == old(mesh).ids(),
        (CustomState {
            columns: final(mesh).columns(),
            indices: final(mesh).indices@,
            records: custom_records(*final(vivi)),
        }) == (CustomState {
            columns: old(mesh).columns(),
            indices: old(mesh).indices@,
            records: custom_records(*old(vivi)),
        }).remove(key_of(block_pos)),
        (CustomState {
            columns: final(mesh).columns(),
            indices: final(mesh).indices@,
            records: custom_records(*final(vivi)),
        }).wf(),
{
    let ghost s0 = CustomState {
        columns: mesh.columns(),
        indices: mesh.indices@,
        records: custom_records(*vivi),
    };
    let ghost ids = mesh.ids();
    let ghost key = key_of(block_pos);
    let ghost records0 = custom_records(*vivi);
    let ghost n = s0.vertices() as int;
    let record: CustomRecord = records_remove(vivi, block_pos).unwrap();
    let ghost records1 = custom_records(*vivi);
    let (vertex_start, vertex_end, index_start, index_end) = record;
    proof {
        assert(s0.record_ok(key));
    }
    let vertex_count: u32 = vertex_end - vertex_start;
    let indices_count: u32 = index_end - index_start;
    // remove vertices
    let attributes: usize = mesh.attributes.len();
    let mut a: usize = 0;
    proof {
        assert forall|b: int| 0 <= b < attributes implies (#[trigger] old(mesh).attributes@[b]).values@.len()
            == n by {
            assert(s0.columns[b].len() == n);
        }
    }
    while a < attributes
        invariant
            a <= attributes,
            attributes == mesh.attributes@.len(),
            attributes == old(mesh).attributes@.len(),
            mesh.ids() == ids,
            mesh.indices == old(mesh).indices,
            vertex_start <= vertex_end <= n,
            vertex_count == vertex_end - vertex_start,
            forall|b: int|
                0 <= b < attributes ==> (#[trigger] old(mesh).attributes@[b]).values@.len() == n,
            forall|b: int|
                0 <= b < a ==> (#[trigger] mesh.attributes@[b]).values@ == old(mesh).attributes@[b].values@.take(vertex_start as int) + old(mesh).attributes@[b].values@.skip(vertex_end as int),
            forall|b: int|
                a <= b < attributes ==> (#[trigger] mesh.attributes@[b]).values@ == old(mesh).attributes@[b].values@,
        decreases attributes - a,
    {
        let ghost before = mesh.attributes@[a as int].values@;
        proof {
            assert(old(mesh).attributes@[a as int].values@.len() == n);
        }
        let mut t: u32 = 0;
        while t < vertex_count
            invariant
                t <= vertex_count,
                a < attributes,
                attributes == mesh.attributes@.len(),
                mesh.ids() == ids,
                mesh.indices == old(mesh).indices,
                before.len() == n,
                vertex_start <= vertex_end <= n,
                vertex_count == vertex_end - vertex_start,
                mesh.attributes@[a as int].values@ == before.take(vertex_start as int)
                    + before.skip(vertex_start + t),
                forall|b: int|
                    0 <= b < a ==> (#[trigger] mesh.attributes@[b]).values@ == old(mesh).attributes@[b].values@.take(vertex_start as int) + old(mesh).attributes@[b].values@.skip(vertex_end as int),
                forall|b: int|
                    a < b < attributes ==> (#[trigger] mesh.attributes@[b]).values@ == old(mesh).attributes@[b].values@,
            decreases vertex_count - t,
        {
            let ghost attrs_before = mesh.attributes@;
            let ghost ids_before = mesh.ids();
            mesh.attributes[a].values.remove(vertex_start as usize);
            proof {
                assert(mesh.attributes@[a as int].values@ =~= before.take(vertex_start as int)
                    + before.skip(vertex_start + t + 1));
                assert forall|b: int| 0 <= b < attributes && b != a implies mesh.attributes@[b]
                    == attrs_before[b] by {}
                assert(mesh.ids() =~= ids_before);
            }
            t = t + 1;
        }
        a = a + 1;
    }
    // remove indices & offset the rest
    let mut t: u32 = 0;
    while t < indices_count
        invariant
            t <= indices_count,
            index_start <= index_end <= old(mesh).indices@.len(),
            indices_count == index_end - index_start,
            mesh.attributes@.len() == attributes,
            mesh.ids() == ids,
            forall|b: int|
                0 <= b < attributes ==> (#[trigger] mesh.attributes@[b]).values@ == old(mesh).attributes@[b].values@.take(vertex_start as int) + old(mesh).attributes@[b].values@.skip(vertex_end as int),
            mesh.indices@ == old(mesh).indices@.take(index_start as int) + old(mesh).indices@.skip(index_start + t),
        decreases indices_count - t,
    {
        let ghost attrs_before = mesh.attributes@;
        mesh.indices.remove(index_start as usize);
        proof {
            assert(mesh.indices@ =~= old(mesh).indices@.take(index_start as int) + old(mesh).indices@.skip(index_start + t + 1));
            assert(mesh.attributes@ == attrs_before);
        }
        t = t + 1;
    }
    let ghost cut = mesh.indices@;
    let remaining: usize = mesh.indices.len();
    let mut i: usize = 0;
    while i < remaining
        invariant
            i <= remaining,
            remaining == cut.len(),
            remaining == mesh.indices@.len(),
            s0.wf(),
            s0.records.contains_key(key),
            s0.records[key] == record,
            record == (vertex_start, vertex_end, index_start, index_end),
            vertex_count == vertex_end - vertex_start,
            indices_count == index_end - index_start,
            s0.indices == old(mesh).indices@,
            index_start <= index_end <= old(mesh).indices@.len(),
            cut == old(mesh).indices@.take(index_start as int) + old(mesh).indices@.skip(
                index_end as int,
            ),
            mesh.attributes@.len() == attributes,
            mesh.ids() == ids,
            forall|b: int|
                0 <= b < attributes ==> (#[trigger] mesh.attributes@[b]).values@ == old(mesh).attributes@[b].values@.take(vertex_start as int) + old(mesh).attributes@[b].values@.skip(vertex_end as int),
            forall|j: int|
                0 <= j < i ==> (#[trigger] mesh.indices@[j]) == index_moved_up(
                    cut[j],
                    vertex_start,
                    vertex_count as int,
                ),
            forall|j: int| i <= j < remaining ==> (#[trigger] mesh.indices@[j]) == cut[j],
        decreases remaining - i,
    {
        let value: u32 = mesh.indices[i];
        proof {
            let p = if i < index_start {
                i as int
            } else {
                i + indices_count
            };
            assert(cut[i as int] == s0.indices[p]);
            assert(s0.index_outside(key, p));
        }
        if value > vertex_start {
            let ghost attrs_before = mesh.attributes@;
            mesh.indices[i] = value - vertex_count;
            proof {
                assert(mesh.attributes@ == attrs_before);
            }
        }
        i = i + 1;
    }
    // move the records of the blocks behind
    let keys = records_keys(vivi);
    let mut i: usize = 0;
    while i < keys.len()
        invariant
            i <= keys@.len(),
            keys@.no_duplicates(),
            forall|pos: BlockPos| #[trigger]
                keys@.contains(pos) <==> records1.contains_key(key_of(pos)),
            s0.wf(),
            s0.records == records0,
            records0.contains_key(key),
            records0[key] == record,
            records1 == records0.remove(key),
            record == (vertex_start, vertex_end, index_start, index_end),
            vertex_start <= vertex_end,
            index_start <= index_end,
            vertex_count == vertex_end - vertex_start,
            indices_count == index_end - index_start,
            custom_records(*vivi).dom() == records1.dom(),
            forall|k: PositionKey| #[trigger]
                records1.contains_key(k) ==> custom_records(*vivi)[k] == (if exists|j: int|
                    0 <= j < i && key_of(keys@[j]) == k {
                    moved_up(records1[k], record)
                } else {
                    records1[k]
                }),
        decreases keys@.len() - i,
    {
        let pos: BlockPos = keys[i];
        let ghost k = key_of(pos);
        let ghost before = custom_records(*vivi);
        proof {
            assert(keys@.contains(pos));
            assert(records1.contains_key(k));
            assert(before.dom().contains(k));
            if exists|j: int| 0 <= j < i && key_of(keys@[j]) == k {
                let j = choose|j: int| 0 <= j < i && key_of(keys@[j]) == k;
                assert(keys@[j] == pos);
            }
            assert(s0.record_ok(k));
        }
        let q: CustomRecord = records_get(vivi, pos).unwrap();
        if vertex_end <= q.0 && index_end <= q.2 {
            records_insert(
                vivi,
                pos,
                (q.0 - vertex_count, q.1 - vertex_count, q.2 - indices_count, q.3 - indices_count),
            );
        }
        proof {
            let now = custom_records(*vivi);
            assert(now.dom() =~= records1.dom());
            assert forall|k2: PositionKey| #[trigger] records1.contains_key(k2) implies now[k2] == (
            if exists|j: int| 0 <= j < i + 1 && key_of(keys@[j]) == k2 {
                moved_up(records1[k2], record)
            } else {
                records1[k2]
            }) by {
                if k2 == k {
                    assert(key_of(keys@[i as int]) == k2);
                } else {
                    assert(now[k2] == before[k2]);
                    if exists|j: int| 0 <= j < i + 1 && key_of(keys@[j]) == k2 {
                        let j = choose|j: int| 0 <= j < i + 1 && key_of(keys@[j]) == k2;
                        assert(j < i);
                    }
                }
            }
        }
        i = i + 1;
    }
    proof {
        let s1 = CustomState {
            columns: mesh.columns(),
            indices: mesh.indices@,
            records: custom_records(*vivi),
        };
        let t = s0.remove(key);
        assert(s1.columns =~~= t.columns) by {
            assert forall|b: int| 0 <= b < attributes implies s1.columns[b] =~= t.columns[b] by {
                assert(mesh.attributes@[b].values@ == old(mesh).attributes@[b].values@.take(
                    vertex_start as int,
                ) + old(mesh).attributes@[b].values@.skip(vertex_end as int));
            }
        }
        assert(s1.indices =~= t.indices) by {
            assert forall|j: int| 0 <= j < s1.indices.len() implies s1.indices[j]
                == t.indices[j] by {
                assert(mesh.indices@[j] == index_moved_up(
                    cut[j],
                    vertex_start,
                    vertex_count as int,
                ));
            }
        }
        assert(s1.records =~= t.records) by {
            assert forall|k: PositionKey| t.records.contains_key(k) implies s1.records[k]
                == t.records[k] by {
                let pos = UVec3 { x: k.0, y: k.1, z: k.2 };
                assert(key_of(pos) == k);
                assert(keys@.contains(pos));
                let j = choose|j: int| 0 <= j < keys@.len() && keys@[j] == pos;
                assert(key_of(keys@[j]) == k);
            }
        }
        assert(s1 == t);
        lemma_remove_wf(s0, key);
    }
}

/// What is wrong with a logged change, if anything: its position must be a cell of
/// the chunk, and a block that is added must have a prototype that can be appended.
/// A change of a block that is no free-form block is passed over.
pub open spec fn custom_change_error<R: MeshRegistry>(
    reg: &R,
    ids: Seq<AttributeId>,
    dims: Dimensions,
    change: BlockChange,
) -> Option<MeshError> {
    if !is_custom_block(reg, change.1) {
        None
    } else if !spec_pos_in_bounds(change.2, dims) {
        Some(MeshError::OutOfBounds)
    } else if change.0 == BlockMeshChange::Added && !valid_prototype(
        prototype_of(reg, change.1),
        ids,
    ) {
        Some(MeshError::RegistryMismatch)
    } else {
        None
    }
}

/// What is wrong with the first of the first `upto` changes with which something
/// is wrong.
pub open spec fn custom_log_error<R: MeshRegistry>(
    reg: &R,
    ids: Seq<AttributeId>,
    dims: Dimensions,
    log: Seq<BlockChange>,
    upto: int,
) -> Option<MeshError>
    decreases upto,
{
    if upto <= 0 {
        None
    } else {
        match custom_log_error(reg, ids, dims, log, upto - 1) {
            Some(e) => Some(e),
            None => custom_change_error(reg, ids, dims, log[upto - 1]),
        }
    }
}

/// The state after one change: a block that is added stands at the end, one that
/// is broken is cut out. Other changes, and changes of blocks that are no free-form
/// blocks, leave the state as it is.
pub open spec fn apply_custom_change<R: MeshRegistry>(
    s: CustomState,
    reg: &R,
    ids: Seq<AttributeId>,
    change: BlockChange,
) -> CustomState {
    if !is_custom_block(reg, change.1) {
        s
    } else {
        match change.0 {
            BlockMeshChange::Added => s.add(
                key_of(change.2),
                prototype_of(reg, change.1),
                ids,
                offset_of(change.2),
            ),
            BlockMeshChange::Broken => s.remove(key_of(change.2)),
            _ => s,
        }
    }
}

/// The state after the first `upto` changes of the log.
pub open spec fn apply_custom_log<R: MeshRegistry>(
    s: CustomState,
    reg: &R,
    ids: Seq<AttributeId>,
    log: Seq<BlockChange>,
    upto: int,
) -> CustomState
    decreases upto,
{
    if upto <= 0 {
        s
    } else {
        apply_custom_change(apply_custom_log(s, reg, ids, log, upto - 1), reg, ids, log[upto - 1])
    }
}

/// The change agrees with the state: a block is added where there is none, and
/// the mesh has room for it; a block is broken where there is one.
pub open spec fn custom_change_ok<R: MeshRegistry>(s: CustomState, reg: &R, change: BlockChange) -> bool {
    is_custom_block(reg, change.1) ==> match change.0 {
        BlockMeshChange::Added => {
            &&& !s.records.contains_key(key_of(change.2))
            &&& s.vertices() + prototype_of(reg, change.1).spec_count_vertices() <= u32::MAX
            &&& s.indices.len() + prototype_of(reg, change.1).indices@.len() <= u32::MAX
        },
        BlockMeshChange::Broken => s.records.contains_key(key_of(change.2)),
        _ => true,
    }
}

/// Each of the first `upto` changes agrees with the state that the changes before
/// it leave.
pub open spec fn custom_log_ok<R: MeshRegistry>(
    s: CustomState,
    reg: &R,
    ids: Seq<AttributeId>,
    log: Seq<BlockChange>,
    upto: int,
) -> bool
    decreases upto,
{
    if upto <= 0 {
        true
    } else {
        &&& custom_log_ok(s, reg, ids, log, upto - 1)
        &&& custom_change_ok(apply_custom_log(s, reg, ids, log, upto - 1), reg, log[upto - 1])
    }
}

/// Tells what is wrong with a logged change, if anything.
pub fn check_custom_change<R: MeshRegistry>(
    reg: &R,
    mesh: &Mesh,
    dims: Dimensions,
    change: &BlockChange,
) -> (r: Option<MeshError>)
    ensures
        r == custom_change_error(reg, mesh.ids(), dims, *change),
{
    let block: BlockId = change.1;
    let block_mesh = reg.get_block_mesh_ref(&block);
    if !block_mesh.is_custom() {
        return None;
    }
    if !pos_in_bounds(change.2, dims) {
        return Some(MeshError::OutOfBounds);
    }
    match change.0 {
        BlockMeshChange::Added => {
            if is_valid_prototype(block_mesh.unwrap(), mesh) {
                None
            } else {
                Some(MeshError::RegistryMismatch)
            }
        },
        _ => None,
    }
}

/// An error among the first changes is the error of the whole log.
pub proof fn lemma_custom_log_error_stays<R: MeshRegistry>(
    reg: &R,
    ids: Seq<AttributeId>,
    dims: Dimensions,
    log: Seq<BlockChange>,
    upto: int,
    end: int,
)
    requires
        0 <= upto <= end,
        custom_log_error(reg, ids, dims, log, upto) is Some,
    ensures
        custom_log_error(reg, ids, dims, log, end) == custom_log_error(reg, ids, dims, log, upto),
    decreases end - upto,
{
    if upto < end {
        lemma_custom_log_error_stays(reg, ids, dims, log, upto, end - 1);
    }
}

/// In a log without error nothing is wrong with any change, and every change of a
/// log that agrees with the state agrees with the state before it.
pub proof fn lemma_custom_log_none<R: MeshRegistry>(
    s: CustomState,
    reg: &R,
    ids: Seq<AttributeId>,
    dims: Dimensions,
    log: Seq<BlockChange>,
    end: int,
    i: int,
)
    requires
        0 <= i < end,
    ensures
        custom_log_error(reg, ids, dims, log, end) is None ==> custom_change_error(
            reg,
            ids,
            dims,
            log[i],
        ) is None,
        custom_log_ok(s, reg, ids, log, end) ==> custom_change_ok(
            apply_custom_log(s, reg, ids, log, i),
            reg,
            log[i],
        ),
    decreases end - i,
{
    if i + 1 < end {
        lemma_custom_log_none(s, reg, ids, dims, log, end - 1, i);
    }
}

/// Why the log of `md` cannot be applied to `mesh`, if it cannot: the error of the
/// first change with which something is wrong, or, where nothing is wrong with the
/// changes themselves, that one of them does not agree with the blocks that the mesh
/// holds at that time.
pub open spec fn custom_log_verdict<R: MeshRegistry>(md: CustomMD, mesh: Mesh, reg: &R) -> Option<
    MeshError,
> {
    match custom_log_error(reg, mesh.ids(), md.dims, md.log@, md.log@.len() as int) {
        Some(e) => Some(e),
        None => if custom_log_ok(md.state(mesh), reg, mesh.ids(), md.log@, md.log@.len() as int) {
            None
        } else {
            Some(MeshError::InvariantViolation)
        },
    }
}

/// Update the merged mesh of free-form blocks according to the logged changes, in
/// the order in which they were logged, and clear the log.
///
/// Where the log cannot be applied (the position of a change lies outside the
/// chunk, the registry holds an unfit prototype for a block that is added, a block
/// is added where one stands or broken where none stands, or the mesh has no room
/// for a block), nothing is applied: mesh and metadata stay as they are, and the
/// error comes back.
pub fn update_custom_mesh<R: MeshRegistry>(reg: &R, mesh: &mut Mesh, md: &mut CustomMD) -> (r: Result<
    (),
    MeshError,
>)
    requires
        old(md).consistent(*old(mesh)),
    ensures
        final(md).consistent(*final(mesh)),
        final(mesh).wf(),
        final(mesh).ids() == old(mesh).ids(),
        final(md).dims == old(md).dims,
        match custom_log_verdict(*old(md), *old(mesh), reg) {
            Some(e) => r == Err::<(), MeshError>(e) && *final(mesh) == *old(mesh) && *final(md)
                == *old(md),
            None => r is Ok && final(md).log@.len() == 0 && final(md).state(*final(mesh))
                == apply_custom_log(
                old(md).state(*old(mesh)),
                reg,
                old(mesh).ids(),
                old(md).log@,
                old(md).log@.len() as int,
            ),
        },
{
    let ghost ids = mesh.ids();
    let ghost log = md.log@;
    let ghost s0 = md.state(*mesh);
    let dims: Dimensions = md.dims;
    let n: usize = md.log.len();
    let mut i: usize = 0;
    while i < n
        invariant
            i <= n,
            n == log.len(),
            log == md.log@,
            *md == *old(md),
            *mesh == *old(mesh),
            md.consistent(*mesh),
            ids == mesh.ids(),
            dims == md.dims,
            s0 == md.state(*mesh),
            custom_log_error(reg, ids, dims, log, i as int) is None,
        decreases n - i,
    {
        match check_custom_change(reg, mesh, dims, &md.log[i]) {
            Some(e) => {
                proof {
                    lemma_custom_log_error_stays(reg, ids, dims, log, i + 1, n as int);
                    md.lemma_consistent_mesh_wf(*mesh);
                }
                return Err(e);
            },
            None => {},
        }
        i = i + 1;
    }
    if !crate::custom::agree::custom_log_agrees(reg, mesh, md) {
        proof {
            md.lemma_consistent_mesh_wf(*mesh);
        }
        return Err(MeshError::InvariantViolation);
    }
    let mut i: usize = 0;
    while i < n
        invariant
            i <= n,
            n == log.len(),
            log == md.log@,
            md.dims == dims,
            md.consistent(*mesh),
            mesh.ids() == ids,
            custom_log_error(reg, ids, dims, log, n as int) is None,
            custom_log_ok(s0, reg, ids, log, n as int),
            md.state(*mesh) == apply_custom_log(s0, reg, ids, log, i as int),
        decreases n - i,
    {
        proof {
            lemma_custom_log_none(s0, reg, ids, dims, log, n as int, i as int);
        }
        let change: BlockChange = md.log[i];
        let block_mesh = reg.get_block_mesh_ref(&change.1);
        if block_mesh.is_custom() {
            match change.0 {
                BlockMeshChange::Added => {
                    let proto = block_mesh.unwrap();
                    proof {
                        assert(md.state(*mesh).columns[0].len() == mesh.spec_count_vertices());
                    }
                    add_custom_block(mesh, &mut md.vivi, change.2, proto);
                },
                BlockMeshChange::Broken => {
                    remove_custom_voxel(mesh, &mut md.vivi, change.2);
                },
                _ => {},
            }
        }
        i = i + 1;
    }
    md.log.clear();
    proof {
        md.lemma_consistent_mesh_wf(*mesh);
    }
    Ok(())
}

} // verus!
