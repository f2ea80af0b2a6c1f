//! Telling whether a log of changes agrees with the blocks that a mesh holds.
use vstd::prelude::*;
use crate::chunk::{BlockId, BlockPos, Dimensions};
use crate::cube::update::{offset_of, prototype_of};
use crate::custom::md::{
    custom_records, key_of, lemma_add_wf, lemma_remove_wf, lies_before, CustomMD, CustomRecord,
    CustomState, PositionKey,
};
use crate::custom::update::{
    apply_custom_change, apply_custom_log, custom_change_error, custom_change_ok,
    custom_log_error, custom_log_ok, is_custom_block, lemma_custom_log_none,
};
use crate::merge::valid_prototype;
use crate::mesh::{AttributeId, Mesh};
use crate::mesh_reg::MeshRegistry;
use crate::xsprite::md::BlockChange;
use crate::BlockMeshChange;

verus! {

/// How many vertices and how many indices a block has.
pub type Sizes = (u32, u32);

/// What is known of a position after some changes: that a block of these sizes
/// stands there, or that none does.
pub type Standing = (BlockPos, Option<Sizes>);

/// The sizes of the block of a record.
pub open spec fn sizes_of(r: CustomRecord) -> (int, int) {
    (r.1 - r.0, r.3 - r.2)
}

/// What the latest of `notes` says of the position `key`, if any says anything.
pub open spec fn spec_lookup(notes: Seq<Standing>, key: PositionKey) -> Option<Option<Sizes>>
    decreases notes.len(),
{
    if notes.len() == 0 {
        None
    } else if key_of(notes.last().0) == key {
        Some(notes.last().1)
    } else {
        spec_lookup(notes.drop_last(), key)
    }
}

/// The notes tell what stands at `key` in the state `s`, which came from `s0`:
/// where they say nothing, all is as in `s0`.
pub open spec fn tracks(s0: CustomState, s: CustomState, notes: Seq<Standing>, key: PositionKey) -> bool {
    match spec_lookup(notes, key) {
        Some(Some(sizes)) => s.records.contains_key(key) && sizes_of(s.records[key]) == (
            sizes.0 as int,
            sizes.1 as int,
        ),
        Some(None) => !s.records.contains_key(key),
        None => (s.records.contains_key(key) <==> s0.records.contains_key(key)) && (
        s.records.contains_key(key) ==> sizes_of(s.records[key]) == sizes_of(s0.records[key])),
    }
}

/// A change with which nothing is wrong, and which agrees with the state, leaves a
/// state in order; only the block that it names comes or goes, and no other block
/// changes its size.
pub proof fn lemma_custom_change<R: MeshRegistry>(
    s: CustomState,
    reg: &R,
    ids: Seq<AttributeId>,
    dims: Dimensions,
    change: BlockChange,
)
    requires
        s.wf(),
        s.columns.len() == ids.len(),
        custom_change_error(reg, ids, dims, change) is None,
        custom_change_ok(s, reg, change),
    ensures
        apply_custom_change(s, reg, ids, change).wf(),
        apply_custom_change(s, reg, ids, change).columns.len() == ids.len(),
        ({
            let t = apply_custom_change(s, reg, ids, change);
            let key = key_of(change.2);
            let touched = is_custom_block(reg, change.1) && (change.0 == BlockMeshChange::Added
                || change.0 == BlockMeshChange::Broken);
            let proto = prototype_of(reg, change.1);
            &&& forall|k: PositionKey|
                !(touched && k == key) ==> (#[trigger] t.records.contains_key(k)
                    <==> s.records.contains_key(k)) && (s.records.contains_key(k) ==> sizes_of(
                    t.records[k],
                ) == sizes_of(s.records[k]))
            &&& touched && change.0 == BlockMeshChange::Added ==> {
                &&& t.records.contains_key(key)
                &&& sizes_of(t.records[key]) == (
                    proto.spec_count_vertices() as int,
                    proto.indices@.len() as int,
                )
                &&& t.vertices() == s.vertices() + proto.spec_count_vertices()
                &&& t.indices.len() == s.indices.len() + proto.indices@.len()
            }
            &&& touched && change.0 == BlockMeshChange::Broken ==> {
                &&& !t.records.contains_key(key)
                &&& t.vertices() == s.vertices() - sizes_of(s.records[key]).0
                &&& t.indices.len() == s.indices.len() - sizes_of(s.records[key]).1
            }
            &&& !touched ==> t == s
        }),
{
    let t = apply_custom_change(s, reg, ids, change);
    let key = key_of(change.2);
    if is_custom_block(reg, change.1) {
        let proto = prototype_of(reg, change.1);
        match change.0 {
            BlockMeshChange::Added => {
                lemma_add_wf(s, key, proto, ids, offset_of(change.2));
                assert(proto.ids().contains(ids[0]));
                let pa = proto.spec_attribute_position(ids[0]).unwrap();
                assert(proto.ids()[pa] == ids[0]);
                assert(proto.attributes@[pa].values@.len() == proto.spec_count_vertices());
                assert(t.columns[0].len() == s.columns[0].len() + proto.spec_count_vertices());
            },
            BlockMeshChange::Broken => {
                lemma_remove_wf(s, key);
                let r = s.records[key];
                assert(s.record_ok(key));
                assert(s.columns[0].len() == s.vertices());
                assert(t.columns[0].len() == s.vertices() - (r.1 - r.0));
                assert forall|k: PositionKey| k != key implies (#[trigger] t.records.contains_key(
                    k,
                ) <==> s.records.contains_key(k)) && (s.records.contains_key(k) ==> sizes_of(
                    t.records[k],
                ) == sizes_of(s.records[k])) by {
                    if s.records.contains_key(k) {
                        assert(s.record_ok(k));
                        let q = s.records[k];
                        if lies_before(r, q) {
                            assert(q.0 >= r.1 - r.0);
                            assert(q.2 >= r.3 - r.2);
                        }
                    }
                }
            },
            _ => {},
        }
    }
}

/// The states that a log without error, which agrees with the mesh, runs through
/// are all in order.
pub proof fn lemma_custom_log_states<R: MeshRegistry>(
    s: CustomState,
    reg: &R,
    ids: Seq<AttributeId>,
    dims: Dimensions,
    log: Seq<BlockChange>,
    upto: int,
)
    requires
        s.wf(),
        s.columns.len() == ids.len(),
        0 <= upto <= log.len(),
        custom_log_error(reg, ids, dims, log, upto) is None,
        custom_log_ok(s, reg, ids, log, upto),
    ensures
        apply_custom_log(s, reg, ids, log, upto).wf(),
        apply_custom_log(s, reg, ids, log, upto).columns.len() == ids.len(),
    decreases upto,
{
    if upto > 0 {
        lemma_custom_log_states(s, reg, ids, dims, log, upto - 1);
        lemma_custom_change(
            apply_custom_log(s, reg, ids, log, upto - 1),
            reg,
            ids,
            dims,
            log[upto - 1],
        );
    }
}

/// A log that agrees with the mesh agrees with it in its first changes, and a log
/// without error has no error in its first changes.
pub proof fn lemma_custom_log_part<R: MeshRegistry>(
    s: CustomState,
    reg: &R,
    ids: Seq<AttributeId>,
    dims: Dimensions,
    log: Seq<BlockChange>,
    upto: int,
    end: int,
)
    requires
        0 <= upto <= end,
    ensures
        custom_log_ok(s, reg, ids, log, end) ==> custom_log_ok(s, reg, ids, log, upto),
        custom_log_error(reg, ids, dims, log, end) is None ==> custom_log_error(
            reg,
            ids,
            dims,
            log,
            upto,
        ) is None,
    decreases end - upto,
{
    if upto < end {
        lemma_custom_log_part(s, reg, ids, dims, log, upto, end - 1);
    }
}

/// What stands at `pos` by the notes, or, where they say nothing, by the records.
fn lookup(md: &CustomMD, notes: &Vec<Standing>, pos: BlockPos, Ghost(mesh): Ghost<Mesh>) -> (r:
    Option<Sizes>)
    requires
        md.consistent(mesh),
    ensures
        match spec_lookup(notes@, key_of(pos)) {
            Some(e) => r == e,
            None => if custom_records(md.vivi).contains_key(key_of(pos)) {
                r is Some && (r.unwrap().0 as int, r.unwrap().1 as int) == sizes_of(
                    custom_records(md.vivi)[key_of(pos)],
                )
            } else {
                r is None
            },
        },
{
    let mut j: usize = notes.len();
    proof {
        assert(notes@.take(j as int) =~= notes@);
    }
    while j > 0
        invariant
            j <= notes@.len(),
            spec_lookup(notes@, key_of(pos)) == spec_lookup(notes@.take(j as int), key_of(pos)),
        decreases j,
    {
        let note: Standing = notes[j - 1];
        proof {
            let part = notes@.take(j as int);
            assert(part.last() == note);
            assert(part.drop_last() =~= notes@.take(j - 1));
        }
        if note.0 == pos {
            return note.1;
        }
        j = j - 1;
    }
    proof {
        assert(notes@.take(0).len() == 0);
    }
    match md.record_of(pos) {
        Some(record) => {
            proof {
                assert(md.state(mesh).record_ok(key_of(pos)));
            }
            Some((record.1 - record.0, record.3 - record.2))
        },
        None => None,
    }
}

/// Tells whether every change of the log agrees with the blocks that the mesh
/// holds at that time, and the mesh has room for all that is added. Nothing is
/// wrong with the changes themselves.
pub fn custom_log_agrees<R: MeshRegistry>(reg: &R, mesh: &Mesh, md: &CustomMD) -> (r: bool)
    requires
        md.consistent(*mesh),
        custom_log_error(reg, mesh.ids(), md.dims, md.log@, md.log@.len() as int) is None,
    ensures
        r == custom_log_ok(md.state(*mesh), reg, mesh.ids(), md.log@, md.log@.len() as int),
{
    let ghost s0 = md.state(*mesh);
    let ghost ids = mesh.ids();
    let ghost log = md.log@;
    let ghost dims = md.dims;
    let mut notes: Vec<Standing> = Vec::new();
    let mut vertices: usize = mesh.count_vertices();
    let mut indices: usize = mesh.indices.len();
    let n: usize = md.log.len();
    let mut i: usize = 0;
    while i < n
        invariant
            i <= n,
            n == log.len(),
            log == md.log@,
            dims == md.dims,
            ids == mesh.ids(),
            s0 == md.state(*mesh),
            md.consistent(*mesh),
            s0.columns.len() == ids.len(),
            custom_log_error(reg, ids, dims, log, n as int) is None,
            custom_log_ok(s0, reg, ids, log, i as int),
            vertices == apply_custom_log(s0, reg, ids, log, i as int).vertices(),
            indices == apply_custom_log(s0, reg, ids, log, i as int).indices.len(),
            forall|key: PositionKey| #[trigger]
                tracks(s0, apply_custom_log(s0, reg, ids, log, i as int), notes@, key),
        decreases n - i,
    {
        let ghost before = apply_custom_log(s0, reg, ids, log, i as int);
        let ghost notes_before = notes@;
        proof {
            lemma_custom_log_none(s0, reg, ids, dims, log, n as int, i as int);
            lemma_custom_log_part(s0, reg, ids, dims, log, i as int, n as int);
            lemma_custom_log_states(s0, reg, ids, dims, log, i as int);
        }
        let change: BlockChange = md.log[i];
        let block: BlockId = change.1;
        let block_mesh = reg.get_block_mesh_ref(&block);
        let ghost key = key_of(change.2);
        if block_mesh.is_custom() {
            let standing: Option<Sizes> = lookup(md, &notes, change.2, Ghost(*mesh));
            proof {
                assert(tracks(s0, before, notes@, key));
            }
            match change.0 {
                BlockMeshChange::Added => {
                    let proto = block_mesh.unwrap();
                    let count: usize = proto.count_vertices();
                    let length: usize = proto.indices.len();
                    if standing.is_some() || vertices > 0xffff_ffff || count > 0xffff_ffff
                        - vertices || indices > 0xffff_ffff || length > 0xffff_ffff - indices {
                        proof {
                            assert(!custom_change_ok(before, reg, change));
                            lemma_custom_log_part(s0, reg, ids, dims, log, i + 1, n as int);
                        }
                        return false;
                    }
                    notes.push((change.2, Some((count as u32, length as u32))));
                    vertices = vertices + count;
                    indices = indices + length;
                },
                BlockMeshChange::Broken => {
                    match standing {
                        None => {
                            proof {
                                assert(!custom_change_ok(before, reg, change));
                                lemma_custom_log_part(s0, reg, ids, dims, log, i + 1, n as int);
                            }
                            return false;
                        },
                        Some(sizes) => {
                            proof {
                                assert(before.record_ok(key));
                            }
                            notes.push((change.2, None));
                            vertices = vertices - sizes.0 as usize;
                            indices = indices - sizes.1 as usize;
                        },
                    }
                },
                _ => {},
            }
        }
        proof {
            lemma_custom_change(before, reg, ids, dims, change);
            let after = apply_custom_log(s0, reg, ids, log, i + 1);
            assert forall|k: PositionKey| #[trigger] tracks(s0, after, notes@, k) by {
                assert(tracks(s0, before, notes_before, k));
                if notes@.len() > notes_before.len() {
                    assert(notes@.drop_last() =~= notes_before);
                    assert(key_of(notes@.last().0) == key);
                }
            }
        }
        i = i + 1;
    }
    true
}

} // verus!
