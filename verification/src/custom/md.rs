//! The bookkeeping that ties the blocks of a merged mesh of free-form blocks to
//! their positions.
use vstd::prelude::*;
use bevy_utils::HashMap;
use crate::chunk::{BlockId, BlockPos, Dimensions, UVec3};
use crate::merge::{proto_column, proto_indices};
use crate::mesh::{AttributeId, Mesh, VertexValue};
use crate::xsprite::md::BlockChange;
use crate::BlockMeshChange;

verus! {

/// Place of a vertex in a merged mesh.
pub type VertexIndex = u32;

/// Place of an index in a merged mesh.
pub type IndexIndex = u32;

/// What is recorded of a block: where its vertices start and end, and where its
/// indices start and end.
pub type CustomRecord = (VertexIndex, VertexIndex, IndexIndex, IndexIndex);

/// The position of a block as the key under which its record is held.
pub type PositionKey = (u32, u32, u32);

/// The records of the blocks of a merged mesh, by the position of the block. The
/// records are held in a hash map of `bevy_utils`.
#[verifier::external_body]
pub struct CustomVIVI {
    map: HashMap<PositionKey, CustomRecord>,
}

/// What the map holds: the record of each position that has one.
pub uninterp spec fn custom_records(vivi: CustomVIVI) -> Map<PositionKey, CustomRecord>;

/// The key that stands for `pos`.
pub open spec fn key_of(pos: BlockPos) -> PositionKey {
    (pos.x, pos.y, pos.z)
}

/// No records at all.
pub open spec fn no_records() -> Map<PositionKey, CustomRecord> {
    Map::empty()
}

/// `HashMap::new` of `bevy_utils` (hashbrown): the new map holds no record.
#[verifier::external_body]
pub(crate) fn records_new() -> (r: CustomVIVI)
    ensures
        custom_records(r) == no_records(),
{
    CustomVIVI { map: HashMap::new() }
}

/// `HashMap::insert`: afterwards the map holds `record` for the position, and all
/// other records as before. Returns the record that the position had.
#[verifier::external_body]
pub(crate) fn records_insert(vivi: &mut CustomVIVI, pos: BlockPos, record: CustomRecord) -> (r:
    Option<CustomRecord>)
    ensures
        custom_records(*final(vivi)) == custom_records(*old(vivi)).insert(key_of(pos), record),
        r == (if custom_records(*old(vivi)).contains_key(key_of(pos)) {
            Some(custom_records(*old(vivi))[key_of(pos)])
        } else {
            None
        }),
{
    vivi.map.insert((pos.x, pos.y, pos.z), record)
}

/// `HashMap::remove`: afterwards the map holds no record for the position, and all
/// other records as before. Returns the record that the position had.
#[verifier::external_body]
pub(crate) fn records_remove(vivi: &mut CustomVIVI, pos: BlockPos) -> (r: Option<CustomRecord>)
    ensures
        custom_records(*final(vivi)) == custom_records(*old(vivi)).remove(key_of(pos)),
        r == (if custom_records(*old(vivi)).contains_key(key_of(pos)) {
            Some(custom_records(*old(vivi))[key_of(pos)])
        } else {
            None
        }),
{
    vivi.map.remove(&(pos.x, pos.y, pos.z))
}

/// `HashMap::get`: the record that the map holds for the position, if any.
#[verifier::external_body]
pub(crate) fn records_get(vivi: &CustomVIVI, pos: BlockPos) -> (r: Option<CustomRecord>)
    ensures
        r == (if custom_records(*vivi).contains_key(key_of(pos)) {
            Some(custom_records(*vivi)[key_of(pos)])
        } else {
            None
        }),
{
    vivi.map.get(&(pos.x, pos.y, pos.z)).copied()
}

/// `HashMap::keys`: the positions that have a record, each once, in no
/// particular order.
#[verifier::external_body]
pub(crate) fn records_keys(vivi: &CustomVIVI) -> (r: Vec<BlockPos>)
    ensures
        r@.no_duplicates(),
        forall|pos: BlockPos| #[trigger]
            r@.contains(pos) <==> custom_records(*vivi).contains_key(key_of(pos)),
{
    vivi.map.keys().map(|k| UVec3 { x: k.0, y: k.1, z: k.2 }).collect()
}

/// A merged mesh of free-form blocks with its records, as plain values.
pub struct CustomState {
    /// The attribute columns.
    pub columns: Seq<Seq<VertexValue>>,
    /// The triangle indices.
    pub indices: Seq<u32>,
    /// The record of each block.
    pub records: Map<PositionKey, CustomRecord>,
}

/// The record `a` lies before the record `b`, in the vertices and in the indices.
pub open spec fn lies_before(a: CustomRecord, b: CustomRecord) -> bool {
    a.1 <= b.0 && a.3 <= b.2
}

/// Two records do not overlap.
pub open spec fn apart(a: CustomRecord, b: CustomRecord) -> bool {
    lies_before(a, b) || lies_before(b, a)
}

/// The record `q` once the block of the record `r` is gone from the mesh: the
/// records behind `r` move up.
pub open spec fn moved_up(q: CustomRecord, r: CustomRecord) -> CustomRecord {
    if lies_before(r, q) {
        (
            (q.0 - (r.1 - r.0)) as u32,
            (q.1 - (r.1 - r.0)) as u32,
            (q.2 - (r.3 - r.2)) as u32,
            (q.3 - (r.3 - r.2)) as u32,
        )
    } else {
        q
    }
}

/// The index `v` once the `count` vertices from `start` on are gone from the mesh.
pub open spec fn index_moved_up(v: u32, start: u32, count: int) -> u32 {
    if v > start {
        (v - count) as u32
    } else {
        v
    }
}

impl CustomState {
    /// Number of vertices.
    pub open spec fn vertices(self) -> nat {
        self.columns[0].len()
    }

    /// The index at place `i` points at a vertex.
    pub open spec fn index_in_range(self, i: int) -> bool {
        self.indices[i] < self.vertices()
    }

    /// The record of `key` lies within the mesh, and its indices point at its
    /// vertices.
    pub open spec fn record_ok(self, key: PositionKey) -> bool {
        let r = self.records[key];
        &&& r.0 <= r.1 <= self.vertices()
        &&& r.2 <= r.3 <= self.indices.len()
        &&& (r.3 - r.2) % 3 == 0
        &&& forall|i: int| r.2 <= i < r.3 ==> r.0 <= #[trigger] self.indices[i] < r.1
    }

    /// The index at place `i`, which is not one of the block of `key`, does not
    /// point at a vertex of that block.
    pub open spec fn index_outside(self, key: PositionKey, i: int) -> bool {
        let r = self.records[key];
        !(r.2 <= i < r.3) ==> !(r.0 <= self.indices[i] < r.1)
    }

    /// All columns have one length, the indices point at vertices, and the records
    /// mark off blocks that do not overlap and do not point into each other.
    pub open spec fn wf(self) -> bool {
        &&& self.columns.len() > 0
        &&& self.vertices() <= u32::MAX
        &&& self.indices.len() <= u32::MAX
        &&& self.indices.len() % 3 == 0
        &&& forall|a: int|
            0 <= a < self.columns.len() ==> (#[trigger] self.columns[a]).len() == self.vertices()
        &&& forall|i: int| 0 <= i < self.indices.len() ==> #[trigger] self.index_in_range(i)
        &&& forall|key: PositionKey| self.records.contains_key(key) ==> #[trigger] self.record_ok(key)
        &&& forall|k1: PositionKey, k2: PositionKey|
            self.records.contains_key(k1) && self.records.contains_key(k2) && k1 != k2
                ==> #[trigger] apart(self.records[k1], self.records[k2])
        &&& forall|key: PositionKey, i: int|
            self.records.contains_key(key) && 0 <= i < self.indices.len()
                ==> #[trigger] self.index_outside(key, i)
    }

    /// The state with the block at `key` appended: its vertices and indices stand at
    /// the end, and its record says so.
    pub open spec fn add(
        self,
        key: PositionKey,
        proto: Mesh,
        ids: Seq<AttributeId>,
        offset: VertexValue,
    ) -> CustomState {
        CustomState {
            columns: Seq::new(
                self.columns.len(),
                |a: int| self.columns[a] + proto_column(proto, ids[a], offset),
            ),
            indices: self.indices + proto_indices(proto, self.vertices() as int),
            records: self.records.insert(
                key,
                (
                    self.vertices() as u32,
                    (self.vertices() + proto.spec_count_vertices()) as u32,
                    self.indices.len() as u32,
                    (self.indices.len() + proto.indices@.len()) as u32,
                ),
            ),
        }
    }

    /// The state without the block at `key`: its vertices and indices are cut out,
    /// the indices that point behind them are moved up, and so are the records of the
    /// blocks behind.
    pub open spec fn remove(self, key: PositionKey) -> CustomState {
        let r = self.records[key];
        let count = r.1 - r.0;
        let indices = r.3 - r.2;
        CustomState {
            columns: Seq::new(
                self.columns.len(),
                |a: int| self.columns[a].take(r.0 as int) + self.columns[a].skip(r.1 as int),
            ),
            indices: Seq::new(
                (self.indices.len() - indices) as nat,
                |i: int|
                    index_moved_up(
                        if i < r.2 {
                            self.indices[i]
                        } else {
                            self.indices[i + indices]
                        },
                        r.0,
                        count,
                    ),
            ),
            records: Map::new(
                |k: PositionKey| self.records.contains_key(k) && k != key,
                |k: PositionKey| moved_up(self.records[k], r),
            ),
        }
    }
}

/// A state in order stays in order when a block is appended at a position that had
/// none.
pub proof fn lemma_add_wf(
    s: CustomState,
    key: PositionKey,
    proto: Mesh,
    ids: Seq<AttributeId>,
    offset: VertexValue,
)
    requires
        s.wf(),
        !s.records.contains_key(key),
        crate::merge::valid_prototype(proto, ids),
        ids.len() == s.columns.len(),
        s.vertices() + proto.spec_count_vertices() <= u32::MAX,
        s.indices.len() + proto.indices@.len() <= u32::MAX,
    ensures
        s.add(key, proto, ids, offset).wf(),
{
    let t = s.add(key, proto, ids, offset);
    let n = s.vertices() as int;
    let p = proto.spec_count_vertices() as int;
    let m = s.indices.len() as int;
    assert forall|a: int| 0 <= a < t.columns.len() implies (#[trigger] t.columns[a]).len() == n
        + p by {
        assert(s.columns[a].len() == n);
        assert(proto.ids().contains(ids[a]));
        let pa = proto.spec_attribute_position(ids[a]).unwrap();
        assert(proto.ids()[pa] == ids[a]);
        assert(proto.attributes@[pa].values@.len() == p);
    }
    assert(t.vertices() == n + p);
    assert forall|i: int| 0 <= i < t.indices.len() implies #[trigger] t.index_in_range(i) by {
        if i < m {
            assert(s.index_in_range(i));
        } else {
            assert(proto.indices@[i - m] < p);
        }
    }
    assert forall|k: PositionKey| t.records.contains_key(k) implies #[trigger] t.record_ok(k) by {
        if k == key {
            assert forall|i: int| m <= i < m + proto.indices@.len() implies n <= #[trigger] t.indices[i]
                < n + p by {
                assert(proto.indices@[i - m] < p);
            }
        } else {
            assert(s.record_ok(k));
            let r = s.records[k];
            assert forall|i: int| r.2 <= i < r.3 implies r.0 <= #[trigger] t.indices[i] < r.1 by {
                assert(t.indices[i] == s.indices[i]);
            }
        }
    }
    assert forall|k1: PositionKey, k2: PositionKey|
        t.records.contains_key(k1) && t.records.contains_key(k2) && k1 != k2 implies #[trigger] apart(
        t.records[k1],
        t.records[k2],
    ) by {
        if k1 == key {
            assert(s.record_ok(k2));
        } else if k2 == key {
            assert(s.record_ok(k1));
        } else {
            assert(apart(s.records[k1], s.records[k2]));
        }
    }
    assert forall|k: PositionKey, i: int|
        t.records.contains_key(k) && 0 <= i < t.indices.len() implies #[trigger] t.index_outside(
        k,
        i,
    ) by {
        if k == key {
            if i < m {
                assert(s.index_in_range(i));
            }
        } else {
            assert(s.record_ok(k));
            if i < m {
                assert(s.index_outside(k, i));
            } else {
                assert(proto.indices@[i - m] < p);
            }
        }
    }
}

/// A state in order stays in order when a block is removed.
pub proof fn lemma_remove_wf(s: CustomState, key: PositionKey)
    requires
        s.wf(),
        s.records.contains_key(key),
    ensures
        s.remove(key).wf(),
        s.remove(key).columns.len() == s.columns.len(),
{
    let t = s.remove(key);
    let r = s.records[key];
    let count = r.1 - r.0;
    let gone = r.3 - r.2;
    let n = s.vertices() as int;
    assert(s.record_ok(key));
    assert forall|a: int| 0 <= a < t.columns.len() implies (#[trigger] t.columns[a]).len() == n
        - count by {
        assert(s.columns[a].len() == n);
    }
    assert(t.columns[0].len() == n - count);
    // where the index at place `i` of `t` stood in `s`
    let source = |i: int|
        if i < r.2 {
            i
        } else {
            i + gone
        };
    assert forall|i: int| 0 <= i < t.indices.len() implies #[trigger] t.index_in_range(i) by {
        let p = source(i);
        assert(s.index_in_range(p));
        assert(s.index_outside(key, p));
    }
    assert forall|k: PositionKey| t.records.contains_key(k) implies #[trigger] t.record_ok(k) by {
        let q = s.records[k];
        assert(s.record_ok(k));
        assert(apart(q, r));
        let q2 = t.records[k];
        assert forall|i: int| q2.2 <= i < q2.3 implies q2.0 <= #[trigger] t.indices[i] < q2.1 by {
            let p = source(i);
            assert(q.0 <= s.indices[p] < q.1);
        }
    }
    assert forall|k1: PositionKey, k2: PositionKey|
        t.records.contains_key(k1) && t.records.contains_key(k2) && k1 != k2 implies #[trigger] apart(
        t.records[k1],
        t.records[k2],
    ) by {
        assert(s.record_ok(k1));
        assert(s.record_ok(k2));
        assert(apart(s.records[k1], s.records[k2]));
        assert(apart(s.records[k1], r));
        assert(apart(s.records[k2], r));
    }
    assert forall|k: PositionKey, i: int|
        t.records.contains_key(k) && 0 <= i < t.indices.len() implies #[trigger] t.index_outside(
        k,
        i,
    ) by {
        let q = s.records[k];
        let p = source(i);
        assert(s.record_ok(k));
        assert(apart(q, r));
        assert(s.index_outside(k, p));
        assert(s.index_outside(key, p));
        assert(s.index_in_range(p));
    }
}

/// Mesh meta-data for a merged mesh of free-form blocks. Holds all the information
/// needed to update the mesh at run-time.
pub struct CustomMD {
    pub vivi: CustomVIVI,
    /// The changes that wait to be applied.
    pub log: Vec<BlockChange>,
    pub dims: Dimensions,
}

impl CustomMD {
    /// The state that a mesh and this metadata stand for.
    pub open spec fn state(self, mesh: Mesh) -> CustomState {
        CustomState {
            columns: mesh.columns(),
            indices: mesh.indices@,
            records: custom_records(self.vivi),
        }
    }

    /// The metadata and `mesh` belong together.
    pub open spec fn consistent(self, mesh: Mesh) -> bool {
        &&& mesh.ids().no_duplicates()
        &&& self.state(mesh).wf()
    }

    /// A mesh that belongs to its metadata is in order: all its attribute columns
    /// have the same length, its indices form triangles, and they point at its
    /// vertices.
    pub proof fn lemma_consistent_mesh_wf(self, mesh: Mesh)
        requires
            self.consistent(mesh),
        ensures
            mesh.wf(),
    {
        let s = self.state(mesh);
        assert forall|a: int| 0 <= a < mesh.attributes@.len() implies (
        #[trigger] mesh.attributes@[a]).values@.len() == mesh.spec_count_vertices() by {
            assert(s.columns[a].len() == s.vertices());
        }
        assert forall|i: int| 0 <= i < mesh.indices@.len() implies (#[trigger] mesh.indices@[i])
            < mesh.spec_count_vertices() by {
            assert(s.index_in_range(i));
        }
    }

    /// The record of the block at `pos`, if there is one.
    pub fn record_of(&self, pos: BlockPos) -> (r: Option<CustomRecord>)
        ensures
            r == (if custom_records(self.vivi).contains_key(key_of(pos)) {
                Some(custom_records(self.vivi)[key_of(pos)])
            } else {
                None
            }),
    {
        records_get(&self.vivi, pos)
    }

    /// Log a block break
    pub fn log_break(&mut self, block: BlockId, pos: BlockPos)
        ensures
            final(self).log@ == old(self).log@.push((BlockMeshChange::Broken, block, pos)),
            final(self).vivi == old(self).vivi,
            final(self).dims == old(self).dims,
    {
        self.log.push((BlockMeshChange::Broken, block, pos));
    }

    /// Log a block add
    pub fn log_add(&mut self, block: BlockId, pos: BlockPos)
        ensures
            final(self).log@ == old(self).log@.push((BlockMeshChange::Added, block, pos)),
            final(self).vivi == old(self).vivi,
            final(self).dims == old(self).dims,
    {
        self.log.push((BlockMeshChange::Added, block, pos));
    }
}

} // verus!
