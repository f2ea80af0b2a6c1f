//! Telling at run time whether a mesh of free-form blocks and its metadata belong
//! together.
use vstd::prelude::*;
use crate::chunk::{BlockPos, UVec3};
use crate::custom::md::{
    apart, custom_records, key_of, records_get, records_keys, CustomMD, CustomRecord,
    PositionKey,
};
use crate::mesh::Mesh;

verus! {

impl CustomMD {
    /// Whether `mesh` and the metadata belong together: what the updates of a mesh
    /// of free-form blocks ask of the mesh and the metadata that are handed to them.
    pub fn is_consistent(&self, mesh: &Mesh) -> (r: bool)
        ensures
            r == self.consistent(*mesh),
    {
        let ghost s = self.state(*mesh);
        proof {
            if self.consistent(*mesh) {
                self.lemma_consistent_mesh_wf(*mesh);
            }
        }
        if mesh.attributes.len() == 0 || !mesh.is_wf() {
            return false;
        }
        let vertices: usize = mesh.count_vertices();
        let length: usize = mesh.indices.len();
        if vertices > 0xffff_ffff || length > 0xffff_ffff {
            return false;
        }
        proof {
            assert(s.vertices() == vertices);
            assert forall|a: int| 0 <= a < s.columns.len() implies (#[trigger] s.columns[a]).len()
                == s.vertices() by {
                assert(mesh.attributes@[a].values@.len() == mesh.spec_count_vertices());
            }
            assert forall|i: int| 0 <= i < s.indices.len() implies #[trigger] s.index_in_range(
                i,
            ) by {
                assert(mesh.indices@[i] < mesh.spec_count_vertices());
            }
        }
        let keys = records_keys(&self.vivi);
        let mut a: usize = 0;
        while a < keys.len()
            invariant
                a <= keys@.len(),
                s == self.state(*mesh),
                vertices == s.vertices(),
                length == s.indices.len(),
                length == mesh.indices@.len(),
                keys@.no_duplicates(),
                forall|pos: BlockPos| #[trigger]
                    keys@.contains(pos) <==> s.records.contains_key(key_of(pos)),
                forall|b: int| 0 <= b < a ==> #[trigger] s.record_ok(key_of(keys@[b])),
                forall|b: int, i: int|
                    0 <= b < a && 0 <= i < length ==> #[trigger] s.index_outside(
                        key_of(keys@[b]),
                        i,
                    ),
                forall|b: int, c: int|
                    0 <= b < c < a ==> #[trigger] apart(
                        s.records[key_of(keys@[b])],
                        s.records[key_of(keys@[c])],
                    ),
            decreases keys@.len() - a,
        {
            let pos: BlockPos = keys[a];
            let ghost key = key_of(pos);
            proof {
                assert(keys@.contains(pos));
            }
            let record: CustomRecord = records_get(&self.vivi, pos).unwrap();
            if record.0 > record.1 || record.1 as usize > vertices || record.2 > record.3
                || record.3 as usize > length || (record.3 - record.2) % 3 != 0 {
                assert(!s.record_ok(key));
                return false;
            }
            let mut i: usize = 0;
            while i < length
                invariant
                    i <= length,
                    s == self.state(*mesh),
                    length == s.indices.len(),
                    length == mesh.indices@.len(),
                    s.records.contains_key(key),
                    s.records[key] == record,
                    record.3 <= length,
                    forall|p: int|
                        record.2 <= p < record.3 && p < i ==> record.0 <= #[trigger] s.indices[p]
                            < record.1,
                    forall|p: int| 0 <= p < i ==> #[trigger] s.index_outside(key, p),
                decreases length - i,
            {
                let value: u32 = mesh.indices[i];
                let inside: bool = record.2 as usize <= i && i < record.3 as usize;
                let points_in: bool = record.0 <= value && value < record.1;
                if inside != points_in {
                    proof {
                        if inside {
                            assert(!s.record_ok(key));
                        } else {
                            assert(!s.index_outside(key, i as int));
                        }
                    }
                    return false;
                }
                i = i + 1;
            }
            assert(s.record_ok(key));
            let mut b: usize = 0;
            while b < a
                invariant
                    b <= a < keys@.len(),
                    s == self.state(*mesh),
                    keys@.no_duplicates(),
                    forall|pos: BlockPos| #[trigger]
                        keys@.contains(pos) <==> s.records.contains_key(key_of(pos)),
                    s.records.contains_key(key),
                    key == key_of(keys@[a as int]),
                    s.records[key] == record,
                    forall|c: int|
                        0 <= c < b ==> #[trigger] apart(
                            s.records[key_of(keys@[c])],
                            s.records[key_of(keys@[a as int])],
                        ),
                decreases a - b,
            {
                let other: BlockPos = keys[b];
                proof {
                    assert(keys@.contains(other));
                    assert(keys@[b as int] != keys@[a as int]);
                }
                let q: CustomRecord = records_get(&self.vivi, other).unwrap();
                let before: bool = q.1 <= record.0 && q.3 <= record.2;
                let behind: bool = record.1 <= q.0 && record.3 <= q.2;
                if !before && !behind {
                    assert(!apart(s.records[key_of(other)], s.records[key]));
                    return false;
                }
                b = b + 1;
            }
            a = a + 1;
        }
        proof {
            assert forall|key: PositionKey| s.records.contains_key(key) implies #[trigger] s.record_ok(
                key,
            ) by {
                let b = Self::lemma_key_place(keys@, s.records, key);
                assert(s.record_ok(key_of(keys@[b])));
            }
            assert forall|k1: PositionKey, k2: PositionKey|
                s.records.contains_key(k1) && s.records.contains_key(k2) && k1 != k2 implies #[trigger] apart(
                s.records[k1],
                s.records[k2],
            ) by {
                let b = Self::lemma_key_place(keys@, s.records, k1);
                let c = Self::lemma_key_place(keys@, s.records, k2);
                if b < c {
                    assert(apart(s.records[key_of(keys@[b])], s.records[key_of(keys@[c])]));
                } else {
                    assert(apart(s.records[key_of(keys@[c])], s.records[key_of(keys@[b])]));
                }
            }
            assert forall|key: PositionKey, i: int|
                s.records.contains_key(key) && 0 <= i < s.indices.len() implies #[trigger] s.index_outside(
                key,
                i,
            ) by {
                let b = Self::lemma_key_place(keys@, s.records, key);
                assert(s.index_outside(key_of(keys@[b]), i));
            }
        }
        true
    }

    /// Where the position of a record stands among the positions that have one.
    proof fn lemma_key_place(
        keys: Seq<BlockPos>,
        records: Map<PositionKey, CustomRecord>,
        key: PositionKey,
    ) -> (b: int)
        requires
            forall|pos: BlockPos| #[trigger]
                keys.contains(pos) <==> records.contains_key(key_of(pos)),
            records.contains_key(key),
        ensures
            0 <= b < keys.len(),
            key_of(keys[b]) == key,
    {
        let pos = UVec3 { x: key.0, y: key.1, z: key.2 };
        assert(key_of(pos) == key);
        assert(keys.contains(pos));
        choose|b: int| 0 <= b < keys.len() && keys[b] == pos
    }
}

} // verus!
