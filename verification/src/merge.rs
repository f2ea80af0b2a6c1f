//! Appending the whole prototype of a block to a merged mesh.
use vstd::prelude::*;
use crate::cube::quads::is_block_offset;
use crate::mesh::{translate, AttributeId, Mesh, VertexValue, ATTRIBUTE_POSITION};

verus! {

/// `proto` can be appended to a merged mesh that tracks the attributes `ids`: it is
/// in order itself, has all of those attributes, and its positions are small enough
/// to be moved to any block.
pub open spec fn valid_prototype(proto: Mesh, ids: Seq<AttributeId>) -> bool {
    &&& proto.wf()
    &&& forall|a: int| 0 <= a < ids.len() ==> proto.ids().contains(#[trigger] ids[a])
    &&& (proto.ids().contains(ATTRIBUTE_POSITION) ==> forall|i: int|
        0 <= i < proto.spec_attribute(ATTRIBUTE_POSITION).unwrap().len() ==> (
        #[trigger] proto.spec_attribute(ATTRIBUTE_POSITION).unwrap()[i]).spec_is_local())
}

/// The values of attribute `id` that `proto` adds to a merged mesh: its own, and for
/// the position those moved by `offset`.
pub open spec fn proto_column(proto: Mesh, id: AttributeId, offset: VertexValue) -> Seq<VertexValue> {
    let column = proto.spec_attribute(id).unwrap();
    Seq::new(
        column.len(),
        |i: int|
            if id == ATTRIBUTE_POSITION {
                column[i].spec_translated(offset)
            } else {
                column[i]
            },
    )
}

/// The indices that `proto` adds to a merged mesh that has `base` vertices.
pub open spec fn proto_indices(proto: Mesh, base: int) -> Seq<u32> {
    Seq::new(proto.indices@.len(), |i: int| (proto.indices@[i] + base) as u32)
}

/// All columns of the mesh have the same length and no attribute occurs twice.
pub open spec fn columns_aligned(mesh: Mesh) -> bool {
    &&& mesh.ids().no_duplicates()
    &&& forall|a: int|
        0 <= a < mesh.attributes@.len() ==> (#[trigger] mesh.attributes@[a]).values@.len()
            == mesh.spec_count_vertices()
}

/// Tells whether `proto` can be appended to a merged mesh like `merged`.
pub fn is_valid_prototype(proto: &Mesh, merged: &Mesh) -> (r: bool)
    ensures
        r == valid_prototype(*proto, merged.ids()),
{
    if !proto.is_wf() {
        return false;
    }
    let mut a: usize = 0;
    while a < merged.attributes.len()
        invariant
            a <= merged.attributes@.len(),
            forall|b: int| 0 <= b < a ==> proto.ids().contains(#[trigger] merged.ids()[b]),
        decreases merged.attributes@.len() - a,
    {
        if proto.attribute_position(merged.attributes[a].id).is_none() {
            assert(!proto.ids().contains(merged.ids()[a as int]));
            return false;
        }
        assert(proto.ids().contains(merged.ids()[a as int]));
        a = a + 1;
    }
    match proto.attribute_position(ATTRIBUTE_POSITION) {
        Some(pa) => {
            let positions = &proto.attributes[pa].values;
            assert(proto.spec_attribute(ATTRIBUTE_POSITION) == Some(positions@));
            let mut i: usize = 0;
            while i < positions.len()
                invariant
                    i <= positions@.len(),
                    proto.spec_attribute(ATTRIBUTE_POSITION) == Some(positions@),
                    forall|j: int| 0 <= j < i ==> (#[trigger] positions@[j]).spec_is_local(),
                decreases positions@.len() - i,
            {
                if !positions[i].is_local() {
                    assert(!proto.spec_attribute(ATTRIBUTE_POSITION).unwrap()[i as int].spec_is_local());
                    return false;
                }
                i = i + 1;
            }
            true
        },
        None => true,
    }
}

/// Appends the vertices and the indices of `proto` to `mesh`: the positions are
/// moved by `offset`, and the indices point at the appended vertices.
pub fn append_prototype(mesh: &mut Mesh, proto: &Mesh, offset: VertexValue)
    requires
        columns_aligned(*old(mesh)),
        old(mesh).attributes@.len() > 0,
        valid_prototype(*proto, old(mesh).ids()),
        is_block_offset(offset),
        old(mesh).spec_count_vertices() + proto.spec_count_vertices() <= u32::MAX,
    ensures
        final(mesh).ids() == old(mesh).ids(),
        final(mesh).attributes@.len() == old(mesh).attributes@.len(),
        columns_aligned(*final(mesh)),
        final(mesh).spec_count_vertices() == old(mesh).spec_count_vertices()
            + proto.spec_count_vertices(),
        forall|a: int|
            0 <= a < old(mesh).attributes@.len() ==> (#[trigger] final(mesh).attributes@[a]).values@
                == old(mesh).attributes@[a].values@ + proto_column(
                *proto,
                old(mesh).ids()[a],
                offset,
            ),
        final(mesh).indices@ == old(mesh).indices@ + proto_indices(
            *proto,
            old(mesh).spec_count_vertices() as int,
        ),
{
    let ghost ids = mesh.ids();
    let base: usize = mesh.count_vertices();
    let count: usize = proto.count_vertices();
    let n: usize = mesh.attributes.len();
    let mut a: usize = 0;
    while a < n
        invariant
            a <= n,
            n == mesh.attributes@.len(),
            n == old(mesh).attributes@.len(),
            mesh.ids() == ids,
            ids == old(mesh).ids(),
            mesh.indices == old(mesh).indices,
            valid_prototype(*proto, ids),
            is_block_offset(offset),
            count == proto.spec_count_vertices(),
            forall|b: int|
                0 <= b < a ==> (#[trigger] mesh.attributes@[b]).values@ == old(mesh).attributes@[b].values@ + proto_column(*proto, ids[b], offset),
            forall|b: int|
                a <= b < n ==> (#[trigger] mesh.attributes@[b]).values@ == old(mesh).attributes@[b].values@,
        decreases n - a,
    {
        let id = mesh.attributes[a].id;
        proof {
            assert(ids[a as int] == id);
            assert(proto.ids().contains(ids[a as int]));
        }
        let pa: usize = proto.attribute_position(id).unwrap();
        let src = &proto.attributes[pa].values;
        proof {
            assert(proto.spec_attribute(id) == Some(src@));
            assert(proto.attributes@[pa as int].values@.len() == proto.spec_count_vertices());
        }
        let ghost before = mesh.attributes@[a as int].values@;
        let ghost want = proto_column(*proto, id, offset);
        let mut i: usize = 0;
        while i < count
            invariant
                i <= count,
                count == src@.len(),
                a < n,
                n == mesh.attributes@.len(),
                n == old(mesh).attributes@.len(),
                mesh.ids() == ids,
                mesh.indices == old(mesh).indices,
                mesh.attributes@[a as int].id == id,
                proto.spec_attribute(id) == Some(src@),
                valid_prototype(*proto, ids),
                is_block_offset(offset),
                want == proto_column(*proto, id, offset),
                mesh.attributes@[a as int].values@ == before + want.take(i as int),
                forall|b: int|
                    0 <= b < a ==> (#[trigger] mesh.attributes@[b]).values@ == old(mesh).attributes@[b].values@ + proto_column(*proto, ids[b], offset),
                forall|b: int|
                    a < b < n ==> (#[trigger] mesh.attributes@[b]).values@ == old(mesh).attributes@[b].values@,
            decreases count - i,
        {
            let mut v: VertexValue = src[i];
            if id == ATTRIBUTE_POSITION {
                proof {
                    assert(proto.ids().contains(ATTRIBUTE_POSITION));
                    assert(proto.spec_attribute(ATTRIBUTE_POSITION).unwrap()[i as int].spec_is_local());
                }
                v = translate(v, offset);
            }
            let ghost attrs_before = mesh.attributes@;
            let ghost ids_before = mesh.ids();
            mesh.attributes[a].values.push(v);
            proof {
                assert(want.take(i + 1) =~= want.take(i as int).push(v));
                assert(mesh.attributes@[a as int].values@ =~= before + want.take(i + 1));
                assert forall|b: int| 0 <= b < n && b != a implies mesh.attributes@[b]
                    == attrs_before[b] by {}
                assert(mesh.ids() =~= ids_before);
            }
            i = i + 1;
        }
        proof {
            assert(want.take(count as int) =~= want);
        }
        a = a + 1;
    }
    let m: usize = proto.indices.len();
    let mut j: usize = 0;
    while j < m
        invariant
            j <= m,
            m == proto.indices@.len(),
            proto.wf(),
            count == proto.spec_count_vertices(),
            base + count <= u32::MAX,
            base == old(mesh).spec_count_vertices(),
            mesh.attributes@.len() == n,
            mesh.ids() == ids,
            forall|b: int|
                0 <= b < n ==> (#[trigger] mesh.attributes@[b]).values@ == old(mesh).attributes@[b].values@ + proto_column(*proto, ids[b], offset),
            mesh.indices@ == old(mesh).indices@ + proto_indices(*proto, base as int).take(j as int),
        decreases m - j,
    {
        let ghost attrs_before = mesh.attributes@;
        assert(proto.indices@[j as int] < proto.spec_count_vertices());
        let value: u32 = proto.indices[j] + base as u32;
        mesh.indices.push(value);
        proof {
            assert(proto_indices(*proto, base as int).take(j + 1) =~= proto_indices(
                *proto,
                base as int,
            ).take(j as int).push(value));
            assert(mesh.attributes@ == attrs_before);
        }
        j = j + 1;
    }
    proof {
        assert(proto_indices(*proto, base as int).take(m as int) =~= proto_indices(
            *proto,
            base as int,
        ));
        assert forall|b: int| 0 <= b < n implies (#[trigger] mesh.attributes@[b]).values@.len()
            == base + count by {
            assert(old(mesh).attributes@[b].values@.len() == base);
            assert(proto.ids().contains(ids[b]));
            let pb = proto.spec_attribute_position(ids[b]).unwrap();
            assert(proto.ids()[pb] == ids[b]);
            assert(proto.attributes@[pb].values@.len() == proto.spec_count_vertices());
        }
        assert(mesh.attributes@[0].values@.len() == base + count);
    }
}

} // verus!
