//! Updating a merged mesh of sprites in place from the logged changes.
use vstd::prelude::*;
use crate::block_mesh::BlockMeshType;
use crate::chunk::{pos_to_index, spec_pos_to_index, BlockId, BlockPos, Dimensions};
use crate::cube::update::{offset_of, prototype_of};
use crate::merge::{
    append_prototype, is_valid_prototype, proto_column, proto_indices, valid_prototype,
};
use crate::mesh::{block_offset, AttributeId, Mesh};
use crate::mesh_reg::MeshRegistry;
use crate::xsprite::md::{
    swap_remove_block, BlockChange, SpriteRecord, SpriteState, XSpriteMD,
};
use crate::{BlockMeshChange, MeshError};

verus! {

/// Whether the registry holds a sprite for `block`.
pub open spec fn is_xsprite_block<R: MeshRegistry>(reg: &R, block: BlockId) -> bool {
    reg.block_mesh(block).spec_get_type() == BlockMeshType::XSprite
}

/// `proto` is a sprite of the size of those of a mesh whose sprites have `unit`
/// vertices and `length` indices. All sprites of one mesh have to be alike in their
/// sizes: a sprite is removed by moving the last sprite of the mesh into its place,
/// which asks for ranges of one size. Which vertices the indices of a sprite name
/// is up to each sprite.
pub open spec fn sprite_matches(proto: Mesh, unit: nat, length: nat) -> bool {
    &&& proto.spec_count_vertices() == unit
    &&& proto.indices@.len() == length
}

/// Add a sprite to the mesh: the prototype is appended, moved to the block, and the
/// voxel records where it stands.
pub fn add_xsprite_block(
    mesh: &mut Mesh,
    md: &mut XSpriteMD,
    block_pos: BlockPos,
    voxel_mesh: &Mesh,
    dims: Dimensions,
)
    requires
        old(md).consistent(*old(mesh)),
        dims == old(md).dims,
        valid_prototype(*voxel_mesh, old(mesh).ids()),
        sprite_matches(*voxel_mesh, old(md).sprite_vertices as nat, old(md).sprite_indices as nat),
        old(md).sprite_vertices > 0,
        spec_pos_to_index(block_pos, dims) is Some,
        !old(md).owners@.contains(spec_pos_to_index(block_pos, dims).unwrap()),
        old(md).sprite_vertices * old(md).vivi@.len() <= u32::MAX,
        old(md).sprite_indices * old(md).vivi@.len() <= u32::MAX,
    ensures
        final(md).consistent(*final(mesh)),
        final(mesh).ids() == old(mesh).ids(),
        final(md).dims == old(md).dims,
        final(md).log == old(md).log,
        final(md).sprite_vertices == old(md).sprite_vertices,
        final(md).sprite_indices == old(md).sprite_indices,
        final(md).vivi@.len() == old(md).vivi@.len(),
        final(md).state(*final(mesh)) == old(md).state(*old(mesh)).push(
            spec_pos_to_index(block_pos, dims).unwrap(),
            *voxel_mesh,
            old(mesh).ids(),
            offset_of(block_pos),
        ),
{
    proof {
        crate::chunk::lemma_linear_index_bound(block_pos, dims);
    }
    let block_index: usize = pos_to_index(block_pos, dims).unwrap();
    let ghost s0 = md.state(*mesh);
    let ghost ids = mesh.ids();
    let ghost unit = md.sprite_vertices as int;
    let ghost length = md.sprite_indices as nat;
    let ghost count = md.owners@.len() as int;
    proof {
        let more = md.owners@.push(block_index);
        assert forall|i: int, j: int|
            0 <= i < more.len() && 0 <= j < more.len() && i != j implies more[i] != more[j] by {
            if i < count && j < count {
            } else if i < count {
                assert(md.owners@.contains(md.owners@[i]));
            } else {
                assert(md.owners@.contains(md.owners@[j]));
            }
        }
        lemma_distinct_bound(more, md.vivi@.len());
        assert(unit * (count + 1) <= unit * md.vivi@.len()) by (nonlinear_arith)
            requires
                count + 1 <= md.vivi@.len(),
                unit >= 0,
        ;
        assert(length * (count + 1) <= length * md.vivi@.len())
            by (nonlinear_arith)
            requires
                count + 1 <= md.vivi@.len(),
        ;
        assert(unit * (count + 1) == unit * count + unit) by (nonlinear_arith);
        assert(length * (count + 1) == length * count + length)
            by (nonlinear_arith);
        assert(s0.columns[0].len() == unit * count);
        assert(crate::merge::columns_aligned(*mesh)) by {
            assert forall|a: int| 0 <= a < mesh.attributes@.len() implies (
            #[trigger] mesh.attributes@[a]).values@.len() == mesh.spec_count_vertices() by {
                assert(s0.columns[a].len() == unit * count);
            }
        }
    }
    let ver_count: usize = mesh.count_vertices();
    let position_offset = block_offset(block_pos.x, block_pos.y, block_pos.z);
    let ind_count: usize = mesh.indices.len();
    append_prototype(mesh, voxel_mesh, position_offset);
    let ver_count2: usize = mesh.count_vertices();
    let ind_count2: usize = mesh.indices.len();
    md.vivi[block_index] = (ver_count, ver_count2, ind_count as u32, ind_count2 as u32);
    md.owners.push(block_index);
    proof {
        let s1 = md.state(*mesh);
        let t = s0.push(block_index, *voxel_mesh, ids, offset_of(block_pos));
        assert(s1.columns =~~= t.columns) by {
            assert forall|a: int| 0 <= a < s1.columns.len() implies s1.columns[a]
                =~= t.columns[a] by {
                assert(mesh.attributes@[a].values@ == old(mesh).attributes@[a].values@
                    + proto_column(*voxel_mesh, ids[a], position_offset));
            }
        }
        assert(s1.indices =~= t.indices);
        assert(s1 == t);
        assert(md.record_of(count) == md.vivi@[block_index as int]);
        assert forall|v: int| 0 <= v < md.vivi@.len() implies #[trigger] md.record_ok(v) by {
            if v == block_index {
                assert(unit * count / unit == count) by (nonlinear_arith)
                    requires
                        unit > 0,
                        count >= 0,
                ;
            } else {
                assert(old(md).record_ok(v));
                assert(md.vivi@[v] == old(md).vivi@[v]);
            }
        }
        assert forall|j: int| 0 <= j < md.owners@.len() implies #[trigger] md.owner_ok(j) by {
            if j < count {
                assert(old(md).owner_ok(j));
                assert(old(md).owners@.contains(old(md).owners@[j]));
            }
        }
        assert forall|a: int| 0 <= a < s1.columns.len() implies (#[trigger] s1.columns[a]).len()
            == unit * (count + 1) by {
            assert(mesh.attributes@[a].values@.len() == mesh.spec_count_vertices());
        }
        assert forall|i: int| 0 <= i < s1.indices.len() implies #[trigger] s1.index_ok(
            unit as nat,
            length,
            i,
        ) by {
            let k = length as int;
            if i < s0.indices.len() {
                assert(s0.index_ok(unit as nat, length, i));
            } else {
                let t = i - k * count;
                assert(s1.indices[i] == proto_indices(*voxel_mesh, unit * count)[t]);
                assert(voxel_mesh.indices@[t] < voxel_mesh.spec_count_vertices());
                assert(i == count * k + t) by (nonlinear_arith)
                    requires
                        t == i - k * count,
                ;
                vstd::arithmetic::div_mod::lemma_fundamental_div_mod_converse(i, k, count, t);
            }
        }
        assert(md.wf());
        assert(s1.owners.no_duplicates());
        assert(forall|j: int| 0 <= j < s1.owners.len() ==> (#[trigger] s1.owners[j]) < md.vivi@.len());
        assert(unit * s1.owners.len() <= u32::MAX);
        assert(length * s1.owners.len() <= u32::MAX);
        assert(s1.indices.len() == length * s1.owners.len());
        assert(s1.wf(unit as nat, length, md.vivi@.len()));
    }
}

/// A sequence of different voxels of a chunk is not longer than the chunk has voxels.
pub proof fn lemma_distinct_bound(owners: Seq<usize>, n: nat)
    requires
        owners.no_duplicates(),
        forall|j: int| 0 <= j < owners.len() ==> (#[trigger] owners[j]) < n,
    ensures
        owners.len() <= n,
{
    let codes = owners.map_values(|v: usize| v as int);
    assert forall|i: int, j: int|
        0 <= i < codes.len() && 0 <= j < codes.len() && i != j implies codes[i] != codes[j] by {
        assert(owners[i] != owners[j]);
    }
    codes.unique_seq_to_set();
    vstd::set_lib::lemma_int_range(0, n as int);
    assert(codes.to_set().subset_of(vstd::set_lib::set_int_range(0, n as int))) by {
        assert forall|c: int| codes.to_set().contains(c) implies vstd::set_lib::set_int_range(
            0,
            n as int,
        ).contains(c) by {
            let i = choose|i: int| 0 <= i < codes.len() && codes[i] == c;
            assert(owners[i] < n);
        }
    }
    vstd::set_lib::lemma_len_subset(codes.to_set(), vstd::set_lib::set_int_range(0, n as int));
}

/// Remove a sprite from the mesh: the last sprite of the mesh takes its place, its
/// indices are moved with it and point at its vertices where they stand now, and
/// the voxel that owns the last sprite records the new place. A voxel without sprite
/// is left as it is.
pub fn remove_xsprite_voxel(mesh: &mut Mesh, md: &mut XSpriteMD, block_pos: BlockPos, dims: Dimensions)
    requires
        old(md).consistent(*old(mesh)),
        dims == old(md).dims,
        spec_pos_to_index(block_pos, dims) is Some,
    ensures
        final(md).consistent(*final(mesh)),
        final(mesh).ids() == old(mesh).ids(),
        final(md).dims == old(md).dims,
        final(md).log == old(md).log,
        final(md).sprite_vertices == old(md).sprite_vertices,
        final(md).sprite_indices == old(md).sprite_indices,
        final(md).vivi@.len() == old(md).vivi@.len(),
        final(md).state(*final(mesh)) == old(md).state(*old(mesh)).remove_voxel(
            spec_pos_to_index(block_pos, dims).unwrap(),
            old(md).sprite_vertices as nat,
            old(md).sprite_indices as nat,
        ),
{
    proof {
        crate::chunk::lemma_linear_index_bound(block_pos, dims);
    }
    let block_index: usize = pos_to_index(block_pos, dims).unwrap();
    let ghost s0 = md.state(*mesh);
    let ghost ids = mesh.ids();
    let ghost unit = md.sprite_vertices as int;
    let ghost length = md.sprite_indices as nat;
    let ghost k = length as int;
    let ghost count = md.owners@.len() as int;
    let record: SpriteRecord = md.vivi[block_index];
    let (vertex_start, vertex_end, index_start, index_end) = record;
    proof {
        assert(md.record_ok(block_index as int));
    }
    if vertex_end <= vertex_start {
        proof {
            if record != (0usize, 0usize, 0u32, 0u32) {
                md.lemma_record_of(vertex_start as int / unit);
            }
            if md.owners@.contains(block_index) {
                let j = choose|j: int| 0 <= j < count && md.owners@[j] == block_index;
                assert(md.owner_ok(j));
                md.lemma_record_of(j);
            }
        }
        return ;
    }
    let ghost j = vertex_start as int / unit;
    let ghost n = unit * count;
    proof {
        md.lemma_record_of(j);
        assert(md.owners@[j] == block_index);
        assert(s0.slot_of(block_index) == Some(j));
        assert(s0.columns[0].len() == n);
    }
    let vertices: usize = mesh.count_vertices();
    let last: bool = vertex_end == vertices;
    let len: usize = vertex_end - vertex_start;
    let attributes: usize = mesh.attributes.len();
    let mut a: usize = 0;
    proof {
        assert forall|b: int| 0 <= b < attributes implies (#[trigger] old(mesh).attributes@[b]).values@.len()
            == n by {
            assert(s0.columns[b].len() == unit * count);
        }
    }
    while a < attributes
        invariant
            a <= attributes,
            attributes == mesh.attributes@.len(),
            attributes == old(mesh).attributes@.len(),
            mesh.ids() == ids,
            mesh.indices == old(mesh).indices,
            len == unit,
            unit > 0,
            vertex_start == unit * j,
            vertex_end == unit * j + unit,
            vertex_end >= len,
            vertex_end <= n,
            vertex_end == n || vertex_end <= n - unit,
            n <= u32::MAX,
            forall|b: int|
                0 <= b < attributes ==> (#[trigger] old(mesh).attributes@[b]).values@.len() == n,
            forall|b: int|
                0 <= b < a ==> (#[trigger] mesh.attributes@[b]).values@ == swap_remove_block(
                    old(mesh).attributes@[b].values@,
                    j,
                    unit,
                ),
            forall|b: int|
                a <= b < attributes ==> (#[trigger] mesh.attributes@[b]).values@ == old(mesh).attributes@[b].values@,
        decreases attributes - a,
    {
        let ghost before = mesh.attributes@[a as int].values@;
        proof {
            assert(old(mesh).attributes@[a as int].values@.len() == n);
        }
        let mut t: usize = 0;
        while t < len
            invariant
                t <= len,
                a < attributes,
                attributes == mesh.attributes@.len(),
                mesh.ids() == ids,
                mesh.indices == old(mesh).indices,
                len == unit,
                unit > 0,
                before.len() == n,
                vertex_end == unit * j + unit,
                vertex_end >= len,
                vertex_end <= n,
                vertex_end == n || vertex_end <= n - unit,
                mesh.attributes@[a as int].values@.len() == n - t,
                forall|i: int|
                    0 <= i < n - t ==> (#[trigger] mesh.attributes@[a as int].values@[i]) == (
                    if vertex_end - t <= i < vertex_end {
                        before[i + n - vertex_end]
                    } else {
                        before[i]
                    }),
                forall|b: int|
                    0 <= b < a ==> (#[trigger] mesh.attributes@[b]).values@ == swap_remove_block(
                        old(mesh).attributes@[b].values@,
                        j,
                        unit,
                    ),
                forall|b: int|
                    a < b < attributes ==> (#[trigger] mesh.attributes@[b]).values@ == old(mesh).attributes@[b].values@,
            decreases len - t,
        {
            let ghost attrs_before = mesh.attributes@;
            let ghost ids_before = mesh.ids();
            let ghost cur = mesh.attributes@[a as int].values@;
            mesh.attributes[a].values.swap_remove(vertex_end - 1 - t);
            proof {
                let now = mesh.attributes@[a as int].values@;
                assert(now == cur.update(vertex_end - 1 - t, cur.last()).drop_last());
                assert(cur.last() == cur[n - t - 1]);
                assert forall|i: int| 0 <= i < n - t - 1 implies (#[trigger] now[i]) == (
                if vertex_end - t - 1 <= i < vertex_end {
                    before[i + n - vertex_end]
                } else {
                    before[i]
                }) by {
                    if i == vertex_end - 1 - t {
                        assert(now[i] == cur[n - t - 1]);
                    } else {
                        assert(now[i] == cur[i]);
                    }
                }
                assert forall|b: int| 0 <= b < attributes && b != a implies mesh.attributes@[b]
                    == attrs_before[b] by {}
                assert(mesh.ids() =~= ids_before);
            }
            t = t + 1;
        }
        proof {
            assert(mesh.attributes@[a as int].values@ =~= swap_remove_block(before, j, unit));
        }
        a = a + 1;
    }
    let index_count: usize = (index_end - index_start) as usize;
    let total: usize = mesh.indices.len();
    proof {
        assert(s0.indices.len() == k * count);
        md.lemma_record_of(count - 1);
    }
    if !last {
        // the indices of the last sprite take the place of those that go
        proof {
            assert(j != count - 1) by (nonlinear_arith)
                requires
                    vertex_end == unit * j + unit,
                    vertex_end != unit * count,
            ;
            assert(k * j + k <= k * (count - 1)) by (nonlinear_arith)
                requires
                    j + 1 <= count - 1,
                    k >= 0,
            ;
            assert(k * (count - 1) + k == k * count) by (nonlinear_arith);
            assert(unit * (count - 1) + unit == unit * count) by (nonlinear_arith);
        }
        let from: usize = total - index_count;
        let shift: usize = vertices - len;
        let mut t: usize = 0;
        while t < index_count
            invariant
                t <= index_count,
                index_count == k,
                len == unit,
                unit > 0,
                0 <= j < count - 1,
                total == k * count,
                from == k * (count - 1),
                from + index_count == total,
                shift == unit * (count - 1),
                index_start == k * j,
                vertex_start == unit * j,
                index_start + index_count <= from,
                unit * count <= u32::MAX,
                total == mesh.indices@.len(),
                total == old(mesh).indices@.len(),
                s0.indices == old(mesh).indices@,
                s0.wf(unit as nat, k as nat, md.vivi@.len()),
                mesh.attributes@.len() == attributes,
                mesh.ids() == ids,
                forall|b: int|
                    0 <= b < attributes ==> (#[trigger] mesh.attributes@[b]).values@
                        == swap_remove_block(old(mesh).attributes@[b].values@, j, unit),
                forall|i: int|
                    0 <= i < total ==> (#[trigger] mesh.indices@[i]) == (if index_start <= i
                        < index_start + t {
                        (old(mesh).indices@[from + (i - index_start)] - shift + vertex_start) as u32
                    } else {
                        old(mesh).indices@[i]
                    }),
            decreases index_count - t,
        {
            proof {
                crate::xsprite::md::lemma_sprite_place(k, count - 1, t as int);
                assert(s0.index_ok(unit as nat, k as nat, from + t));
                assert(unit * j + unit <= unit * count) by (nonlinear_arith)
                    requires
                        j + 1 <= count,
                        unit >= 0,
                ;
            }
            let value: u32 = mesh.indices[from + t];
            let ghost attrs_before = mesh.attributes@;
            mesh.indices[index_start as usize + t] = ((value as usize - shift)
                + vertex_start) as u32;
            proof {
                assert(mesh.attributes@ == attrs_before);
            }
            t = t + 1;
        }
    } else {
        proof {
            assert(k * j + k == k * count) by (nonlinear_arith)
                requires
                    unit * j + unit == unit * count,
                    unit > 0,
            ;
        }
    }
    let ghost moved = mesh.indices@;
    let mut t: usize = 0;
    while t < index_count
        invariant
            t <= index_count,
            index_count == k,
            index_count <= old(mesh).indices@.len(),
            moved.len() == old(mesh).indices@.len(),
            mesh.attributes@.len() == attributes,
            mesh.ids() == ids,
            forall|b: int|
                0 <= b < attributes ==> (#[trigger] mesh.attributes@[b]).values@
                    == swap_remove_block(old(mesh).attributes@[b].values@, j, unit),
            mesh.indices@ == moved.take(moved.len() - t),
        decreases index_count - t,
    {
        let ghost attrs_before = mesh.attributes@;
        mesh.indices.pop();
        proof {
            assert(mesh.indices@ =~= moved.take(moved.len() - t - 1));
            assert(mesh.attributes@ == attrs_before);
        }
        t = t + 1;
    }
    proof {
        assert(mesh.indices@ =~= crate::xsprite::md::swap_remove_indices(
            old(mesh).indices@,
            j,
            count - 1,
            unit,
            k,
        ));
    }
    md.vivi[block_index] = (0, 0, 0, 0);
    let place: usize = vertex_start / md.sprite_vertices;
    if !last {
        proof {
            old(md).lemma_record_of(count - 1);
            assert(old(md).owner_ok(count - 1));
            assert(place != count - 1) by (nonlinear_arith)
                requires
                    place == j,
                    vertex_end == unit * j + unit,
                    vertex_end != unit * count,
            ;
        }
        let moved: usize = md.owners[md.owners.len() - 1];
        md.vivi[moved] = (vertex_start, vertex_end, index_start, index_end);
    }
    md.owners.swap_remove(place);
    proof {
        let s1 = md.state(*mesh);
        let want = s0.remove(j, unit as nat, k as nat);
        assert(s1.columns =~~= want.columns) by {
            assert forall|b: int| 0 <= b < attributes implies s1.columns[b]
                =~= want.columns[b] by {
                assert(mesh.attributes@[b].values@ == swap_remove_block(
                    old(mesh).attributes@[b].values@,
                    j,
                    unit,
                ));
            }
        }
        assert(s1 == want);
        let moved = old(md).owners@[count - 1];
        assert(old(md).owner_ok(count - 1));
        old(md).lemma_record_of(count - 1);
        let origin = |i: int|
            if i == j {
                count - 1
            } else {
                i
            };
        assert forall|x: int, y: int|
            0 <= x < s1.owners.len() && 0 <= y < s1.owners.len() && x != y implies s1.owners[x]
            != s1.owners[y] by {
            assert(s1.owners[x] == old(md).owners@[origin(x)]);
            assert(s1.owners[y] == old(md).owners@[origin(y)]);
        }
        assert forall|x: int| 0 <= x < md.owners@.len() implies #[trigger] md.owner_ok(x) by {
            assert(old(md).owner_ok(origin(x)));
            assert(old(md).owners@.contains(old(md).owners@[origin(x)]));
            old(md).lemma_record_of(x);
            if x != j {
                assert(md.owners@[x] != block_index);
                assert(md.owners@[x] != moved || j == count - 1);
            }
        }
        assert forall|v: int| 0 <= v < md.vivi@.len() implies #[trigger] md.record_ok(v) by {
            assert(old(md).record_ok(v));
            if v == block_index {
            } else if v == moved && j != count - 1 {
            } else {
                assert(md.vivi@[v] == old(md).vivi@[v]);
                let r = md.vivi@[v];
                if r != (0usize, 0usize, 0u32, 0u32) {
                    let jv = r.0 as int / unit;
                    old(md).lemma_record_of(jv);
                    assert(old(md).owners@[jv] == v);
                    if jv == j {
                        assert(false);
                    }
                    if jv == count - 1 {
                        assert(false);
                    }
                }
            }
        }
        crate::xsprite::agree::lemma_remove_wf(
            s0,
            unit as nat,
            length,
            md.vivi@.len(),
            block_index,
        );
        assert forall|i: int| 0 <= i < s1.indices.len() implies #[trigger] s1.index_ok(
            unit as nat,
            length,
            i,
        ) by {
            assert(want.index_ok(unit as nat, length, i));
        }
        assert forall|b: int| 0 <= b < s1.columns.len() implies (#[trigger] s1.columns[b]).len()
            == unit * s1.owners.len() by {
            assert(s0.columns[b].len() == unit * count);
        }
        assert(md.wf());
        assert(forall|x: int|
            0 <= x < s1.owners.len() ==> (#[trigger] s1.owners[x]) < md.vivi@.len());
        assert(unit * s1.owners.len() <= u32::MAX);
        assert(length * s1.owners.len() <= u32::MAX);
        assert(s1.indices.len() == length * s1.owners.len());
        assert(s1.wf(unit as nat, length, md.vivi@.len()));
    }
}

/// The prototype of the first sprite that the first `upto` changes add.
pub open spec fn first_sprite<R: MeshRegistry>(reg: &R, log: Seq<BlockChange>, upto: int) -> Option<
    Mesh,
>
    decreases upto,
{
    if upto <= 0 {
        None
    } else {
        match first_sprite(reg, log, upto - 1) {
            Some(m) => Some(m),
            None => if log[upto - 1].0 == BlockMeshChange::Added && is_xsprite_block(
                reg,
                log[upto - 1].1,
            ) {
                Some(prototype_of(reg, log[upto - 1].1))
            } else {
                None
            },
        }
    }
}

/// The number of vertices and the number of indices that the sprites of the mesh
/// have once the log is applied: those that they have already, or, for a mesh that never held a
/// sprite, those of the first sprite that the log adds.
pub open spec fn unit_after<R: MeshRegistry>(md: XSpriteMD, reg: &R) -> (nat, nat) {
    if md.sprite_vertices > 0 {
        (md.sprite_vertices as nat, md.sprite_indices as nat)
    } else {
        match first_sprite(reg, md.log@, md.log@.len() as int) {
            Some(m) => (m.spec_count_vertices(), m.indices@.len()),
            None => (0, md.sprite_indices as nat),
        }
    }
}

/// `proto` can be added as a sprite to a mesh of a chunk with `voxels` voxels whose
/// sprites have `unit` vertices and `length` indices.
pub open spec fn sprite_fits(
    proto: Mesh,
    ids: Seq<AttributeId>,
    voxels: nat,
    unit: nat,
    length: nat,
) -> bool {
    &&& valid_prototype(proto, ids)
    &&& unit > 0
    &&& sprite_matches(proto, unit, length)
    &&& unit * voxels <= u32::MAX
    &&& length * voxels <= u32::MAX
}

/// What is wrong with a logged change, if anything. A change of a block that is no
/// sprite is passed over.
pub open spec fn sprite_change_error<R: MeshRegistry>(
    reg: &R,
    ids: Seq<AttributeId>,
    dims: Dimensions,
    unit: nat,
    length: nat,
    change: BlockChange,
) -> Option<MeshError> {
    if !is_xsprite_block(reg, change.1) {
        None
    } else if spec_pos_to_index(change.2, dims) is None {
        Some(MeshError::OutOfBounds)
    } else if change.0 == BlockMeshChange::Added && !sprite_fits(
        prototype_of(reg, change.1),
        ids,
        dims.volume(),
        unit,
        length,
    ) {
        Some(MeshError::RegistryMismatch)
    } else {
        None
    }
}

/// What is wrong with the first of the first `upto` changes with which something
/// is wrong.
pub open spec fn sprite_log_error<R: MeshRegistry>(
    reg: &R,
    ids: Seq<AttributeId>,
    dims: Dimensions,
    unit: nat,
    length: nat,
    log: Seq<BlockChange>,
    upto: int,
) -> Option<MeshError>
    decreases upto,
{
    if upto <= 0 {
        None
    } else {
        match sprite_log_error(reg, ids, dims, unit, length, log, upto - 1) {
            Some(e) => Some(e),
            None => sprite_change_error(reg, ids, dims, unit, length, log[upto - 1]),
        }
    }
}

/// The state after one change: a sprite that is added stands at the end, one that
/// is broken is removed. Other changes, and changes of blocks that are no sprites,
/// leave the state as it is.
pub open spec fn apply_sprite_change<R: MeshRegistry>(
    s: SpriteState,
    reg: &R,
    ids: Seq<AttributeId>,
    dims: Dimensions,
    unit: nat,
    indices: nat,
    change: BlockChange,
) -> SpriteState {
    let voxel = spec_pos_to_index(change.2, dims).unwrap();
    if !is_xsprite_block(reg, change.1) {
        s
    } else {
        match change.0 {
            BlockMeshChange::Added => s.push(
                voxel,
                prototype_of(reg, change.1),
                ids,
                offset_of(change.2),
            ),
            BlockMeshChange::Broken => s.remove_voxel(voxel, unit, indices),
            _ => s,
        }
    }
}

/// The state after the first `upto` changes of the log.
pub open spec fn apply_sprite_log<R: MeshRegistry>(
    s: SpriteState,
    reg: &R,
    ids: Seq<AttributeId>,
    dims: Dimensions,
    unit: nat,
    indices: nat,
    log: Seq<BlockChange>,
    upto: int,
) -> SpriteState
    decreases upto,
{
    if upto <= 0 {
        s
    } else {
        apply_sprite_change(
            apply_sprite_log(s, reg, ids, dims, unit, indices, log, upto - 1),
            reg,
            ids,
            dims,
            unit,
            indices,
            log[upto - 1],
        )
    }
}

/// No one of the first `upto` changes adds a sprite to a voxel that has one at that
/// time.
pub open spec fn sprite_log_ok<R: MeshRegistry>(
    s: SpriteState,
    reg: &R,
    ids: Seq<AttributeId>,
    dims: Dimensions,
    unit: nat,
    indices: nat,
    log: Seq<BlockChange>,
    upto: int,
) -> bool
    decreases upto,
{
    if upto <= 0 {
        true
    } else {
        let change = log[upto - 1];
        &&& sprite_log_ok(s, reg, ids, dims, unit, indices, log, upto - 1)
        &&& (is_xsprite_block(reg, change.1) && change.0 == BlockMeshChange::Added
            && spec_pos_to_index(change.2, dims) is Some ==> !apply_sprite_log(
            s,
            reg,
            ids,
            dims,
            unit,
            indices,
            log,
            upto - 1,
        ).owners.contains(spec_pos_to_index(change.2, dims).unwrap()))
    }
}

/// Whether the product of two sizes is a 32-bit quantity.
pub fn product_fits(a: usize, b: usize) -> (r: bool)
    ensures
        r == (a * b <= u32::MAX),
{
    if a == 0 || b == 0 {
        assert(a * b == 0) by (nonlinear_arith)
            requires
                a == 0 || b == 0,
        ;
        true
    } else if a > 0xffff_ffff || b > 0xffff_ffff {
        assert(a * b > 0xffff_ffff) by (nonlinear_arith)
            requires
                a >= 1,
                b >= 1,
                a > 0xffff_ffff || b > 0xffff_ffff,
        ;
        false
    } else {
        assert(a * b <= 0xffff_ffff * 0xffff_ffff) by (nonlinear_arith)
            requires
                0 <= a <= 0xffff_ffff,
                0 <= b <= 0xffff_ffff,
        ;
        (a as u64) * (b as u64) <= 0xffff_ffff
    }
}

/// The change that adds the first sprite of the log.
pub proof fn lemma_first_sprite_index<R: MeshRegistry>(reg: &R, log: Seq<BlockChange>, upto: int) -> (i:
    int)
    requires
        0 <= upto <= log.len(),
        first_sprite(reg, log, upto) is Some,
    ensures
        0 <= i < upto,
        log[i].0 == BlockMeshChange::Added,
        is_xsprite_block(reg, log[i].1),
        first_sprite(reg, log, upto) == Some(prototype_of(reg, log[i].1)),
    decreases upto,
{
    if first_sprite(reg, log, upto - 1) is Some {
        lemma_first_sprite_index(reg, log, upto - 1)
    } else {
        upto - 1
    }
}

/// Tells what is wrong with a logged change, if anything.
pub fn check_sprite_change<R: MeshRegistry>(
    reg: &R,
    mesh: &Mesh,
    dims: Dimensions,
    voxels: usize,
    unit: usize,
    length: usize,
    change: &BlockChange,
) -> (r: Option<MeshError>)
    requires
        voxels == dims.volume(),
    ensures
        r == sprite_change_error(reg, mesh.ids(), dims, unit as nat, length as nat, *change),
{
    let block: BlockId = change.1;
    let block_mesh = reg.get_block_mesh_ref(&block);
    if !block_mesh.is_xsprite() {
        return None;
    }
    if pos_to_index(change.2, dims).is_none() {
        return Some(MeshError::OutOfBounds);
    }
    match change.0 {
        BlockMeshChange::Added => {
            let proto = block_mesh.unwrap();
            let fits: bool = is_valid_prototype(proto, mesh) && unit > 0 && proto.count_vertices()
                == unit && proto.indices.len() == length && product_fits(unit, voxels)
                && product_fits(length, voxels);
            if fits {
                None
            } else {
                Some(MeshError::RegistryMismatch)
            }
        },
        _ => None,
    }
}

/// An error among the first changes is the error of the whole log.
pub proof fn lemma_sprite_log_error_stays<R: MeshRegistry>(
    reg: &R,
    ids: Seq<AttributeId>,
    dims: Dimensions,
    unit: nat,
    length: nat,
    log: Seq<BlockChange>,
    upto: int,
    end: int,
)
    requires
        0 <= upto <= end,
        sprite_log_error(reg, ids, dims, unit, length, log, upto) is Some,
    ensures
        sprite_log_error(reg, ids, dims, unit, length, log, end) == sprite_log_error(
            reg,
            ids,
            dims,
            unit,
            length,
            log,
            upto,
        ),
    decreases end - upto,
{
    if upto < end {
        lemma_sprite_log_error_stays(reg, ids, dims, unit, length, log, upto, end - 1);
    }
}

/// A log without error has no error in its first changes.
pub proof fn lemma_sprite_log_error_part<R: MeshRegistry>(
    reg: &R,
    ids: Seq<AttributeId>,
    dims: Dimensions,
    unit: nat,
    length: nat,
    log: Seq<BlockChange>,
    upto: int,
    end: int,
)
    requires
        0 <= upto <= end,
        sprite_log_error(reg, ids, dims, unit, length, log, end) is None,
    ensures
        sprite_log_error(reg, ids, dims, unit, length, log, upto) is None,
    decreases end - upto,
{
    if upto < end {
        lemma_sprite_log_error_part(reg, ids, dims, unit, length, log, upto, end - 1);
    }
}

/// In a log without error nothing is wrong with any change, and all that came
/// before a change were in order.
pub proof fn lemma_sprite_log_none<R: MeshRegistry>(
    s: SpriteState,
    reg: &R,
    ids: Seq<AttributeId>,
    dims: Dimensions,
    unit: nat,
    length: nat,
    log: Seq<BlockChange>,
    end: int,
    i: int,
)
    requires
        0 <= i < end,
    ensures
        sprite_log_error(reg, ids, dims, unit, length, log, end) is None ==> sprite_change_error(
            reg,
            ids,
            dims,
            unit,
            length,
            log[i],
        ) is None,
        sprite_log_ok(s, reg, ids, dims, unit, length, log, end) ==> sprite_log_ok(
            s,
            reg,
            ids,
            dims,
            unit,
            length,
            log,
            i + 1,
        ),
    decreases end - i,
{
    if i + 1 < end {
        lemma_sprite_log_none(s, reg, ids, dims, unit, length, log, end - 1, i);
    }
}

/// The prototype of the first sprite that the log adds.
pub fn find_first_sprite<'a, R: MeshRegistry>(reg: &'a R, log: &Vec<BlockChange>) -> (r: Option<
    &'a Mesh,
>)
    ensures
        match r {
            Some(m) => first_sprite(reg, log@, log@.len() as int) == Some(*m),
            None => first_sprite(reg, log@, log@.len() as int) is None,
        },
{
    let mut i: usize = 0;
    while i < log.len()
        invariant
            i <= log@.len(),
            first_sprite(reg, log@, i as int) is None,
        decreases log@.len() - i,
    {
        let change: BlockChange = log[i];
        match change.0 {
            BlockMeshChange::Added => {
                let block_mesh = reg.get_block_mesh_ref(&change.1);
                if block_mesh.is_xsprite() {
                    let proto = block_mesh.unwrap();
                    proof {
                        assert(first_sprite(reg, log@, i + 1) == Some(*proto));
                        lemma_first_sprite_stays(reg, log@, i + 1, log@.len() as int);
                    }
                    return Some(proto);
                }
            },
            _ => {},
        }
        i = i + 1;
    }
    None
}

/// The first sprite of a part of the log is the first sprite of the whole log.
pub proof fn lemma_first_sprite_stays<R: MeshRegistry>(
    reg: &R,
    log: Seq<BlockChange>,
    upto: int,
    end: int,
)
    requires
        0 <= upto <= end,
        first_sprite(reg, log, upto) is Some,
    ensures
        first_sprite(reg, log, end) == first_sprite(reg, log, upto),
    decreases end - upto,
{
    if upto < end {
        lemma_first_sprite_stays(reg, log, upto, end - 1);
    }
}

/// Why the log of `md` cannot be applied to `mesh`, if it cannot: the error of the
/// first change with which something is wrong, or, where nothing is wrong with the
/// changes themselves, that one of them adds a sprite to a voxel that has one at
/// that time.
pub open spec fn sprite_log_verdict<R: MeshRegistry>(md: XSpriteMD, mesh: Mesh, reg: &R) -> Option<
    MeshError,
> {
    let (unit, length) = unit_after(md, reg);
    match sprite_log_error(reg, mesh.ids(), md.dims, unit, length, md.log@, md.log@.len() as int) {
        Some(e) => Some(e),
        None => if sprite_log_ok(
            md.state(mesh),
            reg,
            mesh.ids(),
            md.dims,
            unit,
            length,
            md.log@,
            md.log@.len() as int,
        ) {
            None
        } else {
            Some(MeshError::InvariantViolation)
        },
    }
}

/// Update the merged mesh of sprites according to the logged changes, in the order
/// in which they were logged, and clear the log.
///
/// Where the log cannot be applied (the position of a change lies outside the
/// chunk, the registry holds an unfit prototype for a sprite that is added, or a
/// sprite is added to a voxel that has one), nothing is applied: mesh and metadata
/// stay as they are, and the error comes back.
pub fn update_xsprite_mesh<R: MeshRegistry>(
    reg: &R,
    mesh: &mut Mesh,
    md: &mut XSpriteMD,
    dims: Dimensions,
) -> (r: Result<(), MeshError>)
    requires
        old(md).consistent(*old(mesh)),
        dims == old(md).dims,
    ensures
        final(md).consistent(*final(mesh)),
        final(mesh).wf(),
        final(mesh).ids() == old(mesh).ids(),
        final(md).dims == old(md).dims,
        match sprite_log_verdict(*old(md), *old(mesh), reg) {
            Some(e) => r == Err::<(), MeshError>(e) && *final(mesh) == *old(mesh) && *final(md)
                == *old(md),
            None => r is Ok && final(md).log@.len() == 0 && final(md).sprite_vertices
                == unit_after(*old(md), reg).0 && final(md).sprite_indices == unit_after(
                *old(md),
                reg,
            ).1 && final(md).state(*final(mesh)) == apply_sprite_log(
                old(md).state(*old(mesh)),
                reg,
                old(mesh).ids(),
                dims,
                unit_after(*old(md), reg).0,
                unit_after(*old(md), reg).1,
                old(md).log@,
                old(md).log@.len() as int,
            ),
        },
{
    let ghost ids = mesh.ids();
    let ghost log = md.log@;
    let ghost s0 = md.state(*mesh);
    let ghost (unit_spec, length_spec) = unit_after(*md, reg);
    let n: usize = md.log.len();
    let voxels: usize = md.vivi.len();
    let first: Option<&Mesh> = if md.sprite_vertices > 0 {
        None
    } else {
        find_first_sprite(reg, &md.log)
    };
    let unit: usize = match first {
        Some(m) => m.count_vertices(),
        None => md.sprite_vertices,
    };
    {
        let length: usize = match first {
            Some(m) => m.indices.len(),
            None => md.sprite_indices,
        };
        let mut i: usize = 0;
        while i < n
            invariant
                i <= n,
                n == log.len(),
                log == md.log@,
                *md == *old(md),
                *mesh == *old(mesh),
                md.consistent(*mesh),
                ids == mesh.ids(),
                dims == md.dims,
                voxels == dims.volume(),
                s0 == md.state(*mesh),
                unit == unit_spec,
                length == length_spec,
                (unit_spec, length_spec) == unit_after(*old(md), reg),
                sprite_log_error(reg, ids, dims, unit_spec, length_spec, log, i as int) is None,
            decreases n - i,
        {
            match check_sprite_change(reg, mesh, dims, voxels, unit, length, &md.log[i]) {
                Some(e) => {
                    proof {
                        lemma_sprite_log_error_stays(
                            reg,
                            ids,
                            dims,
                            unit_spec,
                            length_spec,
                            log,
                            i + 1,
                            n as int,
                        );
                        md.lemma_consistent_mesh_wf(*mesh);
                    }
                    return Err(e);
                },
                None => {},
            }
            i = i + 1;
        }
    }
    proof {
        assert(*md == *old(md));
        assert(first is Some ==> old(md).sprite_vertices == 0);
        // the mesh is in order for the sprites that it holds once the log is applied
        match first {
            Some(m) => {
                let i0 = lemma_first_sprite_index(reg, log, n as int);
                lemma_sprite_log_none(s0, reg, ids, dims, unit_spec, length_spec, log, n as int, i0);
                assert(sprite_change_error(reg, ids, dims, unit_spec, length_spec, log[i0]) is None);
                assert(sprite_fits(*m, ids, dims.volume(), unit_spec, length_spec));
                assert(s0.owners.len() == 0);
                let before = old(md).sprite_vertices;
                let old_indices = old(md).sprite_indices;
                assert(before * s0.owners.len() == 0) by (nonlinear_arith)
                    requires
                        s0.owners.len() == 0,
                ;
                assert(old_indices * s0.owners.len() == 0) by (nonlinear_arith)
                    requires
                        s0.owners.len() == 0,
                ;
                assert(unit_spec * s0.owners.len() == 0) by (nonlinear_arith)
                    requires
                        s0.owners.len() == 0,
                ;
                assert(length_spec * s0.owners.len() == 0) by (nonlinear_arith)
                    requires
                        s0.owners.len() == 0,
                ;
                assert forall|a: int| 0 <= a < s0.columns.len() implies (
                #[trigger] s0.columns[a]).len() == unit_spec * s0.owners.len() by {
                    assert(s0.columns[a].len() == before * s0.owners.len());
                }
                assert(s0.indices.len() == 0);
                assert(s0.wf(unit_spec, length_spec, dims.volume()));
            },
            None => {
                assert(s0.wf(unit_spec, length_spec, dims.volume()));
            },
        }
    }
    if !crate::xsprite::agree::sprite_log_agrees(
        reg,
        mesh,
        md,
        Ghost(unit_spec),
        Ghost(length_spec),
    ) {
        proof {
            md.lemma_consistent_mesh_wf(*mesh);
        }
        return Err(MeshError::InvariantViolation);
    }
    match first {
        Some(m) => {
            proof {
                let i0 = lemma_first_sprite_index(reg, log, n as int);
                lemma_sprite_log_none(s0, reg, ids, dims, unit_spec, length_spec, log, n as int, i0);
                assert(sprite_change_error(reg, ids, dims, unit_spec, length_spec, log[i0]) is None);
                assert(sprite_fits(*m, ids, dims.volume(), unit_spec, length_spec));
                assert(old(md).owners@.len() == 0);
            }
            md.sprite_indices = m.indices.len();
            md.sprite_vertices = unit;
            proof {
                assert forall|v: int| 0 <= v < md.vivi@.len() implies #[trigger] md.record_ok(
                    v,
                ) by {
                    assert(old(md).record_ok(v));
                }
                let s = md.state(*mesh);
                assert(s == s0);
                assert(old(md).consistent(*old(mesh)));
                assert(s0 == old(md).state(*old(mesh)));
                assert(s0.owners.len() == 0);
                assert forall|a: int| 0 <= a < s.columns.len() implies (#[trigger] s.columns[a]).len()
                    == unit * s.owners.len() by {
                    assert(s0.columns[a].len() == old(md).sprite_vertices * s0.owners.len());
                    let before = old(md).sprite_vertices;
                    assert(before * s0.owners.len() == 0) by (nonlinear_arith)
                        requires
                            s0.owners.len() == 0,
                    ;
                    assert(unit * s.owners.len() == 0) by (nonlinear_arith)
                        requires
                            s.owners.len() == 0,
                    ;
                }
                assert(unit * s.owners.len() == 0) by (nonlinear_arith)
                    requires
                        s.owners.len() == 0,
                ;
                assert(md.sprite_indices * s.owners.len() == 0) by (nonlinear_arith)
                    requires
                        s.owners.len() == 0,
                ;
                let old_indices = old(md).sprite_indices;
                assert(old_indices * s0.owners.len() == 0) by (nonlinear_arith)
                    requires
                        s0.owners.len() == 0,
                ;
                assert(s.indices.len() == 0);
                assert(s.wf(unit as nat, md.sprite_indices as nat, md.vivi@.len()));
            }
        },
        None => {},
    }
    proof {
        assert(md.state(*mesh) == s0);
        if n > 0 {
            lemma_sprite_log_none(s0, reg, ids, dims, unit_spec, length_spec, log, n as int, 0);
        }
    }
    let mut i: usize = 0;
    while i < n
        invariant
            i <= n,
            n == log.len(),
            log == md.log@,
            md.dims == dims,
            md.consistent(*mesh),
            mesh.ids() == ids,
            md.sprite_vertices == unit_spec,
            md.sprite_indices == length_spec,
            md.vivi@.len() == dims.volume(),
            sprite_log_error(reg, ids, dims, unit_spec, length_spec, log, n as int) is None,
            sprite_log_ok(s0, reg, ids, dims, unit_spec, length_spec, log, n as int),
            md.state(*mesh) == apply_sprite_log(
                s0,
                reg,
                ids,
                dims,
                unit_spec,
                length_spec,
                log,
                i as int,
            ),
        decreases n - i,
    {
        proof {
            lemma_sprite_log_none(s0, reg, ids, dims, unit_spec, length_spec, log, n as int, i as int);
        }
        let change: BlockChange = md.log[i];
        let block_mesh = reg.get_block_mesh_ref(&change.1);
        if block_mesh.is_xsprite() {
            match change.0 {
                BlockMeshChange::Added => {
                    let proto = block_mesh.unwrap();
                    add_xsprite_block(mesh, md, change.2, proto, dims);
                },
                BlockMeshChange::Broken => {
                    remove_xsprite_voxel(mesh, md, change.2, dims);
                },
                _ => {},
            }
        }
        i = i + 1;
    }
    let ghost before = *md;
    md.log.clear();
    proof {
        assert forall|v: int| 0 <= v < md.vivi@.len() implies #[trigger] md.record_ok(v) by {
            assert(before.record_ok(v));
        }
        assert forall|j: int| 0 <= j < md.owners@.len() implies #[trigger] md.owner_ok(j) by {
            assert(before.owner_ok(j));
        }
        assert(md.state(*mesh) == before.state(*mesh));
        md.lemma_consistent_mesh_wf(*mesh);
    }
    Ok(())
}

} // verus!
