//! Telling whether a log of changes agrees with the sprites that a mesh holds.
use vstd::prelude::*;
use crate::chunk::{pos_to_index, spec_pos_to_index, BlockId, Dimensions};
use crate::cube::update::{offset_of, prototype_of};
use crate::merge::{proto_column, proto_indices};
use crate::mesh::{AttributeId, Mesh, VertexValue};
use crate::mesh_reg::MeshRegistry;
use crate::xsprite::md::{swap_remove_block, BlockChange, SpriteState, XSpriteMD};
use crate::xsprite::update::{
    apply_sprite_change, apply_sprite_log, is_xsprite_block, lemma_distinct_bound,
    sprite_change_error, sprite_fits, sprite_log_error, sprite_log_ok,
};
use crate::BlockMeshChange;

verus! {

/// A state in order stays in order when a fit sprite is added to a voxel that had
/// none, and that voxel is the only one that gains a sprite.
pub proof fn lemma_push_wf(
    s: SpriteState,
    unit: nat,
    length: nat,
    voxels: nat,
    voxel: usize,
    proto: Mesh,
    ids: Seq<AttributeId>,
    offset: VertexValue,
)
    requires
        s.wf(unit, length, voxels),
        s.columns.len() == ids.len(),
        sprite_fits(proto, ids, voxels, unit, length),
        voxel < voxels,
        !s.owners.contains(voxel),
    ensures
        s.push(voxel, proto, ids, offset).wf(unit, length, voxels),
        s.push(voxel, proto, ids, offset).columns.len() == ids.len(),
        forall|x: usize| #[trigger]
            s.push(voxel, proto, ids, offset).owners.contains(x) <==> s.owners.contains(x) || x
                == voxel,
{
    let t = s.push(voxel, proto, ids, offset);
    let count = s.owners.len() as int;
    let u = unit as int;
    let k = length as int;
    assert forall|i: int, j: int|
        0 <= i < t.owners.len() && 0 <= j < t.owners.len() && i != j implies t.owners[i]
        != t.owners[j] by {
        if i < count && j < count {
        } else if i < count {
            assert(s.owners.contains(s.owners[i]));
        } else {
            assert(s.owners.contains(s.owners[j]));
        }
    }
    assert forall|j: int| 0 <= j < t.owners.len() implies (#[trigger] t.owners[j]) < voxels by {
        if j < count {
            assert(s.owners[j] < voxels);
        }
    }
    lemma_distinct_bound(t.owners, voxels);
    assert(u * (count + 1) <= u * voxels) by (nonlinear_arith)
        requires
            count + 1 <= voxels,
            u >= 0,
    ;
    assert(k * (count + 1) <= k * voxels) by (nonlinear_arith)
        requires
            count + 1 <= voxels,
            k >= 0,
    ;
    assert(u * (count + 1) == u * count + u) by (nonlinear_arith);
    assert(k * (count + 1) == k * count + k) by (nonlinear_arith);
    assert forall|a: int| 0 <= a < t.columns.len() implies (#[trigger] t.columns[a]).len() == u
        * (count + 1) by {
        assert(s.columns[a].len() == u * count);
        assert(proto.ids().contains(ids[a]));
        let pa = proto.spec_attribute_position(ids[a]).unwrap();
        assert(proto.ids()[pa] == ids[a]);
        assert(proto.attributes@[pa].values@.len() == proto.spec_count_vertices());
    }
    assert forall|i: int| 0 <= i < t.indices.len() implies #[trigger] t.index_ok(
        unit,
        length,
        i,
    ) by {
        if i < s.indices.len() {
            assert(s.index_ok(unit, length, i));
        } else {
            let place = i - k * count;
            assert(t.indices[i] == proto_indices(proto, u * count)[place]);
            assert(proto.indices@[place] < proto.spec_count_vertices());
            assert(i == count * k + place) by (nonlinear_arith)
                requires
                    place == i - k * count,
            ;
            vstd::arithmetic::div_mod::lemma_fundamental_div_mod_converse(i, k, count, place);
        }
    }
    assert forall|x: usize| #[trigger] t.owners.contains(x) <==> s.owners.contains(x) || x
        == voxel by {
        if t.owners.contains(x) {
            let i = choose|i: int| 0 <= i < t.owners.len() && t.owners[i] == x;
            if i < count {
                assert(s.owners[i] == x);
            }
        }
        if s.owners.contains(x) {
            let i = choose|i: int| 0 <= i < s.owners.len() && s.owners[i] == x;
            assert(t.owners[i] == x);
        }
        if x == voxel {
            assert(t.owners[count] == x);
        }
    }
}

/// A state in order stays in order when the sprite of a voxel is removed, and that
/// voxel is the only one that loses a sprite.
pub proof fn lemma_remove_wf(
    s: SpriteState,
    unit: nat,
    length: nat,
    voxels: nat,
    voxel: usize,
)
    requires
        s.wf(unit, length, voxels),
    ensures
        s.remove_voxel(voxel, unit, length).wf(unit, length, voxels),
        s.remove_voxel(voxel, unit, length).columns.len() == s.columns.len(),
        forall|x: usize| #[trigger]
            s.remove_voxel(voxel, unit, length).owners.contains(x) <==> s.owners.contains(
                x,
            ) && x != voxel,
{
    let t = s.remove_voxel(voxel, unit, length);
    match s.slot_of(voxel) {
        None => {},
        Some(j) => {
            let count = s.owners.len() as int;
            let u = unit as int;
            let k = length as int;
            let last = count - 1;
            assert(s.owners[j] == voxel);
            assert(u * (count - 1) == u * count - u) by (nonlinear_arith);
            assert(k * (count - 1) == k * count - k) by (nonlinear_arith);
            assert(u * count - u >= 0) by (nonlinear_arith)
                requires
                    count >= 1,
                    u >= 0,
            ;
            assert(k * count - k >= 0) by (nonlinear_arith)
                requires
                    count >= 1,
                    k >= 0,
            ;
            let origin = |i: int|
                if i == j {
                    last
                } else {
                    i
                };
            assert forall|a: int, b: int|
                0 <= a < t.owners.len() && 0 <= b < t.owners.len() && a != b implies t.owners[a]
                != t.owners[b] by {
                assert(t.owners[a] == s.owners[origin(a)]);
                assert(t.owners[b] == s.owners[origin(b)]);
            }
            assert forall|i: int| 0 <= i < t.owners.len() implies (#[trigger] t.owners[i])
                < voxels by {
                assert(t.owners[i] == s.owners[origin(i)]);
                assert(s.owners[origin(i)] < voxels);
            }
            assert forall|a: int| 0 <= a < t.columns.len() implies (#[trigger] t.columns[a]).len()
                == u * (count - 1) by {
                assert(s.columns[a].len() == u * count);
            }
            assert forall|i: int| 0 <= i < t.indices.len() implies #[trigger] t.index_ok(
                unit,
                length,
                i,
            ) by {
                if k * j <= i < k * j + k {
                    let place = i - k * j;
                    crate::xsprite::md::lemma_sprite_place(k, j, place);
                    crate::xsprite::md::lemma_sprite_place(k, last, place);
                    assert(s.index_ok(unit, length, k * last + place));
                    assert(u * j + u <= u * count) by (nonlinear_arith)
                        requires
                            j + 1 <= count,
                            u >= 0,
                    ;
                } else {
                    assert(s.index_ok(unit, length, i));
                }
            }
            assert forall|x: usize| #[trigger]
                t.owners.contains(x) <==> s.owners.contains(x) && x != voxel by {
                if t.owners.contains(x) {
                    let i = choose|i: int| 0 <= i < t.owners.len() && t.owners[i] == x;
                    assert(t.owners[i] == s.owners[origin(i)]);
                    assert(s.owners.contains(x));
                }
                if s.owners.contains(x) && x != voxel {
                    let i = choose|i: int| 0 <= i < s.owners.len() && s.owners[i] == x;
                    if i == last {
                        assert(t.owners[j] == x);
                    } else {
                        assert(t.owners[i] == x);
                    }
                }
            }
        },
    }
}

/// A change with which nothing is wrong, and which agrees with the state, leaves a
/// state in order, and changes which voxels have sprites as it says.
pub proof fn lemma_sprite_change<R: MeshRegistry>(
    s: SpriteState,
    reg: &R,
    ids: Seq<AttributeId>,
    dims: Dimensions,
    unit: nat,
    length: nat,
    change: BlockChange,
)
    requires
        s.wf(unit, length, dims.volume()),
        s.columns.len() == ids.len(),
        sprite_change_error(reg, ids, dims, unit, length, change) is None,
        is_xsprite_block(reg, change.1) && change.0 == BlockMeshChange::Added
            ==> !s.owners.contains(spec_pos_to_index(change.2, dims).unwrap()),
    ensures
        apply_sprite_change(s, reg, ids, dims, unit, length, change).wf(
            unit,
            length,
            dims.volume(),
        ),
        apply_sprite_change(s, reg, ids, dims, unit, length, change).columns.len()
            == ids.len(),
        forall|x: usize| #[trigger]
            apply_sprite_change(s, reg, ids, dims, unit, length, change).owners.contains(x)
                <==> (if is_xsprite_block(reg, change.1) && x == spec_pos_to_index(
                change.2,
                dims,
            ).unwrap() && (change.0 == BlockMeshChange::Added || change.0
                == BlockMeshChange::Broken) {
                change.0 == BlockMeshChange::Added
            } else {
                s.owners.contains(x)
            }),
{
    if is_xsprite_block(reg, change.1) {
        let voxel = spec_pos_to_index(change.2, dims).unwrap();
        crate::chunk::lemma_linear_index_bound(change.2, dims);
        match change.0 {
            BlockMeshChange::Added => {
                lemma_push_wf(
                    s,
                    unit,
                    length,
                    dims.volume(),
                    voxel,
                    prototype_of(reg, change.1),
                    ids,
                    offset_of(change.2),
                );
            },
            BlockMeshChange::Broken => {
                lemma_remove_wf(s, unit, length, dims.volume(), voxel);
            },
            _ => {},
        }
    }
}

/// The states that a log without error, which agrees with the mesh, runs through
/// are all in order.
pub proof fn lemma_sprite_log_states<R: MeshRegistry>(
    s: SpriteState,
    reg: &R,
    ids: Seq<AttributeId>,
    dims: Dimensions,
    unit: nat,
    length: nat,
    log: Seq<BlockChange>,
    upto: int,
)
    requires
        s.wf(unit, length, dims.volume()),
        s.columns.len() == ids.len(),
        0 <= upto <= log.len(),
        sprite_log_error(reg, ids, dims, unit, length, log, upto) is None,
        sprite_log_ok(s, reg, ids, dims, unit, length, log, upto),
    ensures
        apply_sprite_log(s, reg, ids, dims, unit, length, log, upto).wf(
            unit,
            length,
            dims.volume(),
        ),
        apply_sprite_log(s, reg, ids, dims, unit, length, log, upto).columns.len()
            == ids.len(),
    decreases upto,
{
    if upto > 0 {
        lemma_sprite_log_states(s, reg, ids, dims, unit, length, log, upto - 1);
        lemma_sprite_change(
            apply_sprite_log(s, reg, ids, dims, unit, length, log, upto - 1),
            reg,
            ids,
            dims,
            unit,
            length,
            log[upto - 1],
        );
    }
}

/// A log that disagrees with the mesh in its first changes disagrees with it as a
/// whole.
pub proof fn lemma_sprite_log_ok_part<R: MeshRegistry>(
    s: SpriteState,
    reg: &R,
    ids: Seq<AttributeId>,
    dims: Dimensions,
    unit: nat,
    indices: nat,
    log: Seq<BlockChange>,
    upto: int,
    end: int,
)
    requires
        0 <= upto <= end,
        sprite_log_ok(s, reg, ids, dims, unit, indices, log, end),
    ensures
        sprite_log_ok(s, reg, ids, dims, unit, indices, log, upto),
    decreases end - upto,
{
    if upto < end {
        lemma_sprite_log_ok_part(s, reg, ids, dims, unit, indices, log, upto, end - 1);
    }
}

/// Tells whether no change of the log adds a sprite to a voxel that has one at that
/// time. Nothing is wrong with the changes themselves.
pub(crate) fn sprite_log_agrees<R: MeshRegistry>(
    reg: &R,
    mesh: &Mesh,
    md: &XSpriteMD,
    Ghost(unit): Ghost<nat>,
    Ghost(length): Ghost<nat>,
) -> (r: bool)
    requires
        md.consistent(*mesh),
        md.state(*mesh).wf(unit, length, md.dims.volume()),
        sprite_log_error(reg, mesh.ids(), md.dims, unit, length, md.log@, md.log@.len() as int)
            is None,
    ensures
        r == sprite_log_ok(
            md.state(*mesh),
            reg,
            mesh.ids(),
            md.dims,
            unit,
            length,
            md.log@,
            md.log@.len() as int,
        ),
{
    let ghost s0 = md.state(*mesh);
    let ghost ids = mesh.ids();
    let ghost log = md.log@;
    let dims: Dimensions = md.dims;
    let voxels: usize = md.vivi.len();
    let mut taken: Vec<bool> = Vec::new();
    let mut v: usize = 0;
    while v < voxels
        invariant
            v <= voxels,
            voxels == md.vivi@.len(),
            md.consistent(*mesh),
            taken@.len() == v,
            forall|w: int| 0 <= w < v ==> (#[trigger] taken@[w]) == md.owners@.contains(w as usize),
        decreases voxels - v,
    {
        let record = md.vivi[v];
        proof {
            assert(md.record_ok(v as int));
            if md.owners@.contains(v) {
                let j = choose|j: int| 0 <= j < md.owners@.len() && md.owners@[j] == v;
                assert(md.owner_ok(j));
                md.lemma_record_of(j);
            }
            if record != (0usize, 0usize, 0u32, 0u32) {
                md.lemma_record_of(record.0 as int / (md.sprite_vertices as int));
            }
        }
        taken.push(record.1 > record.0);
        v = v + 1;
    }
    let n: usize = md.log.len();
    let mut i: usize = 0;
    while i < n
        invariant
            i <= n,
            n == log.len(),
            log == md.log@,
            dims == md.dims,
            ids == mesh.ids(),
            s0 == md.state(*mesh),
            voxels == dims.volume(),
            taken@.len() == voxels,
            s0.wf(unit, length, dims.volume()),
            s0.columns.len() == ids.len(),
            sprite_log_error(reg, ids, dims, unit, length, log, n as int) is None,
            sprite_log_ok(s0, reg, ids, dims, unit, length, log, i as int),
            forall|w: int|
                0 <= w < voxels ==> (#[trigger] taken@[w]) == apply_sprite_log(
                    s0,
                    reg,
                    ids,
                    dims,
                    unit,
                    length,
                    log,
                    i as int,
                ).owners.contains(w as usize),
        decreases n - i,
    {
        let ghost before = apply_sprite_log(s0, reg, ids, dims, unit, length, log, i as int);
        proof {
            crate::xsprite::update::lemma_sprite_log_none(
                s0,
                reg,
                ids,
                dims,
                unit,
                length,
                log,
                n as int,
                i as int,
            );
            crate::xsprite::update::lemma_sprite_log_error_part(
                reg,
                ids,
                dims,
                unit,
                length,
                log,
                i as int,
                n as int,
            );
            lemma_sprite_log_states(s0, reg, ids, dims, unit, length, log, i as int);
        }
        let change: BlockChange = md.log[i];
        let block: BlockId = change.1;
        if reg.get_block_mesh_ref(&block).is_xsprite() {
            proof {
                crate::chunk::lemma_linear_index_bound(change.2, dims);
            }
            let voxel: usize = pos_to_index(change.2, dims).unwrap();
            match change.0 {
                BlockMeshChange::Added => {
                    if taken[voxel] {
                        proof {
                            assert(!sprite_log_ok(
                                s0,
                                reg,
                                ids,
                                dims,
                                unit,
                                length,
                                log,
                                i + 1,
                            ));
                            if sprite_log_ok(
                                s0,
                                reg,
                                ids,
                                dims,
                                unit,
                                length,
                                log,
                                n as int,
                            ) {
                                lemma_sprite_log_ok_part(
                                    s0,
                                    reg,
                                    ids,
                                    dims,
                                    unit,
                                    length,
                                    log,
                                    i + 1,
                                    n as int,
                                );
                            }
                        }
                        return false;
                    }
                    taken[voxel] = true;
                },
                BlockMeshChange::Broken => {
                    taken[voxel] = false;
                },
                _ => {},
            }
        }
        proof {
            lemma_sprite_change(before, reg, ids, dims, unit, length, change);
        }
        i = i + 1;
    }
    true
}

} // verus!
