//! Vertex and index buffers in fixed-point coordinates.
//!
//! A mesh is a set of parallel attribute columns, one value per vertex in each, and
//! a flat list of triangle indices. All components are integers: positions are
//! measured in units of which `UNITS_PER_BLOCK` make up one block edge, and the
//! other attributes are carried through as they were given.
use vstd::prelude::*;

verus! {

/// Number of position units that make up the edge of one block.
pub const UNITS_PER_BLOCK: i64 = 65536;

/// Identifier of a vertex attribute.
pub type AttributeId = u64;

pub const ATTRIBUTE_POSITION: AttributeId = 0;

pub const ATTRIBUTE_NORMAL: AttributeId = 1;

pub const ATTRIBUTE_UV_0: AttributeId = 2;

pub const ATTRIBUTE_COLOR: AttributeId = 5;

/// The value of one attribute at one vertex: up to four components.
#[derive(Clone, Copy, Debug, PartialEq, Eq, Structural, Hash)]
pub struct VertexValue {
    pub x: i64,
    pub y: i64,
    pub z: i64,
    pub w: i64,
}

/// One attribute column: the values of the attribute `id`, vertex by vertex.
#[derive(Clone, Debug)]
pub struct MeshAttribute {
    pub id: AttributeId,
    pub values: Vec<VertexValue>,
}

/// A triangle mesh: parallel attribute columns and a flat index list.
#[derive(Clone, Debug)]
pub struct Mesh {
    pub attributes: Vec<MeshAttribute>,
    pub indices: Vec<u32>,
}

/// Whether a coordinate is small enough to be moved to any block position.
pub open spec fn spec_fits_i32(v: i64) -> bool {
    -0x8000_0000 <= v <= 0x7fff_ffff
}

impl VertexValue {
    pub fn new(x: i64, y: i64, z: i64, w: i64) -> (r: Self)
        ensures
            r == (VertexValue { x, y, z, w }),
    {
        VertexValue { x, y, z, w }
    }

    /// The value moved by `offset` in its first three components.
    pub open spec fn spec_translated(self, offset: VertexValue) -> VertexValue {
        VertexValue {
            x: (self.x + offset.x) as i64,
            y: (self.y + offset.y) as i64,
            z: (self.z + offset.z) as i64,
            w: self.w,
        }
    }

    /// Whether the first three components are 32-bit quantities.
    pub open spec fn spec_is_local(self) -> bool {
        spec_fits_i32(self.x) && spec_fits_i32(self.y) && spec_fits_i32(self.z)
    }

    pub fn is_local(&self) -> (r: bool)
        ensures
            r == self.spec_is_local(),
    {
        -0x8000_0000 <= self.x && self.x <= 0x7fff_ffff && -0x8000_0000 <= self.y && self.y
            <= 0x7fff_ffff && -0x8000_0000 <= self.z && self.z <= 0x7fff_ffff
    }
}

/// The world offset, in position units, of the block at grid coordinates `(x, y, z)`.
pub open spec fn spec_block_offset(x: u32, y: u32, z: u32) -> VertexValue {
    VertexValue {
        x: (x * UNITS_PER_BLOCK) as i64,
        y: (y * UNITS_PER_BLOCK) as i64,
        z: (z * UNITS_PER_BLOCK) as i64,
        w: 0,
    }
}

/// The world offset of the block at grid coordinates `(x, y, z)`.
pub fn block_offset(x: u32, y: u32, z: u32) -> (r: VertexValue)
    ensures
        r == spec_block_offset(x, y, z),
        0 <= r.x <= 0xffff_ffff * UNITS_PER_BLOCK,
        0 <= r.y <= 0xffff_ffff * UNITS_PER_BLOCK,
        0 <= r.z <= 0xffff_ffff * UNITS_PER_BLOCK,
{
    VertexValue {
        x: (x as i64) * UNITS_PER_BLOCK,
        y: (y as i64) * UNITS_PER_BLOCK,
        z: (z as i64) * UNITS_PER_BLOCK,
        w: 0,
    }
}

/// `value` moved by `offset`, for a prototype value and the offset of a block.
pub fn translate(value: VertexValue, offset: VertexValue) -> (r: VertexValue)
    requires
        value.spec_is_local(),
        0 <= offset.x <= 0xffff_ffff * UNITS_PER_BLOCK,
        0 <= offset.y <= 0xffff_ffff * UNITS_PER_BLOCK,
        0 <= offset.z <= 0xffff_ffff * UNITS_PER_BLOCK,
    ensures
        r == value.spec_translated(offset),
        r.x == value.x + offset.x,
        r.y == value.y + offset.y,
        r.z == value.z + offset.z,
{
    VertexValue { x: value.x + offset.x, y: value.y + offset.y, z: value.z + offset.z, w: value.w }
}

impl Mesh {
    /// The attribute columns as sequences of values, in the order in which they are held.
    pub open spec fn columns(self) -> Seq<Seq<VertexValue>> {
        Seq::new(self.attributes@.len(), |a: int| self.attributes@[a].values@)
    }

    /// The attribute identifiers, in the order in which the columns are held.
    pub open spec fn ids(self) -> Seq<AttributeId> {
        Seq::new(self.attributes@.len(), |a: int| self.attributes@[a].id)
    }

    /// Number of vertices: the length of the first column.
    pub open spec fn spec_count_vertices(self) -> nat {
        if self.attributes@.len() == 0 {
            0
        } else {
            self.attributes@[0].values@.len()
        }
    }

    /// All columns have one length, no attribute occurs twice, and the indices
    /// form triangles over the vertices.
    pub open spec fn wf(self) -> bool {
        &&& forall|a: int|
            0 <= a < self.attributes@.len() ==> (#[trigger] self.attributes@[a]).values@.len()
                == self.spec_count_vertices()
        &&& self.ids().no_duplicates()
        &&& self.indices@.len() % 3 == 0
        &&& forall|i: int|
            0 <= i < self.indices@.len() ==> (#[trigger] self.indices@[i])
                < self.spec_count_vertices()
    }

    /// The place of the column of attribute `id`, if the mesh has one.
    pub open spec fn spec_attribute_position(self, id: AttributeId) -> Option<int> {
        if self.ids().contains(id) {
            Some(self.ids().index_of(id))
        } else {
            None
        }
    }

    /// The values of attribute `id`, if the mesh has that attribute.
    pub open spec fn spec_attribute(self, id: AttributeId) -> Option<Seq<VertexValue>> {
        match self.spec_attribute_position(id) {
            Some(a) => Some(self.attributes@[a].values@),
            None => None,
        }
    }

    /// A mesh without attributes and without indices.
    pub fn new() -> (r: Mesh)
        ensures
            r.attributes@.len() == 0,
            r.indices@.len() == 0,
            r.wf(),
    {
        Mesh { attributes: Vec::new(), indices: Vec::new() }
    }

    /// The place of the first column that holds attribute `id`.
    pub fn attribute_position(&self, id: AttributeId) -> (r: Option<usize>)
        ensures
            r is Some <==> self.ids().contains(id),
            r is Some ==> r.unwrap() < self.attributes@.len() && self.attributes@[r.unwrap() as int].id
                == id && forall|b: int| 0 <= b < r.unwrap() ==> self.attributes@[b].id != id,
            self.ids().no_duplicates() ==> match r {
                Some(a) => self.spec_attribute_position(id) == Some(a as int),
                None => self.spec_attribute_position(id) is None,
            },
    {
        let mut a: usize = 0;
        while a < self.attributes.len()
            invariant
                a <= self.attributes@.len(),
                forall|b: int| 0 <= b < a ==> self.attributes@[b].id != id,
            decreases self.attributes@.len() - a,
        {
            if self.attributes[a].id == id {
                proof {
                    assert(self.ids()[a as int] == id);
                    if self.ids().no_duplicates() {
                        let k = self.ids().index_of(id);
                        assert(self.ids()[k] == id);
                    }
                }
                return Some(a);
            }
            a = a + 1;
        }
        proof {
            if self.ids().contains(id) {
                let k = choose|k: int| 0 <= k < self.ids().len() && self.ids()[k] == id;
                assert(self.attributes@[k].id == id);
            }
        }
        None
    }

    /// The values of attribute `id`, if the mesh has that attribute: those of the
    /// first column that holds it.
    pub fn attribute(&self, id: AttributeId) -> (r: Option<&Vec<VertexValue>>)
        ensures
            r is Some <==> self.ids().contains(id),
            r matches Some(v) ==> exists|a: int|
                0 <= a < self.attributes@.len() && (#[trigger] self.attributes@[a]).id == id
                    && *v == self.attributes@[a].values && forall|b: int|
                    0 <= b < a ==> self.attributes@[b].id != id,
            self.ids().no_duplicates() ==> match r {
                Some(v) => self.spec_attribute(id) == Some(v@),
                None => self.spec_attribute(id) is None,
            },
    {
        match self.attribute_position(id) {
            Some(a) => Some(&self.attributes[a].values),
            None => None,
        }
    }

    /// Sets the values of attribute `id`, replacing those that the mesh had for it.
    pub fn insert_attribute(&mut self, id: AttributeId, values: Vec<VertexValue>)
        ensures
            final(self).indices == old(self).indices,
            final(self).ids().contains(id),
            match old(self).ids().index_of_first(id) {
                Some(a) => final(self).attributes@ == old(self).attributes@.update(
                    a,
                    MeshAttribute { id, values },
                ),
                None => final(self).attributes@ == old(self).attributes@.push(
                    MeshAttribute { id, values },
                ),
            },
    {
        let found = self.attribute_position(id);
        proof {
            old(self).ids().index_of_first_ensures(id);
        }
        match found {
            Some(a) => {
                proof {
                    let k = old(self).ids().index_of_first(id).unwrap();
                    assert(old(self).ids()[k] == id);
                    assert(old(self).ids()[a as int] == id);
                    assert(k == a);
                }
                self.attributes[a] = MeshAttribute { id, values };
                assert(final(self).ids()[a as int] == id);
            },
            None => {
                self.attributes.push(MeshAttribute { id, values });
                assert(final(self).ids()[old(self).attributes@.len() as int] == id);
            },
        }
    }

    /// Number of vertices of the mesh.
    pub fn count_vertices(&self) -> (r: usize)
        ensures
            r == self.spec_count_vertices(),
    {
        if self.attributes.len() == 0 {
            0
        } else {
            self.attributes[0].values.len()
        }
    }

    /// The triangle indices.
    pub fn indices(&self) -> (r: &Vec<u32>)
        ensures
            *r == self.indices,
    {
        &self.indices
    }

    /// Replaces the triangle indices.
    pub fn set_indices(&mut self, indices: Vec<u32>)
        ensures
            final(self).indices == indices,
            final(self).attributes == old(self).attributes,
    {
        self.indices = indices;
    }

    /// Whether the mesh is well formed.
    pub fn is_wf(&self) -> (r: bool)
        ensures
            r == self.wf(),
    {
        let n = self.count_vertices();
        let mut a: usize = 0;
        while a < self.attributes.len()
            invariant
                a <= self.attributes@.len(),
                n == self.spec_count_vertices(),
                forall|b: int|
                    0 <= b < a ==> (#[trigger] self.attributes@[b]).values@.len() == n,
                forall|b: int, c: int| 0 <= b < c < a ==> self.attributes@[b].id != self.attributes@[c].id,
            decreases self.attributes@.len() - a,
        {
            if self.attributes[a].values.len() != n {
                return false;
            }
            let mut b: usize = 0;
            while b < a
                invariant
                    b <= a < self.attributes@.len(),
                    forall|c: int| 0 <= c < b ==> self.attributes@[c].id != self.attributes@[a as int].id,
                decreases a - b,
            {
                if self.attributes[b].id == self.attributes[a].id {
                    proof {
                        assert(self.ids()[b as int] == self.ids()[a as int]);
                    }
                    return false;
                }
                b = b + 1;
            }
            a = a + 1;
        }
        assert(self.ids().no_duplicates()) by {
            assert forall|i: int, j: int|
                0 <= i < self.ids().len() && 0 <= j < self.ids().len() && i != j implies self.ids()[i]
                != self.ids()[j] by {
                if i < j {
                    assert(self.attributes@[i].id != self.attributes@[j].id);
                } else {
                    assert(self.attributes@[j].id != self.attributes@[i].id);
                }
            }
        }
        if self.indices.len() % 3 != 0 {
            return false;
        }
        let mut i: usize = 0;
        while i < self.indices.len()
            invariant
                i <= self.indices@.len(),
                n == self.spec_count_vertices(),
                forall|j: int| 0 <= j < i ==> (#[trigger] self.indices@[j]) < n,
            decreases self.indices@.len() - i,
        {
            if self.indices[i] as usize >= n {
                return false;
            }
            i = i + 1;
        }
        true
    }
}

} // verus!
