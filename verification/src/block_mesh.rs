//! The prototype mesh of a block type, tagged with the kind of mesh it is.
use vstd::prelude::*;
use crate::mesh::{Mesh, VertexValue, ATTRIBUTE_POSITION};

verus! {

/// An axis-aligned box, given by its least and its greatest corner.
#[derive(Clone, Copy, Debug, PartialEq, Eq, Structural)]
pub struct Aabb {
    pub min: VertexValue,
    pub max: VertexValue,
}

/// The prototype mesh of a block type. The kind is declared, never inferred
/// from the geometry.
#[derive(Clone, Debug)]
pub enum BlockMesh {
    /// [`BlockMeshType::Cube`]
    Cube(Mesh),
    /// [`BlockMeshType::Custom`]
    Custom(Mesh),
    /// [`BlockMeshType::XSprite`]
    XSprite(Mesh),
    /// [`BlockMeshType::Air`]
    Air,
}

/// A borrowed [`BlockMesh`].
#[derive(Clone, Copy, Debug)]
pub enum BlockMeshRef<'a> {
    /// [`BlockMeshType::Cube`]
    Cube(&'a Mesh),
    /// [`BlockMeshType::Custom`]
    Custom(&'a Mesh),
    /// [`BlockMeshType::XSprite`]
    XSprite(&'a Mesh),
    /// [`BlockMeshType::Air`]
    Air,
}

/// The kinds of mesh that can represent a block.
#[derive(Clone, Copy, Debug, PartialEq, Eq, Structural, Hash)]
pub enum BlockMeshType {
    /// A cube: six quads, each of which is hidden while a cube covers it.
    Cube,
    /// A free-form mesh that is added and removed as one unit.
    Custom,
    /// Two crossed sprites, added and removed as one unit.
    XSprite,
    /// Empty space.
    Air,
}

/// The least and the greatest value of each coordinate over `positions`.
pub open spec fn spec_bounds(positions: Seq<VertexValue>, aabb: Aabb) -> bool {
    &&& forall|i: int|
        0 <= i < positions.len() ==> {
            let p = #[trigger] positions[i];
            &&& aabb.min.x <= p.x <= aabb.max.x
            &&& aabb.min.y <= p.y <= aabb.max.y
            &&& aabb.min.z <= p.z <= aabb.max.z
        }
    &&& exists|i: int| 0 <= i < positions.len() && (#[trigger] positions[i]).x == aabb.min.x
    &&& exists|i: int| 0 <= i < positions.len() && (#[trigger] positions[i]).y == aabb.min.y
    &&& exists|i: int| 0 <= i < positions.len() && (#[trigger] positions[i]).z == aabb.min.z
    &&& exists|i: int| 0 <= i < positions.len() && (#[trigger] positions[i]).x == aabb.max.x
    &&& exists|i: int| 0 <= i < positions.len() && (#[trigger] positions[i]).y == aabb.max.y
    &&& exists|i: int| 0 <= i < positions.len() && (#[trigger] positions[i]).z == aabb.max.z
    &&& aabb.min.w == 0
    &&& aabb.max.w == 0
}

/// The box without extent at the origin.
pub open spec fn spec_empty_aabb() -> Aabb {
    Aabb {
        min: VertexValue { x: 0, y: 0, z: 0, w: 0 },
        max: VertexValue { x: 0, y: 0, z: 0, w: 0 },
    }
}

/// The bounding box of the positions of `mesh`.
pub fn compute_aabb(mesh: &Mesh) -> (r: Option<Aabb>)
    ensures
        r is Some <==> exists|a: int|
            0 <= a < mesh.attributes@.len() && (#[trigger] mesh.attributes@[a]).id
                == ATTRIBUTE_POSITION && mesh.attributes@[a].values@.len() > 0 && forall|b: int|
                0 <= b < a ==> mesh.attributes@[b].id != ATTRIBUTE_POSITION,
        r is Some ==> exists|a: int|
            0 <= a < mesh.attributes@.len() && (#[trigger] mesh.attributes@[a]).id
                == ATTRIBUTE_POSITION && spec_bounds(mesh.attributes@[a].values@, r.unwrap()),
{
    let a = match mesh.attribute_position(ATTRIBUTE_POSITION) {
        Some(a) => a,
        None => {
            assert forall|a: int|
                0 <= a < mesh.attributes@.len() implies (#[trigger] mesh.attributes@[a]).id
                != ATTRIBUTE_POSITION by {
                assert(mesh.ids()[a] == mesh.attributes@[a].id);
            }
            return None;
        },
    };
    let positions = &mesh.attributes[a].values;
    if positions.len() == 0 {
        assert forall|c: int|
            0 <= c < mesh.attributes@.len() && (#[trigger] mesh.attributes@[c]).id
                == ATTRIBUTE_POSITION && mesh.attributes@[c].values@.len() > 0 implies !(forall|
            b: int,
        | 0 <= b < c ==> mesh.attributes@[b].id != ATTRIBUTE_POSITION) by {
            if c > a {
                assert(mesh.attributes@[a as int].id == ATTRIBUTE_POSITION);
            }
        }
        return None;
    }
    let first = positions[0];
    let mut min = VertexValue { x: first.x, y: first.y, z: first.z, w: 0 };
    let mut max = VertexValue { x: first.x, y: first.y, z: first.z, w: 0 };
    let mut i: usize = 1;
    proof {
        assert(positions@.take(1)[0] == first);
    }
    while i < positions.len()
        invariant
            1 <= i <= positions@.len(),
            spec_bounds(positions@.take(i as int), Aabb { min, max }),
        decreases positions@.len() - i,
    {
        let p = positions[i];
        let ghost before = Aabb { min, max };
        let ghost seen = positions@.take(i as int);
        let ghost now = positions@.take(i + 1);
        proof {
            assert(now[i as int] == p);
            assert(forall|j: int| 0 <= j < i ==> now[j] == seen[j]);
        }
        if p.x < min.x {
            min.x = p.x;
        }
        if p.y < min.y {
            min.y = p.y;
        }
        if p.z < min.z {
            min.z = p.z;
        }
        if p.x > max.x {
            max.x = p.x;
        }
        if p.y > max.y {
            max.y = p.y;
        }
        if p.z > max.z {
            max.z = p.z;
        }
        proof {
            let after = Aabb { min, max };
            let ix = choose|j: int| 0 <= j < seen.len() && (#[trigger] seen[j]).x == before.min.x;
            let iy = choose|j: int| 0 <= j < seen.len() && (#[trigger] seen[j]).y == before.min.y;
            let iz = choose|j: int| 0 <= j < seen.len() && (#[trigger] seen[j]).z == before.min.z;
            let ax = choose|j: int| 0 <= j < seen.len() && (#[trigger] seen[j]).x == before.max.x;
            let ay = choose|j: int| 0 <= j < seen.len() && (#[trigger] seen[j]).y == before.max.y;
            let az = choose|j: int| 0 <= j < seen.len() && (#[trigger] seen[j]).z == before.max.z;
            assert(now[ix] == seen[ix] && now[iy] == seen[iy] && now[iz] == seen[iz]);
            assert(now[ax] == seen[ax] && now[ay] == seen[ay] && now[az] == seen[az]);
            assert forall|j: int| 0 <= j < now.len() implies {
                let q = #[trigger] now[j];
                &&& after.min.x <= q.x <= after.max.x
                &&& after.min.y <= q.y <= after.max.y
                &&& after.min.z <= q.z <= after.max.z
            } by {
                if j < i {
                    assert(now[j] == seen[j]);
                }
            }
        }
        i = i + 1;
    }
    proof {
        assert(positions@.take(i as int) =~= positions@);
        assert(mesh.attributes@[a as int].values@.len() > 0);
    }
    Some(Aabb { min, max })
}

impl BlockMesh {
    /// The kind of the mesh.
    pub open spec fn spec_get_type(self) -> BlockMeshType {
        match self {
            BlockMesh::Cube(_) => BlockMeshType::Cube,
            BlockMesh::Custom(_) => BlockMeshType::Custom,
            BlockMesh::XSprite(_) => BlockMeshType::XSprite,
            BlockMesh::Air => BlockMeshType::Air,
        }
    }

    /// The prototype geometry, which every kind but air has.
    pub open spec fn spec_mesh(self) -> Option<Mesh> {
        match self {
            BlockMesh::Cube(m) => Some(m),
            BlockMesh::Custom(m) => Some(m),
            BlockMesh::XSprite(m) => Some(m),
            BlockMesh::Air => None,
        }
    }

    /// Whether the bounding box of the mesh can be computed: air has the empty box,
    /// any other mesh needs at least one position.
    pub open spec fn spec_has_aabb(self) -> bool {
        match self.spec_mesh() {
            None => true,
            Some(m) => exists|a: int|
                0 <= a < m.attributes@.len() && (#[trigger] m.attributes@[a]).id
                    == ATTRIBUTE_POSITION && m.attributes@[a].values@.len() > 0 && forall|b: int|
                    0 <= b < a ==> m.attributes@[b].id != ATTRIBUTE_POSITION,
        }
    }

    /// Wraps a free-form mesh.
    pub fn from_custom_mesh(mesh: Mesh) -> (r: Self)
        ensures
            r == BlockMesh::Custom(mesh),
    {
        BlockMesh::Custom(mesh)
    }

    pub fn as_ref<'a>(&'a self) -> (r: BlockMeshRef<'a>)
        ensures
            r.spec_owned() == *self,
    {
        match self {
            BlockMesh::Cube(mesh) => BlockMeshRef::Cube(mesh),
            BlockMesh::Custom(mesh) => BlockMeshRef::Custom(mesh),
            BlockMesh::XSprite(mesh) => BlockMeshRef::XSprite(mesh),
            BlockMesh::Air => BlockMeshRef::Air,
        }
    }

    pub fn get_type(&self) -> (r: BlockMeshType)
        ensures
            r == self.spec_get_type(),
    {
        match self {
            BlockMesh::Cube(_) => BlockMeshType::Cube,
            BlockMesh::Custom(_) => BlockMeshType::Custom,
            BlockMesh::XSprite(_) => BlockMeshType::XSprite,
            BlockMesh::Air => BlockMeshType::Air,
        }
    }
}

impl<'a> BlockMeshRef<'a> {
    /// The block mesh that the reference points to.
    pub open spec fn spec_owned(self) -> BlockMesh {
        match self {
            BlockMeshRef::Cube(m) => BlockMesh::Cube(*m),
            BlockMeshRef::Custom(m) => BlockMesh::Custom(*m),
            BlockMeshRef::XSprite(m) => BlockMesh::XSprite(*m),
            BlockMeshRef::Air => BlockMesh::Air,
        }
    }

    /// Returns the type of the mesh.
    pub fn get_type(&self) -> (r: BlockMeshType)
        ensures
            r == self.spec_owned().spec_get_type(),
    {
        match self {
            BlockMeshRef::Cube(_) => BlockMeshType::Cube,
            BlockMeshRef::Custom(_) => BlockMeshType::Custom,
            BlockMeshRef::XSprite(_) => BlockMeshType::XSprite,
            BlockMeshRef::Air => BlockMeshType::Air,
        }
    }

    /// Returns true if the mesh is air.
    pub fn is_air(&self) -> (r: bool)
        ensures
            r == (self.spec_owned().spec_get_type() == BlockMeshType::Air),
    {
        match self {
            BlockMeshRef::Air => true,
            _ => false,
        }
    }

    /// Returns true if the mesh is a cube.
    pub fn is_cube(&self) -> (r: bool)
        ensures
            r == (self.spec_owned().spec_get_type() == BlockMeshType::Cube),
    {
        match self {
            BlockMeshRef::Cube(_) => true,
            _ => false,
        }
    }

    /// Returns true if the mesh is a custom mesh.
    pub fn is_custom(&self) -> (r: bool)
        ensures
            r == (self.spec_owned().spec_get_type() == BlockMeshType::Custom),
    {
        match self {
            BlockMeshRef::Custom(_) => true,
            _ => false,
        }
    }

    /// Returns true if the mesh is an xsprite.
    pub fn is_xsprite(&self) -> (r: bool)
        ensures
            r == (self.spec_owned().spec_get_type() == BlockMeshType::XSprite),
    {
        match self {
            BlockMeshRef::XSprite(_) => true,
            _ => false,
        }
    }

    /// The mesh, if it is of the given kind.
    pub fn get_if(&self, mesh_type: BlockMeshType) -> (r: Option<&'a Mesh>)
        ensures
            r is Some <==> self.spec_owned().spec_get_type() == mesh_type && mesh_type
                != BlockMeshType::Air,
            r is Some ==> Some(*r.unwrap()) == self.spec_owned().spec_mesh(),
    {
        match self {
            BlockMeshRef::Cube(mesh) => match mesh_type {
                BlockMeshType::Cube => Some(*mesh),
                _ => None,
            },
            BlockMeshRef::Custom(mesh) => match mesh_type {
                BlockMeshType::Custom => Some(*mesh),
                _ => None,
            },
            BlockMeshRef::XSprite(mesh) => match mesh_type {
                BlockMeshType::XSprite => Some(*mesh),
                _ => None,
            },
            BlockMeshRef::Air => None,
        }
    }

    /// Returns the bounding box of the mesh. If air, returns the empty box.
    pub fn get_aabb(&self) -> (r: Aabb)
        requires
            self.spec_owned().spec_has_aabb(),
        ensures
            match self.spec_owned().spec_mesh() {
                None => r == spec_empty_aabb(),
                Some(m) => exists|a: int|
                    0 <= a < m.attributes@.len() && (#[trigger] m.attributes@[a]).id
                        == ATTRIBUTE_POSITION && spec_bounds(m.attributes@[a].values@, r),
            },
    {
        let found = match self {
            BlockMeshRef::Cube(mesh) => compute_aabb(mesh),
            BlockMeshRef::Custom(mesh) => compute_aabb(mesh),
            BlockMeshRef::XSprite(mesh) => compute_aabb(mesh),
            BlockMeshRef::Air => {
                return Aabb {
                    min: VertexValue { x: 0, y: 0, z: 0, w: 0 },
                    max: VertexValue { x: 0, y: 0, z: 0, w: 0 },
                };
            },
        };
        found.unwrap()
    }

    /// Get vertices count
    pub fn get_vertex_count(&self) -> (r: usize)
        ensures
            r == match self.spec_owned().spec_mesh() {
                Some(m) => m.spec_count_vertices(),
                None => 0,
            },
    {
        match self {
            BlockMeshRef::Cube(mesh) => mesh.count_vertices(),
            BlockMeshRef::Custom(mesh) => mesh.count_vertices(),
            BlockMeshRef::XSprite(mesh) => mesh.count_vertices(),
            BlockMeshRef::Air => 0,
        }
    }

    /// Get indices count (not number of triangles, number of indices)
    pub fn get_indices_count(&self) -> (r: usize)
        ensures
            r == match self.spec_owned().spec_mesh() {
                Some(m) => m.indices@.len(),
                None => 0,
            },
    {
        match self {
            BlockMeshRef::Cube(mesh) => mesh.indices.len(),
            BlockMeshRef::Custom(mesh) => mesh.indices.len(),
            BlockMeshRef::XSprite(mesh) => mesh.indices.len(),
            BlockMeshRef::Air => 0,
        }
    }

    /// Get the mesh as an option.
    pub fn as_option(self) -> (r: Option<&'a Mesh>)
        ensures
            r is Some <==> self.spec_owned().spec_get_type() != BlockMeshType::Air,
            r is Some ==> Some(*r.unwrap()) == self.spec_owned().spec_mesh(),
    {
        match self {
            BlockMeshRef::Cube(mesh) => Some(mesh),
            BlockMeshRef::Custom(mesh) => Some(mesh),
            BlockMeshRef::XSprite(mesh) => Some(mesh),
            BlockMeshRef::Air => None,
        }
    }

    /// Unwrap the mesh.
    pub fn unwrap(self) -> (r: &'a Mesh)
        requires
            self.spec_owned().spec_get_type() != BlockMeshType::Air,
        ensures
            Some(*r) == self.spec_owned().spec_mesh(),
    {
        match self {
            BlockMeshRef::Cube(mesh) => mesh,
            BlockMeshRef::Custom(mesh) => mesh,
            BlockMeshRef::XSprite(mesh) => mesh,
            BlockMeshRef::Air => vstd::pervasive::unreached(),
        }
    }

    /// Unwrap the mesh; `msg` says what the caller relied on.
    pub fn expect(self, msg: &str) -> (r: &'a Mesh)
        requires
            self.spec_owned().spec_get_type() != BlockMeshType::Air,
        ensures
            Some(*r) == self.spec_owned().spec_mesh(),
    {
        self.unwrap()
    }
}

} // verus!
