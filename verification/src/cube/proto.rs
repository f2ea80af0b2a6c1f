//! Sorting the triangles of a prototype mesh by the side of the cube they lie in.
//!
//! A prototype can serve as a cube where each of the six sides has two triangles,
//! wherever they stand in the index list, that make up one quad over four vertices.
//! The quads of a merged mesh all have one winding, so the corners of a quad are
//! taken in the order in which that winding gives back the two triangles; two
//! triangles that no such order gives back (they run along their common edge in the
//! same direction) make up no quad.
use vstd::prelude::*;
use crate::face::{face_at, Face};
use crate::mesh::{AttributeId, Mesh, VertexValue, ATTRIBUTE_POSITION};

verus! {

/// The face of a cube around `center` that a triangle lies in: the first axis along
/// which its three corners agree decides, and the side of the center on which they
/// lie. A triangle that is not parallel to an axis plane lies in no face.
pub open spec fn triangle_face(
    v1: VertexValue,
    v2: VertexValue,
    v3: VertexValue,
    center: VertexValue,
) -> Option<Face> {
    if v1.x == v2.x && v2.x == v3.x {
        Some(
            if center.x > v1.x {
                Face::Left
            } else {
                Face::Right
            },
        )
    } else if v1.y == v2.y && v2.y == v3.y {
        Some(
            if center.y > v1.y {
                Face::Bottom
            } else {
                Face::Top
            },
        )
    } else if v1.z == v2.z && v2.z == v3.z {
        Some(
            if center.z > v1.z {
                Face::Front
            } else {
                Face::Back
            },
        )
    } else {
        None
    }
}

/// See which side of the voxel the triangle belongs to.
pub fn classify_triangle(v1: VertexValue, v2: VertexValue, v3: VertexValue, center: VertexValue) -> (r:
    Option<Face>)
    ensures
        r == triangle_face(v1, v2, v3, center),
{
    if v1.x == v2.x && v2.x == v3.x {
        if center.x > v1.x {
            Some(Face::Left)
        } else {
            Some(Face::Right)
        }
    } else if v1.y == v2.y && v2.y == v3.y {
        if center.y > v1.y {
            Some(Face::Bottom)
        } else {
            Some(Face::Top)
        }
    } else if v1.z == v2.z && v2.z == v3.z {
        if center.z > v1.z {
            Some(Face::Front)
        } else {
            Some(Face::Back)
        }
    } else {
        None
    }
}

/// The side that triangle `t` of the index list lies in.
pub open spec fn side_of_triangle(
    indices: Seq<u32>,
    positions: Seq<VertexValue>,
    center: VertexValue,
    t: int,
) -> Option<Face> {
    triangle_face(
        positions[indices[3 * t] as int],
        positions[indices[3 * t + 1] as int],
        positions[indices[3 * t + 2] as int],
        center,
    )
}

/// The triangles `t1` and `t2` are the two triangles of the side `face`, in the
/// order in which they stand in the index list, and no other triangle lies in that
/// side.
pub open spec fn is_side_pair(
    indices: Seq<u32>,
    positions: Seq<VertexValue>,
    center: VertexValue,
    face: Face,
    t1: int,
    t2: int,
) -> bool {
    &&& 0 <= t1 < t2 < indices.len() / 3
    &&& side_of_triangle(indices, positions, center, t1) == Some(face)
    &&& side_of_triangle(indices, positions, center, t2) == Some(face)
    &&& forall|u: int|
        0 <= u < indices.len() / 3 && u != t1 && u != t2 ==> #[trigger] side_of_triangle(
            indices,
            positions,
            center,
            u,
        ) != Some(face)
}

/// The quad that the triangles (a, b, c) and (x, y, z) make up: its four corners in
/// the order in which the winding (0, 1, 2), (2, 3, 0) gives back the two triangles,
/// each from one of its corners on. There is one where the second triangle brings
/// one new vertex and runs along an edge of the first in the other direction.
pub open spec fn quad_of(a: int, b: int, c: int, x: int, y: int, z: int) -> Option<
    (int, int, int, int),
> {
    // the second triangle, turned so that its new vertex comes last
    let (p, q, d) = if z != a && z != b && z != c {
        (x, y, z)
    } else if x != a && x != b && x != c {
        (y, z, x)
    } else {
        (z, x, y)
    };
    if a == b || b == c || a == c || d == a || d == b || d == c {
        None
    } else if p == a && q == c {
        Some((a, b, c, d))
    } else if p == c && q == b {
        Some((c, a, b, d))
    } else if p == b && q == a {
        Some((b, c, a, d))
    } else {
        None
    }
}

/// The quad of the side `face` of a prototype, as the four prototype vertices that
/// are its corners: the quad of the two triangles that lie in that side. There is
/// none where the side does not have just two triangles, or where they make up no
/// quad.
pub open spec fn side_quad(
    indices: Seq<u32>,
    positions: Seq<VertexValue>,
    center: VertexValue,
    face: Face,
) -> Option<(int, int, int, int)> {
    if exists|p: (int, int)| is_side_pair(indices, positions, center, face, p.0, p.1) {
        let p = choose|p: (int, int)| is_side_pair(indices, positions, center, face, p.0, p.1);
        quad_of(
            indices[3 * p.0] as int,
            indices[3 * p.0 + 1] as int,
            indices[3 * p.0 + 2] as int,
            indices[3 * p.1] as int,
            indices[3 * p.1 + 1] as int,
            indices[3 * p.1 + 2] as int,
        )
    } else {
        None
    }
}

/// The side with the code `f` of the prototype has its quad.
pub open spec fn side_ok(proto: Mesh, center: VertexValue, f: int) -> bool {
    side_quad(
        proto.indices@,
        proto.spec_attribute(ATTRIBUTE_POSITION).unwrap(),
        center,
        face_at(f),
    ) is Some
}

/// `proto` can serve as the prototype of a cube in a merged mesh that tracks the
/// attributes `ids`: it is in order itself, has all of those attributes, its
/// positions are small enough to be moved to any block, and each of its six sides
/// has its quad.
pub open spec fn valid_cube_prototype(proto: Mesh, ids: Seq<AttributeId>, center: VertexValue) -> bool {
    &&& proto.wf()
    &&& proto.ids().contains(ATTRIBUTE_POSITION)
    &&& forall|a: int| 0 <= a < ids.len() ==> proto.ids().contains(#[trigger] ids[a])
    &&& forall|i: int|
        0 <= i < proto.spec_attribute(ATTRIBUTE_POSITION).unwrap().len() ==> (
        #[trigger] proto.spec_attribute(ATTRIBUTE_POSITION).unwrap()[i]).spec_is_local()
    &&& forall|f: int| 0 <= f < 6 ==> #[trigger] side_ok(proto, center, f)
}

/// The two triangles of a side are determined.
pub proof fn lemma_side_pair_unique(
    indices: Seq<u32>,
    positions: Seq<VertexValue>,
    center: VertexValue,
    face: Face,
    t1: int,
    t2: int,
    s1: int,
    s2: int,
)
    requires
        is_side_pair(indices, positions, center, face, t1, t2),
        is_side_pair(indices, positions, center, face, s1, s2),
    ensures
        s1 == t1,
        s2 == t2,
{
    assert(side_of_triangle(indices, positions, center, s1) == Some(face));
    assert(side_of_triangle(indices, positions, center, s2) == Some(face));
    assert(side_of_triangle(indices, positions, center, t1) == Some(face));
    assert(side_of_triangle(indices, positions, center, t2) == Some(face));
}

/// The quad that two triangles make up, if they make up one.
pub fn make_quad(a: u32, b: u32, c: u32, x: u32, y: u32, z: u32) -> (r: Option<[u32; 4]>)
    ensures
        match r {
            Some(q) => quad_of(a as int, b as int, c as int, x as int, y as int, z as int) == Some(
                (q@[0] as int, q@[1] as int, q@[2] as int, q@[3] as int),
            ),
            None => quad_of(a as int, b as int, c as int, x as int, y as int, z as int) is None,
        },
{
    let (p, q, d): (u32, u32, u32) = if z != a && z != b && z != c {
        (x, y, z)
    } else if x != a && x != b && x != c {
        (y, z, x)
    } else {
        (z, x, y)
    };
    if a == b || b == c || a == c || d == a || d == b || d == c {
        None
    } else if p == a && q == c {
        Some([a, b, c, d])
    } else if p == c && q == b {
        Some([c, a, b, d])
    } else if p == b && q == a {
        Some([b, c, a, d])
    } else {
        None
    }
}

/// Finds the triangles of `proto` that lie in the side `face`, wherever they stand
/// in the index list, and gathers the four vertices of the quad that they make up.
pub fn side_corners(proto: &Mesh, positions: &Vec<VertexValue>, center: VertexValue, face: Face) -> (r:
    Option<[u32; 4]>)
    requires
        proto.wf(),
        proto.spec_attribute(ATTRIBUTE_POSITION) == Some(positions@),
        positions@.len() == proto.spec_count_vertices(),
    ensures
        match r {
            Some(q) => side_quad(proto.indices@, positions@, center, face) == Some(
                (q@[0] as int, q@[1] as int, q@[2] as int, q@[3] as int),
            ) && q@[0] < positions@.len() && q@[1] < positions@.len() && q@[2] < positions@.len()
                && q@[3] < positions@.len(),
            None => side_quad(proto.indices@, positions@, center, face) is None,
        },
{
    let indices = &proto.indices;
    let length: usize = indices.len();
    let triangles: usize = length / 3;
    let mut found: usize = 0;
    let mut t1: usize = 0;
    let mut t2: usize = 0;
    let mut t: usize = 0;
    while t < triangles
        invariant
            t <= triangles,
            triangles == indices@.len() / 3,
            length == indices@.len(),
            3 * triangles <= length,
            *indices == proto.indices,
            proto.wf(),
            positions@.len() == proto.spec_count_vertices(),
            found <= 2,
            found == 0 ==> forall|u: int|
                0 <= u < t ==> #[trigger] side_of_triangle(indices@, positions@, center, u) != Some(
                    face,
                ),
            found >= 1 ==> t1 < t && side_of_triangle(indices@, positions@, center, t1 as int)
                == Some(face),
            found == 1 ==> forall|u: int|
                0 <= u < t && u != t1 ==> #[trigger] side_of_triangle(
                    indices@,
                    positions@,
                    center,
                    u,
                ) != Some(face),
            found == 2 ==> t1 < t2 < t && side_of_triangle(indices@, positions@, center, t2 as int)
                == Some(face) && forall|u: int|
                0 <= u < t && u != t1 && u != t2 ==> #[trigger] side_of_triangle(
                    indices@,
                    positions@,
                    center,
                    u,
                ) != Some(face),
        decreases triangles - t,
    {
        proof {
            assert(proto.indices@[3 * t as int] < proto.spec_count_vertices());
            assert(proto.indices@[3 * t + 1] < proto.spec_count_vertices());
            assert(proto.indices@[3 * t + 2] < proto.spec_count_vertices());
        }
        let side = classify_triangle(
            positions[indices[3 * t] as usize],
            positions[indices[3 * t + 1] as usize],
            positions[indices[3 * t + 2] as usize],
            center,
        );
        let lies_in: bool = match side {
            Some(f) => f == face,
            None => false,
        };
        proof {
            assert(lies_in == (side_of_triangle(indices@, positions@, center, t as int) == Some(
                face,
            )));
        }
        if lies_in {
            if found == 0 {
                t1 = t;
                found = 1;
            } else if found == 1 {
                t2 = t;
                found = 2;
            } else {
                proof {
                    assert forall|p: (int, int)| !is_side_pair(
                        indices@,
                        positions@,
                        center,
                        face,
                        p.0,
                        p.1,
                    ) by {
                        if is_side_pair(indices@, positions@, center, face, p.0, p.1) {
                            assert(side_of_triangle(indices@, positions@, center, t1 as int) == Some(
                                face,
                            ));
                            assert(side_of_triangle(indices@, positions@, center, t2 as int) == Some(
                                face,
                            ));
                            assert(side_of_triangle(indices@, positions@, center, t as int) == Some(
                                face,
                            ));
                        }
                    }
                }
                return None;
            }
        }
        t = t + 1;
    }
    assert(3 * t1 + 2 < length && 3 * t2 + 2 < length || found < 2);
    if found < 2 {
        proof {
            assert forall|p: (int, int)| !is_side_pair(
                indices@,
                positions@,
                center,
                face,
                p.0,
                p.1,
            ) by {
                if is_side_pair(indices@, positions@, center, face, p.0, p.1) {
                    assert(side_of_triangle(indices@, positions@, center, p.0) == Some(face));
                    assert(side_of_triangle(indices@, positions@, center, p.1) == Some(face));
                }
            }
        }
        return None;
    }
    proof {
        assert(is_side_pair(indices@, positions@, center, face, t1 as int, t2 as int));
        let w = (t1 as int, t2 as int);
        assert(is_side_pair(indices@, positions@, center, face, w.0, w.1));
        let p = choose|p: (int, int)| is_side_pair(indices@, positions@, center, face, p.0, p.1);
        lemma_side_pair_unique(indices@, positions@, center, face, t1 as int, t2 as int, p.0, p.1);
        assert(proto.indices@[3 * t1 as int] < proto.spec_count_vertices());
        assert(proto.indices@[3 * t1 + 1] < proto.spec_count_vertices());
        assert(proto.indices@[3 * t1 + 2] < proto.spec_count_vertices());
        assert(proto.indices@[3 * t2 as int] < proto.spec_count_vertices());
        assert(proto.indices@[3 * t2 + 1] < proto.spec_count_vertices());
        assert(proto.indices@[3 * t2 + 2] < proto.spec_count_vertices());
    }
    make_quad(
        indices[3 * t1],
        indices[3 * t1 + 1],
        indices[3 * t1 + 2],
        indices[3 * t2],
        indices[3 * t2 + 1],
        indices[3 * t2 + 2],
    )
}

/// Sorts the triangles of `proto` by the side of the cube they lie in, and tells
/// whether they make up the six quads of a cube for a merged mesh like `merged`.
pub fn is_valid_cube_prototype(proto: &Mesh, merged: &Mesh, center: VertexValue) -> (r: bool)
    ensures
        r == valid_cube_prototype(*proto, merged.ids(), center),
{
    if !proto.is_wf() {
        return false;
    }
    let pa = match proto.attribute_position(ATTRIBUTE_POSITION) {
        Some(pa) => pa,
        None => {
            return false;
        },
    };
    let positions = &proto.attributes[pa].values;
    assert(proto.spec_attribute(ATTRIBUTE_POSITION) == Some(positions@));
    let mut a: usize = 0;
    while a < merged.attributes.len()
        invariant
            a <= merged.attributes@.len(),
            forall|b: int| 0 <= b < a ==> proto.ids().contains(#[trigger] merged.ids()[b]),
        decreases merged.attributes@.len() - a,
    {
        if proto.attribute_position(merged.attributes[a].id).is_none() {
            assert(!proto.ids().contains(merged.ids()[a as int]));
            return false;
        }
        assert(proto.ids().contains(merged.ids()[a as int]));
        a = a + 1;
    }
    let mut i: usize = 0;
    while i < positions.len()
        invariant
            i <= positions@.len(),
            proto.spec_attribute(ATTRIBUTE_POSITION) == Some(positions@),
            forall|j: int| 0 <= j < i ==> (#[trigger] positions@[j]).spec_is_local(),
        decreases positions@.len() - i,
    {
        if !positions[i].is_local() {
            assert(!proto.spec_attribute(ATTRIBUTE_POSITION).unwrap()[i as int].spec_is_local());
            return false;
        }
        i = i + 1;
    }
    assert(positions@.len() == proto.spec_count_vertices()) by {
        assert(proto.attributes@[pa as int].values@.len() == proto.spec_count_vertices());
    }
    let mut f: usize = 0;
    while f < 6
        invariant
            f <= 6,
            proto.wf(),
            proto.spec_attribute(ATTRIBUTE_POSITION) == Some(positions@),
            positions@.len() == proto.spec_count_vertices(),
            forall|g: int| 0 <= g < f ==> #[trigger] side_ok(*proto, center, g),
        decreases 6 - f,
    {
        let face: Face = Face::from_index(f).unwrap();
        if side_corners(proto, positions, center, face).is_none() {
            assert(!side_ok(*proto, center, f as int));
            return false;
        }
        assert(side_ok(*proto, center, f as int));
        f = f + 1;
    }
    true
}

} // verus!
