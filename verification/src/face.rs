use vstd::prelude::*;

verus! {

/// One of the six axis-aligned sides of a block.
#[derive(Clone, Copy, Debug, PartialEq, Eq, Structural, Hash)]
pub enum Face {
    /// +y
    Top,
    /// -y
    Bottom,
    /// +x
    Right,
    /// -x
    Left,
    /// +z
    Back,
    /// -z
    Front,
}

/// The six faces in their canonical order: top, bottom, right, left, back, front.
pub open spec fn spec_faces() -> Seq<Face> {
    seq![Face::Top, Face::Bottom, Face::Right, Face::Left, Face::Back, Face::Front]
}

/// The face that stands at `i` in the canonical order (`Top` for anything past the end).
pub open spec fn face_at(i: int) -> Face {
    if i == 1 {
        Face::Bottom
    } else if i == 2 {
        Face::Right
    } else if i == 3 {
        Face::Left
    } else if i == 4 {
        Face::Back
    } else if i == 5 {
        Face::Front
    } else {
        Face::Top
    }
}

/// The six faces in their canonical order.
pub fn faces() -> (r: [Face; 6])
    ensures
        r@ == spec_faces(),
        forall|i: int| 0 <= i < 6 ==> r@[i] == face_at(i),
{
    let r = [Face::Top, Face::Bottom, Face::Right, Face::Left, Face::Back, Face::Front];
    assert(r@ =~= spec_faces());
    r
}

impl Face {
    /// Position of the face in the canonical order; the stable integer code of the face.
    pub open spec fn index(self) -> int {
        match self {
            Face::Top => 0,
            Face::Bottom => 1,
            Face::Right => 2,
            Face::Left => 3,
            Face::Back => 4,
            Face::Front => 5,
        }
    }

    /// The face on the other side of the block.
    pub open spec fn spec_opposite(self) -> Face {
        match self {
            Face::Top => Face::Bottom,
            Face::Bottom => Face::Top,
            Face::Right => Face::Left,
            Face::Left => Face::Right,
            Face::Back => Face::Front,
            Face::Front => Face::Back,
        }
    }

    /// Whether the face looks along the y axis.
    pub open spec fn spec_is_vertical(self) -> bool {
        self == Face::Top || self == Face::Bottom
    }

    #[verifier::when_used_as_spec(spec_opposite)]
    pub fn opposite(self) -> (r: Face)
        ensures
            r == self.spec_opposite(),
            r != self,
            r.spec_opposite() == self,
    {
        match self {
            Face::Top => Face::Bottom,
            Face::Bottom => Face::Top,
            Face::Right => Face::Left,
            Face::Left => Face::Right,
            Face::Back => Face::Front,
            Face::Front => Face::Back,
        }
    }

    #[verifier::when_used_as_spec(spec_is_vertical)]
    pub fn is_vertical(self) -> (r: bool)
        ensures
            r == self.spec_is_vertical(),
    {
        match self {
            Face::Top => true,
            Face::Bottom => true,
            _ => false,
        }
    }

    /// The stable integer code of the face: its place in the canonical order.
    pub fn to_index(self) -> (r: usize)
        ensures
            r == self.index(),
            r < 6,
            face_at(r as int) == self,
    {
        match self {
            Face::Top => 0,
            Face::Bottom => 1,
            Face::Right => 2,
            Face::Left => 3,
            Face::Back => 4,
            Face::Front => 5,
        }
    }

    /// The face with the given code, if there is one.
    pub fn from_index(i: usize) -> (r: Option<Face>)
        ensures
            r == (if i < 6 {
                Some(face_at(i as int))
            } else {
                None
            }),
            i < 6 ==> r.unwrap().index() == i,
    {
        if i == 0 {
            Some(Face::Top)
        } else if i == 1 {
            Some(Face::Bottom)
        } else if i == 2 {
            Some(Face::Right)
        } else if i == 3 {
            Some(Face::Left)
        } else if i == 4 {
            Some(Face::Back)
        } else if i == 5 {
            Some(Face::Front)
        } else {
            None
        }
    }
}

/// `face_at` and `index` are inverse to each other on the six codes.
pub proof fn lemma_face_codes(f: Face, i: int)
    ensures
        0 <= f.index() < 6,
        face_at(f.index()) == f,
        0 <= i < 6 ==> face_at(i).index() == i,
        spec_faces().len() == 6,
        0 <= i < 6 ==> spec_faces()[i] == face_at(i),
{
}

} // verus!
