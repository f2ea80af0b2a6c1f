//! Directional utilities
use vstd::prelude::*;
use crate::chunk::IVec2;
use crate::face::Face;

verus! {

/// Nautical directions in the world
#[derive(Clone, Copy, Debug, PartialEq, Eq, Structural, Hash)]
pub enum NDir {
    /// +z
    North,
    /// -z
    South,
    /// +x
    East,
    /// -x
    West,
    /// +x +z
    NoEast,
    /// -x +z
    NoWest,
    /// +x -z
    SoEast,
    /// -x -z
    SoWest,
}

/// The step along x and z that a direction stands for; no direction is no step.
pub open spec fn spec_to_cords(dir: Option<NDir>) -> (int, int) {
    match dir {
        None => (0, 0),
        Some(NDir::North) => (0, 1),
        Some(NDir::South) => (0, -1),
        Some(NDir::East) => (1, 0),
        Some(NDir::West) => (-1, 0),
        Some(NDir::NoEast) => (1, 1),
        Some(NDir::NoWest) => (-1, 1),
        Some(NDir::SoEast) => (1, -1),
        Some(NDir::SoWest) => (-1, -1),
    }
}

/// The direction in which a change of coordinates points: only the signs count.
pub open spec fn spec_from_cords_change(x: int, z: int) -> Option<NDir> {
    if z < 0 {
        if x > 0 {
            Some(NDir::SoEast)
        } else if x == 0 {
            Some(NDir::South)
        } else {
            Some(NDir::SoWest)
        }
    } else if z == 0 {
        if x > 0 {
            Some(NDir::East)
        } else if x == 0 {
            None
        } else {
            Some(NDir::West)
        }
    } else {
        if x > 0 {
            Some(NDir::NoEast)
        } else if x == 0 {
            Some(NDir::North)
        } else {
            Some(NDir::NoWest)
        }
    }
}

/// The direction of two steps taken one after the other. A missing direction is
/// no step.
pub open spec fn spec_add_direction(dir1: Option<NDir>, dir2: Option<NDir>) -> Option<NDir> {
    if dir1 is None {
        dir2
    } else if dir2 is None {
        dir1
    } else {
        spec_from_cords_change(
            spec_to_cords(dir1).0 + spec_to_cords(dir2).0,
            spec_to_cords(dir1).1 + spec_to_cords(dir2).1,
        )
    }
}

/// All possible directions
pub fn directions() -> (r: [NDir; 8])
    ensures
        forall|i: int| 0 <= i < 8 ==> (#[trigger] r@[i]).index() == i,
{
    [
        NDir::North,
        NDir::South,
        NDir::East,
        NDir::West,
        NDir::NoEast,
        NDir::NoWest,
        NDir::SoEast,
        NDir::SoWest,
    ]
}

impl NDir {
    /// The place of the direction among all directions.
    pub open spec fn index(self) -> int {
        match self {
            NDir::North => 0,
            NDir::South => 1,
            NDir::East => 2,
            NDir::West => 3,
            NDir::NoEast => 4,
            NDir::NoWest => 5,
            NDir::SoEast => 6,
            NDir::SoWest => 7,
        }
    }

    /// The direction that points the other way.
    pub open spec fn spec_opposite(self) -> NDir {
        match self {
            NDir::North => NDir::South,
            NDir::South => NDir::North,
            NDir::East => NDir::West,
            NDir::West => NDir::East,
            NDir::SoEast => NDir::NoWest,
            NDir::NoWest => NDir::SoEast,
            NDir::SoWest => NDir::NoEast,
            NDir::NoEast => NDir::SoWest,
        }
    }

    /// The direction in which the chunk beyond `face` lies.
    pub open spec fn spec_from_face(face: Face) -> NDir {
        match face {
            Face::Back => NDir::North,
            Face::Front => NDir::South,
            Face::Right => NDir::East,
            Face::Left => NDir::West,
            Face::Top => NDir::North,
            Face::Bottom => NDir::South,
        }
    }

    /// The composition of two directions, as a table.
    pub fn add_direction(dir1: Option<NDir>, dir2: Option<NDir>) -> (r: Option<NDir>)
        ensures
            r == spec_add_direction(dir1, dir2),
    {
        let d1 = match dir1 {
            None => {
                return dir2;
            },
            Some(d) => d,
        };
        let d2 = match dir2 {
            None => {
                return dir1;
            },
            Some(d) => d,
        };
        match d1 {
            NDir::North => match d2 {
                NDir::North => Some(NDir::North),
                NDir::South => None,
                NDir::East => Some(NDir::NoEast),
                NDir::West => Some(NDir::NoWest),
                NDir::NoEast => Some(NDir::NoEast),
                NDir::NoWest => Some(NDir::NoWest),
                NDir::SoEast => Some(NDir::East),
                NDir::SoWest => Some(NDir::West),
            },
            NDir::South => match d2 {
                NDir::North => None,
                NDir::South => Some(NDir::South),
                NDir::East => Some(NDir::SoEast),
                NDir::West => Some(NDir::SoWest),
                NDir::NoEast => Some(NDir::East),
                NDir::NoWest => Some(NDir::West),
                NDir::SoEast => Some(NDir::SoEast),
                NDir::SoWest => Some(NDir::SoWest),
            },
            NDir::East => match d2 {
                NDir::North => Some(NDir::NoEast),
                NDir::South => Some(NDir::SoEast),
                NDir::East => Some(NDir::East),
                NDir::West => None,
                NDir::NoEast => Some(NDir::NoEast),
                NDir::NoWest => Some(NDir::North),
                NDir::SoEast => Some(NDir::SoEast),
                NDir::SoWest => Some(NDir::South),
            },
            NDir::West => match d2 {
                NDir::North => Some(NDir::NoWest),
                NDir::South => Some(NDir::SoWest),
                NDir::East => None,
                NDir::West => Some(NDir::West),
                NDir::NoEast => Some(NDir::North),
                NDir::NoWest => Some(NDir::NoWest),
                NDir::SoEast => Some(NDir::South),
                NDir::SoWest => Some(NDir::SoWest),
            },
            NDir::NoEast => match d2 {
                NDir::North => Some(NDir::NoEast),
                NDir::South => Some(NDir::East),
                NDir::East => Some(NDir::NoEast),
                NDir::West => Some(NDir::North),
                NDir::NoEast => Some(NDir::NoEast),
                NDir::NoWest => Some(NDir::North),
                NDir::SoEast => Some(NDir::East),
                NDir::SoWest => None,
            },
            NDir::NoWest => match d2 {
                NDir::North => Some(NDir::NoWest),
                NDir::South => Some(NDir::West),
                NDir::East => Some(NDir::North),
                NDir::West => Some(NDir::NoWest),
                NDir::NoEast => Some(NDir::North),
                NDir::NoWest => Some(NDir::NoWest),
                NDir::SoEast => None,
                NDir::SoWest => Some(NDir::West),
            },
            NDir::SoEast => match d2 {
                NDir::North => Some(NDir::East),
                NDir::South => Some(NDir::SoEast),
                NDir::East => Some(NDir::SoEast),
                NDir::West => Some(NDir::South),
                NDir::NoEast => Some(NDir::East),
                NDir::NoWest => None,
                NDir::SoEast => Some(NDir::SoEast),
                NDir::SoWest => Some(NDir::South),
            },
            NDir::SoWest => match d2 {
                NDir::North => Some(NDir::West),
                NDir::South => Some(NDir::SoWest),
                NDir::East => Some(NDir::South),
                NDir::West => Some(NDir::SoWest),
                NDir::NoEast => None,
                NDir::NoWest => Some(NDir::West),
                NDir::SoEast => Some(NDir::South),
                NDir::SoWest => Some(NDir::SoWest),
            },
        }
    }

    pub fn opposite(&self) -> (r: NDir)
        ensures
            r == self.spec_opposite(),
            spec_to_cords(Some(r)).0 == -spec_to_cords(Some(*self)).0,
            spec_to_cords(Some(r)).1 == -spec_to_cords(Some(*self)).1,
    {
        match self {
            NDir::North => NDir::South,
            NDir::South => NDir::North,
            NDir::East => NDir::West,
            NDir::West => NDir::East,
            NDir::SoEast => NDir::NoWest,
            NDir::NoWest => NDir::SoEast,
            NDir::SoWest => NDir::NoEast,
            NDir::NoEast => NDir::SoWest,
        }
    }

    /// The part of the direction along z and its part along x.
    pub fn decompose(&self) -> (r: (Option<NDir>, Option<NDir>))
        ensures
            spec_to_cords(r.0) == (0int, spec_to_cords(Some(*self)).1),
            spec_to_cords(r.1) == (spec_to_cords(Some(*self)).0, 0int),
            spec_add_direction(r.0, r.1) == Some(*self),
    {
        match self {
            NDir::North => (Some(NDir::North), None),
            NDir::South => (Some(NDir::South), None),
            NDir::East => (None, Some(NDir::East)),
            NDir::West => (None, Some(NDir::West)),
            NDir::SoEast => (Some(NDir::South), Some(NDir::East)),
            NDir::NoWest => (Some(NDir::North), Some(NDir::West)),
            NDir::SoWest => (Some(NDir::South), Some(NDir::West)),
            NDir::NoEast => (Some(NDir::North), Some(NDir::East)),
        }
    }

    /// The name of the direction, written out.
    pub open spec fn spec_name(self) -> Seq<char> {
        match self {
            NDir::North => "North"@,
            NDir::South => "South"@,
            NDir::East => "East"@,
            NDir::West => "West"@,
            NDir::NoEast => "NorthEast"@,
            NDir::NoWest => "NorthWest"@,
            NDir::SoEast => "SouthEast"@,
            NDir::SoWest => "SouthWest"@,
        }
    }

    /// The name of the direction.
    pub fn name(self) -> (r: &'static str)
        ensures
            r@ == self.spec_name(),
    {
        match self {
            NDir::North => "North",
            NDir::South => "South",
            NDir::East => "East",
            NDir::West => "West",
            NDir::NoEast => "NorthEast",
            NDir::NoWest => "NorthWest",
            NDir::SoEast => "SouthEast",
            NDir::SoWest => "SouthWest",
        }
    }

    /// The direction in which the chunk beyond a side face lies.
    pub fn from_face(value: Face) -> (r: NDir)
        requires
            !value.spec_is_vertical(),
        ensures
            r == Self::spec_from_face(value),
    {
        match value {
            Face::Back => NDir::North,
            Face::Front => NDir::South,
            Face::Right => NDir::East,
            Face::Left => NDir::West,
            Face::Top => NDir::North,
            Face::Bottom => NDir::South,
        }
    }

    /// The place of the direction among all directions.
    pub fn to_index(self) -> (r: usize)
        ensures
            r == self.index(),
            r < 8,
    {
        match self {
            NDir::North => 0,
            NDir::South => 1,
            NDir::East => 2,
            NDir::West => 3,
            NDir::NoEast => 4,
            NDir::NoWest => 5,
            NDir::SoEast => 6,
            NDir::SoWest => 7,
        }
    }

    /// The face of a chunk that looks in this direction; a diagonal counts by its
    /// part along z.
    pub fn to_face(self) -> (r: Face)
        ensures
            r == (if spec_to_cords(Some(self)).1 > 0 {
                Face::Back
            } else if spec_to_cords(Some(self)).1 < 0 {
                Face::Front
            } else if spec_to_cords(Some(self)).0 < 0 {
                Face::Left
            } else {
                Face::Right
            }),
    {
        match self {
            NDir::NoWest | NDir::NoEast | NDir::North => Face::Back,
            NDir::SoWest | NDir::SoEast | NDir::South => Face::Front,
            NDir::West => Face::Left,
            NDir::East => Face::Right,
        }
    }
}

pub fn to_cords(dir: Option<NDir>) -> (r: IVec2)
    ensures
        (r.x as int, r.y as int) == spec_to_cords(dir),
{
    match dir {
        None => IVec2 { x: 0, y: 0 },
        Some(NDir::North) => IVec2 { x: 0, y: 1 },
        Some(NDir::South) => IVec2 { x: 0, y: -1 },
        Some(NDir::East) => IVec2 { x: 1, y: 0 },
        Some(NDir::West) => IVec2 { x: -1, y: 0 },
        Some(NDir::NoEast) => IVec2 { x: 1, y: 1 },
        Some(NDir::NoWest) => IVec2 { x: -1, y: 1 },
        Some(NDir::SoEast) => IVec2 { x: 1, y: -1 },
        Some(NDir::SoWest) => IVec2 { x: -1, y: -1 },
    }
}

pub fn from_cords_change(change: IVec2) -> (r: Option<NDir>)
    ensures
        r == spec_from_cords_change(change.x as int, change.y as int),
{
    if change.y < 0 {
        if change.x > 0 {
            Some(NDir::SoEast)
        } else if change.x == 0 {
            Some(NDir::South)
        } else {
            Some(NDir::SoWest)
        }
    } else if change.y == 0 {
        if change.x > 0 {
            Some(NDir::East)
        } else if change.x == 0 {
            None
        } else {
            Some(NDir::West)
        }
    } else {
        if change.x > 0 {
            Some(NDir::NoEast)
        } else if change.x == 0 {
            Some(NDir::North)
        } else {
            Some(NDir::NoWest)
        }
    }
}

/// A direction and the change of coordinates it stands for determine each other.
pub proof fn lemma_cords_round_trip(dir: Option<NDir>)
    ensures
        spec_from_cords_change(spec_to_cords(dir).0, spec_to_cords(dir).1) == dir,
{
}

/// Composing directions does not depend on their order, and a direction and its
/// opposite cancel.
pub proof fn lemma_add_direction(dir1: Option<NDir>, dir2: Option<NDir>, d: NDir)
    ensures
        spec_add_direction(dir1, dir2) == spec_add_direction(dir2, dir1),
        spec_add_direction(Some(d), Some(d.spec_opposite())) is None,
        d.spec_opposite().spec_opposite() == d,
{
    lemma_cords_round_trip(dir1);
    lemma_cords_round_trip(dir2);
}

} // verus!
