//! Merged meshes of cube blocks: generation with face culling and updates in place.
pub mod agree;
pub mod check;
pub mod md;
pub mod proto;
pub mod quads;
pub mod state;
pub mod update;
pub mod meshify;
pub mod laws;

use vstd::prelude::*;
use crate::face::Face;
use crate::xsprite::AtlasCords;

verus! {

/// The tile of the atlas that each side of a cube shows.
#[derive(Clone, Copy, Debug)]
pub struct CubeTextureCords {
    pub top: AtlasCords,
    pub bottom: AtlasCords,
    pub right: AtlasCords,
    pub left: AtlasCords,
    pub back: AtlasCords,
    pub front: AtlasCords,
}

impl CubeTextureCords {
    /// The tile that the cube shows on the side `face`.
    pub open spec fn spec_get(self, face: Face) -> AtlasCords {
        match face {
            Face::Top => self.top,
            Face::Bottom => self.bottom,
            Face::Right => self.right,
            Face::Left => self.left,
            Face::Back => self.back,
            Face::Front => self.front,
        }
    }

    pub fn uniform(dims: AtlasCords) -> (r: Self)
        ensures
            forall|face: Face| #[trigger] r.spec_get(face) == dims,
    {
        Self { top: dims, bottom: dims, right: dims, left: dims, back: dims, front: dims }
    }

    pub fn with_face(self, face: Face, dims: AtlasCords) -> (r: Self)
        ensures
            forall|other: Face| #[trigger]
                r.spec_get(other) == (if other == face {
                    dims
                } else {
                    self.spec_get(other)
                }),
    {
        let mut r = self;
        match face {
            Face::Top => r.top = dims,
            Face::Bottom => r.bottom = dims,
            Face::Right => r.right = dims,
            Face::Left => r.left = dims,
            Face::Back => r.back = dims,
            Face::Front => r.front = dims,
        }
        r
    }
}

} // verus!
