//! Merged meshes of crossed sprites, which are added and removed as whole blocks.
use vstd::prelude::*;

pub mod agree;
pub mod check;
pub mod md;
pub mod meshify;
pub mod update;

verus! {

/// Coordinates of a tile in a texture atlas.
pub type AtlasCords = [u32; 2];

/// The tile of the atlas that the sprite shows.
#[derive(Clone, Copy, Debug)]
pub struct XSpriteTextureCords {
    pub sprite: AtlasCords,
}

impl XSpriteTextureCords {
    pub fn uniform(dims: AtlasCords) -> (r: Self)
        ensures
            r.sprite == dims,
    {
        Self { sprite: dims }
    }
}

} // verus!
