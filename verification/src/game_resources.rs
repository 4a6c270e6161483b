//! What the game knows about the screen it is drawn on.

use vstd::prelude::*;

verus! {

/// The size of a tile in pixels and of the screen in tiles.
#[derive(Clone, Debug)]
pub struct GameInfo {
    pub tile_width: u32,
    pub tile_height: u32,
    pub tilemap_height: u32,
    pub tilemap_width: u32,
}

impl Default for GameInfo {
    /// Nothing is known yet: every size is zero.
    fn default() -> (info: Self)
        ensures
            info.tile_width == 0,
            info.tile_height == 0,
            info.tilemap_height == 0,
            info.tilemap_width == 0,
    {
        GameInfo { tile_width: 0, tile_height: 0, tilemap_height: 0, tilemap_width: 0 }
    }
}

} // verus!
