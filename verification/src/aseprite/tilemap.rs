//! Tile maps exported from Aseprite.  The format carries no fields yet.
use vstd::prelude::*;

verus! {

/// A tile map read from a sprite file; it holds nothing yet.
pub struct TileMap {}

impl TileMap {
    /// Reads a tile map.  Nothing of the file is read yet: the result is the
    /// empty map whatever the bytes.
    pub fn decode(file: &[u8]) -> (r: TileMap)
        ensures
            r == (TileMap {}),
    {
        TileMap {}
    }

    /// Writes a tile map.  Nothing is written yet.
    pub fn encode(packing_width: usize, packing_height: usize) {
    }
}

} // verus!
