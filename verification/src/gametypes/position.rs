use crate::gametypes::map_position::MapPosition;
use vstd::prelude::*;

verus! {

/// A tile on a map.
#[derive(Copy, Clone, Debug, PartialEq, Eq, Hash, Structural)]
pub struct Position {
    pub x: i32,
    pub y: i32,
    pub map: MapPosition,
}

impl Default for Position {
    fn default() -> (r: Self)
        ensures
            r == (Position { x: 0, y: 0, map: MapPosition { x: 0, y: 0, group: 0 } }),
    {
        Position { x: 0, y: 0, map: MapPosition { x: 0, y: 0, group: 0 } }
    }
}

impl Position {
    #[inline(always)]
    pub fn new(x: i32, y: i32, map: MapPosition) -> (r: Position)
        ensures
            r == (Position { x, y, map }),
    {
        Position { x, y, map }
    }
}

} // verus!
