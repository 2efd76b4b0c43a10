use vstd::prelude::*;

verus! {

/// Grid coordinates of a map inside a map group.
#[derive(Copy, Clone, Debug, PartialEq, Eq, Hash, Structural)]
pub struct MapPosition {
    pub x: i32,
    pub y: i32,
    pub group: i32,
}

impl Default for MapPosition {
    fn default() -> (r: Self)
        ensures
            r == (MapPosition { x: 0, y: 0, group: 0 }),
    {
        MapPosition { x: 0, y: 0, group: 0 }
    }
}

impl MapPosition {
    #[inline(always)]
    pub fn new(x: i32, y: i32, group: i32) -> (r: MapPosition)
        ensures
            r == (MapPosition { x, y, group }),
    {
        MapPosition { x, y, group }
    }
}

} // verus!
