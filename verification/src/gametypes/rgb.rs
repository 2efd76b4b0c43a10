use vstd::prelude::*;

verus! {

/// A colour with alpha, each channel signed.
#[derive(Copy, Clone, Debug, PartialEq, Eq, Structural)]
pub struct Rgba {
    pub r: i16,
    pub g: i16,
    pub b: i16,
    pub a: i16,
}

impl Default for Rgba {
    fn default() -> (r: Self)
        ensures
            r == (Rgba { r: 0, g: 0, b: 0, a: 0 }),
    {
        Rgba { r: 0, g: 0, b: 0, a: 0 }
    }
}

} // verus!
