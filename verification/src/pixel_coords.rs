//! A place in an image.

use vstd::prelude::*;

verus! {

#[derive(Clone, Copy, Debug, PartialEq, Eq, Structural)]
pub struct PixelCoords {
    pub x: usize,
    pub y: usize,
}

impl PixelCoords {
    pub fn new(x: usize, y: usize) -> (p: PixelCoords)
        ensures
            p == (PixelCoords { x, y }),
    {
        PixelCoords { x, y }
    }
}

} // verus!
