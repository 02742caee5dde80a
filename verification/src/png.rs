//! The blank buffer of a third container, with four channels per pixel.
//! Nothing reads or writes this container yet.

use vstd::prelude::*;

verus! {

/// A buffer of four bytes per pixel, row after row.
#[derive(Clone, Debug, PartialEq, Eq)]
pub struct PNG {
    pub width: usize,
    pub height: usize,
    pub data: Vec<u8>,
}

impl PNG {
    /// A blank buffer of the given dimensions: four zero bytes for every
    /// pixel.
    pub fn new(width: usize, height: usize) -> (png: PNG)
        requires
            4 * width * height <= usize::MAX,
        ensures
            png.width == width,
            png.height == height,
            png.data@ == Seq::new((4 * width * height) as nat, |i: int| 0u8),
    {
        let size: usize = if width == 0 || height == 0 {
            assert(4 * width * height == 0) by (nonlinear_arith)
                requires
                    width == 0 || height == 0,
            ;
            0
        } else {
            assert(4 * width <= 4 * width * height) by (nonlinear_arith)
                requires
                    width >= 1,
                    height >= 1,
            ;
            4 * width * height
        };
        let data: Vec<u8> = vec![0u8; size];
        PNG { width, height, data }
    }
}

} // verus!
