//! Pixel values and channel orders.

use vstd::prelude::*;

verus! {

/// One pixel, its three 8-bit channels named first to last as a buffer
/// stores them.
#[allow(non_camel_case_types)]
#[derive(Clone, Copy, Debug, PartialEq, Eq, Structural)]
pub struct RGB_Pixel {
    pub r: u8,
    pub g: u8,
    pub b: u8,
}

/// One pixel as the bitmap container lays it out on disk: blue first.
#[allow(non_camel_case_types)]
#[derive(Clone, Copy, Debug, PartialEq, Eq, Structural)]
pub struct BGR_Pixel {
    pub b: u8,
    pub g: u8,
    pub r: u8,
}

/// The channel order that the codec which made a buffer declares for it.
#[derive(Clone, Copy, Debug, PartialEq, Eq, Structural)]
pub enum ColorType {
    /// Red, green, blue: the order of the text-header container.
    RGB8,
    /// The order of the bitmap container's body, kept as the file has it.
    BRG8,
}

} // verus!
