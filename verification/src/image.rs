//! The pixel buffer: a flat byte array of three channels per pixel in
//! row-major order, with its dimensions.

use vstd::prelude::*;
use crate::pixel::{ColorType, RGB_Pixel};

verus! {

/// The mathematical model of a pixel buffer.
pub struct ImageView {
    pub width: nat,
    pub height: nat,
    pub color_type: ColorType,
    pub data: Seq<u8>,
}

impl ImageView {
    /// The buffer holds exactly three bytes for each pixel of its dimensions.
    pub open spec fn wf(self) -> bool {
        self.data.len() == 3 * self.width * self.height
    }

    /// Where the three bytes of the pixel at column `x`, row `y` begin.
    pub open spec fn offset(self, x: int, y: int) -> int {
        (y * self.width + x) * 3
    }

    /// The buffer has a pixel at column `x`, row `y`: the coordinate lies
    /// within the dimensions and its three bytes lie within the data.
    pub open spec fn holds(self, x: int, y: int) -> bool {
        &&& 0 <= x < self.width
        &&& 0 <= y < self.height
        &&& self.offset(x, y) + 2 < self.data.len()
    }

    /// The pixel at column `x`, row `y`.
    pub open spec fn pixel(self, x: int, y: int) -> RGB_Pixel {
        let at = self.offset(x, y);
        RGB_Pixel { r: self.data[at], g: self.data[at + 1], b: self.data[at + 2] }
    }

    /// The buffer with the pixel at column `x`, row `y` replaced by `color`.
    pub open spec fn with_pixel(self, x: int, y: int, color: RGB_Pixel) -> ImageView {
        let at = self.offset(x, y);
        ImageView {
            data: self.data.update(at, color.r).update(at + 1, color.g).update(at + 2, color.b),
            ..self
        }
    }

    /// The buffer of the given dimensions in which every byte is zero.
    pub open spec fn blank(width: nat, height: nat, color_type: ColorType) -> ImageView {
        ImageView {
            width,
            height,
            color_type,
            data: Seq::new(3 * width * height, |i: int| 0u8),
        }
    }
}

/// A pixel buffer. `data` holds the pixels row after row, three bytes each;
/// `color_type` is the channel order that the codec which made the buffer
/// declares for those three bytes.
#[derive(Clone, Debug, PartialEq, Eq)]
pub struct Image {
    pub width: usize,
    pub height: usize,
    pub color_type: ColorType,
    pub data: Vec<u8>,
}

impl View for Image {
    type V = ImageView;

    open spec fn view(&self) -> ImageView {
        ImageView {
            width: self.width as nat,
            height: self.height as nat,
            color_type: self.color_type,
            data: self.data@,
        }
    }
}

/// In a well-formed buffer every coordinate within the dimensions has its
/// pixel, and the pixel's bytes end within the data.
pub proof fn lemma_offset_in_bounds(v: ImageView, x: int, y: int)
    requires
        v.wf(),
        0 <= x < v.width,
        0 <= y < v.height,
    ensures
        0 <= v.offset(x, y),
        v.offset(x, y) + 3 <= v.data.len(),
        v.holds(x, y),
{
    let w = v.width as int;
    let h = v.height as int;
    assert(y * w + x + 1 <= h * w) by (nonlinear_arith)
        requires
            0 <= x < w,
            0 <= y < h,
    ;
    assert(3 * v.width * v.height == 3 * (h * w)) by (nonlinear_arith)
        requires
            w == v.width,
            h == v.height,
    ;
}

/// A well-formed buffer holds a whole number of pixels: one for each
/// coordinate within its dimensions.
pub proof fn lemma_whole_pixels(v: ImageView)
    requires
        v.wf(),
    ensures
        v.data.len() == 3 * (v.data.len() / 3),
        v.data.len() / 3 == v.width * v.height,
{
    let pixels = v.width * v.height;
    assert(3 * v.width * v.height == 3 * pixels) by (nonlinear_arith)
        requires
            pixels == v.width * v.height,
    ;
}

/// Three bytes for each pixel of the given dimensions.
fn size_of_buffer(width: usize, height: usize) -> (size: usize)
    requires
        3 * width * height <= usize::MAX,
    ensures
        size == 3 * width * height,
{
    if width == 0 || height == 0 {
        assert(3 * width * height == 0) by (nonlinear_arith)
            requires
                width == 0 || height == 0,
        ;
        0
    } else {
        assert(3 * width <= 3 * width * height) by (nonlinear_arith)
            requires
                width >= 1,
                height >= 1,
        ;
        3 * width * height
    }
}

impl Image {
    /// A blank buffer of the given dimensions: every channel of every pixel
    /// is zero.
    pub fn new(width: usize, height: usize, color_type: ColorType) -> (img: Image)
        requires
            3 * width * height <= usize::MAX,
        ensures
            img@ == ImageView::blank(width as nat, height as nat, color_type),
            img@.wf(),
    {
        let data: Vec<u8> = vec![0u8; size_of_buffer(width, height)];
        assert(data@ =~= Seq::new((3 * width * height) as nat, |i: int| 0u8));
        Image { width, height, color_type, data }
    }

    /// Whether the data holds exactly three bytes for each pixel of the
    /// dimensions.
    pub fn is_well_formed(&self) -> (ok: bool)
        ensures
            ok == self@.wf(),
    {
        let len = self.data.len();
        assert(3 * self.width * self.height == 3 * (self.width * self.height))
            by (nonlinear_arith);
        let pixels = match self.width.checked_mul(self.height) {
            Some(n) => n,
            None => { return false; },
        };
        match pixels.checked_mul(3) {
            Some(size) => size == len,
            None => false,
        }
    }

    /// The number of bytes that the dimensions call for.
    pub fn buffer_size(&self) -> (size: usize)
        requires
            3 * self.width * self.height <= usize::MAX,
        ensures
            size == 3 * self.width * self.height,
    {
        size_of_buffer(self.width, self.height)
    }

    /// Where the pixel at column `x`, row `y` begins in `data`, or `None`
    /// when the buffer has no such pixel. The test does not rely on the
    /// buffer being well-formed.
    pub fn get_offset(&self, x: usize, y: usize) -> (at: Option<usize>)
        ensures
            match at {
                Some(o) => self@.holds(x as int, y as int) && o == self@.offset(x as int, y as int),
                None => !self@.holds(x as int, y as int),
            },
    {
        let len = self.data.len();
        if x >= self.width || y >= self.height {
            return None;
        }
        let row = match y.checked_mul(self.width) {
            Some(v) => v,
            None => { return None; },
        };
        let index = match row.checked_add(x) {
            Some(v) => v,
            None => { return None; },
        };
        let at = match index.checked_mul(3) {
            Some(v) => v,
            None => { return None; },
        };
        if at < len && len - at > 2 {
            Some(at)
        } else {
            None
        }
    }

    /// The pixel at column `x`, row `y`, or `None` when the coordinate is out
    /// of bounds.
    pub fn get_pixel(&self, x: usize, y: usize) -> (pixel: Option<RGB_Pixel>)
        ensures
            pixel == (if self@.holds(x as int, y as int) {
                Some(self@.pixel(x as int, y as int))
            } else {
                None
            }),
    {
        assert(self.data@.len() == self.data.len());
        match self.get_offset(x, y) {
            Some(at) => Some(
                RGB_Pixel { r: self.data[at], g: self.data[at + 1], b: self.data[at + 2] },
            ),
            None => None,
        }
    }

    /// Writes `color` to the pixel at column `x`, row `y` and returns `true`,
    /// or returns `false` and changes nothing when the coordinate is out of
    /// bounds.
    pub fn set_pixel(&mut self, x: usize, y: usize, color: RGB_Pixel) -> (done: bool)
        ensures
            done == old(self)@.holds(x as int, y as int),
            final(self)@ == (if done {
                old(self)@.with_pixel(x as int, y as int, color)
            } else {
                old(self)@
            }),
    {
        assert(self.data@.len() == self.data.len());
        match self.get_offset(x, y) {
            Some(at) => {
                self.data[at] = color.r;
                self.data[at + 1] = color.g;
                self.data[at + 2] = color.b;
                true
            },
            None => false,
        }
    }
}

} // verus!
