//! 3x3 convolution over a pixel buffer, and the three filters built on it.
//!
//! A neighbour that falls outside the image is left out of the sum, and the
//! sum is still divided by the kernel's own divisor: the window shrinks at
//! the borders, the divisor does not. Every output pixel is computed from
//! the buffer as it was before the call.

use vstd::prelude::*;
use crate::image::{lemma_offset_in_bounds, Image, ImageView};
use crate::numeric::{clamp_channel, div_toward_zero, divide_toward_zero, saturate_to_channel};
use crate::pixel::RGB_Pixel;

verus! {

/// One convolution: nine weights, the divisor that the weighted sum is
/// divided by, and the bias added to the quotient.
///
/// `weights[i][j]` is the weight of the neighbour `i - 1` columns to the
/// right and `j - 1` rows below the pixel.
#[derive(Clone, Copy, Debug)]
pub struct Kernel {
    pub weights: [[i32; 3]; 3],
    pub divisor: i32,
    pub bias: i32,
}

impl Kernel {
    /// The weight of the neighbour at column offset `i - 1`, row offset
    /// `j - 1`.
    pub open spec fn weight(self, i: int, j: int) -> int {
        self.weights@[i]@[j] as int
    }

    /// The divisor is not zero.
    pub open spec fn wf(self) -> bool {
        self.divisor != 0
    }
}

/// The mean of the neighbourhood: all weights 1, divisor 9.
pub open spec fn blur_kernel() -> Kernel {
    Kernel {
        weights: [[1i32, 1i32, 1i32], [1i32, 1i32, 1i32], [1i32, 1i32, 1i32]],
        divisor: 9,
        bias: 0,
    }
}

/// The pixel eight times over, less its eight neighbours.
pub open spec fn edge_kernel() -> Kernel {
    Kernel {
        weights: [[-1i32, -1i32, -1i32], [-1i32, 8i32, -1i32], [-1i32, -1i32, -1i32]],
        divisor: 1,
        bias: 0,
    }
}

/// The difference across the diagonal, lifted to mid-grey.
pub open spec fn emboss_kernel() -> Kernel {
    Kernel {
        weights: [[-1i32, -1i32, 0i32], [-1i32, 0i32, 1i32], [0i32, 1i32, 1i32]],
        divisor: 1,
        bias: 128,
    }
}

impl ImageView {
    /// What the pixel at column `x`, row `y` adds to a sum for one channel:
    /// the channel's value, or nothing when the image has no such pixel.
    pub open spec fn tap(self, x: int, y: int, channel: int) -> int {
        if 0 <= x < self.width && 0 <= y < self.height {
            self.data[self.offset(x, y) + channel] as int
        } else {
            0
        }
    }

    /// The weighted sum of one channel over the neighbourhood of the pixel
    /// at column `x`, row `y`.
    pub open spec fn weighted_sum(self, kernel: Kernel, x: int, y: int, channel: int) -> int {
        kernel.weight(0, 0) * self.tap(x - 1, y - 1, channel)
            + kernel.weight(0, 1) * self.tap(x - 1, y, channel)
            + kernel.weight(0, 2) * self.tap(x - 1, y + 1, channel)
            + kernel.weight(1, 0) * self.tap(x, y - 1, channel)
            + kernel.weight(1, 1) * self.tap(x, y, channel)
            + kernel.weight(1, 2) * self.tap(x, y + 1, channel)
            + kernel.weight(2, 0) * self.tap(x + 1, y - 1, channel)
            + kernel.weight(2, 1) * self.tap(x + 1, y, channel)
            + kernel.weight(2, 2) * self.tap(x + 1, y + 1, channel)
    }

    /// One channel of the filtered pixel at column `x`, row `y`: the
    /// weighted sum divided by the divisor toward zero, plus the bias,
    /// saturated.
    pub open spec fn filtered(self, kernel: Kernel, x: int, y: int, channel: int) -> u8 {
        clamp_channel(
            div_toward_zero(self.weighted_sum(kernel, x, y, channel), kernel.divisor as int)
                + kernel.bias,
        )
    }

    /// The image filtered by `kernel`: every byte is the filtered value of
    /// its channel of its pixel, computed from this image.
    pub open spec fn convolved(self, kernel: Kernel) -> ImageView {
        ImageView {
            data: Seq::new(
                self.data.len(),
                |i: int|
                    self.filtered(
                        kernel,
                        (i / 3) % (self.width as int),
                        (i / 3) / (self.width as int),
                        i % 3,
                    ),
            ),
            ..self
        }
    }
}

/// The byte at `offset(x, y) + channel` belongs to channel `channel` of the
/// pixel at column `x`, row `y`, and to no other.
pub proof fn lemma_byte_of_pixel(v: ImageView, x: int, y: int, channel: int)
    requires
        0 <= x < v.width,
        0 <= y,
        0 <= channel < 3,
    ensures
        ({
            let i = v.offset(x, y) + channel;
            &&& i / 3 == y * v.width + x
            &&& i % 3 == channel
            &&& (i / 3) % (v.width as int) == x
            &&& (i / 3) / (v.width as int) == y
        }),
{
    let w = v.width as int;
    let p = y * w + x;
    vstd::arithmetic::div_mod::lemma_fundamental_div_mod_converse(p, w, y, x);
}

fn weighted_tap(
    image: &Image,
    kernel: &Kernel,
    x: usize,
    y: usize,
    i: usize,
    j: usize,
    channel: usize,
) -> (term: i64)
    requires
        image@.wf(),
        x < image.width,
        y < image.height,
        i < 3,
        j < 3,
        channel < 3,
    ensures
        term == kernel.weight(i as int, j as int) * image@.tap(x + i - 1, y + j - 1, channel as int),
        -0x80_0000_0000 <= term <= 0x80_0000_0000,
{
    let weight = kernel.weights[i][j] as i64;
    proof {
        assert(image.data@.len() == image.data.len());
        lemma_offset_in_bounds(image@, x as int, y as int);
        assert(y <= y * image.width) by (nonlinear_arith)
            requires
                image.width >= 1,
        ;
    }
    if x + i < 1 || y + j < 1 {
        return 0;
    }
    let nx = x + i - 1;
    let ny = y + j - 1;
    if nx >= image.width || ny >= image.height {
        return 0;
    }
    proof {
        lemma_offset_in_bounds(image@, nx as int, ny as int);
    }
    let value = image.data[(ny * image.width + nx) * 3 + channel] as i64;
    assert(-0x80_0000_0000 <= weight * value <= 0x80_0000_0000) by (nonlinear_arith)
        requires
            -0x8000_0000 <= weight <= 0x8000_0000,
            0 <= value <= 255,
    ;
    weight * value
}

fn filter_channel(image: &Image, kernel: &Kernel, x: usize, y: usize, channel: usize) -> (value: u8)
    requires
        image@.wf(),
        kernel.wf(),
        x < image.width,
        y < image.height,
        channel < 3,
    ensures
        value == image@.filtered(*kernel, x as int, y as int, channel as int),
{
    let sum = weighted_tap(image, kernel, x, y, 0, 0, channel)
        + weighted_tap(image, kernel, x, y, 0, 1, channel)
        + weighted_tap(image, kernel, x, y, 0, 2, channel)
        + weighted_tap(image, kernel, x, y, 1, 0, channel)
        + weighted_tap(image, kernel, x, y, 1, 1, channel)
        + weighted_tap(image, kernel, x, y, 1, 2, channel)
        + weighted_tap(image, kernel, x, y, 2, 0, channel)
        + weighted_tap(image, kernel, x, y, 2, 1, channel)
        + weighted_tap(image, kernel, x, y, 2, 2, channel);
    let quotient = divide_toward_zero(sum, kernel.divisor as i64);
    saturate_to_channel(quotient + kernel.bias as i64)
}

impl Image {
    /// Filters the image by `kernel`. The output is computed in a second
    /// buffer, which then takes the place of the data.
    pub fn convolve(&mut self, kernel: &Kernel)
        requires
            old(self)@.wf(),
            kernel.wf(),
        ensures
            final(self)@ == old(self)@.convolved(*kernel),
            final(self)@.wf(),
    {
        let ghost before = self@;
        let ghost after = before.convolved(*kernel);
        let width = self.width;
        let height = self.height;
        let mut out: Vec<u8> = Vec::with_capacity(self.data.len());
        let mut y: usize = 0;
        while y < height
            invariant
                self@ == before,
                before.wf(),
                kernel.wf(),
                width == self.width,
                height == self.height,
                after == before.convolved(*kernel),
                y <= height,
                out@.len() == before.offset(0, y as int),
                forall|i: int| 0 <= i < out@.len() ==> out@[i] == #[trigger] after.data[i],
            decreases height - y,
        {
            let mut x: usize = 0;
            while x < width
                invariant
                    self@ == before,
                    before.wf(),
                    kernel.wf(),
                    width == self.width,
                    height == self.height,
                    after == before.convolved(*kernel),
                    y < height,
                    x <= width,
                    out@.len() == before.offset(x as int, y as int),
                    forall|i: int| 0 <= i < out@.len() ==> out@[i] == #[trigger] after.data[i],
                decreases width - x,
            {
                proof {
                    lemma_offset_in_bounds(before, x as int, y as int);
                    lemma_byte_of_pixel(before, x as int, y as int, 0);
                    lemma_byte_of_pixel(before, x as int, y as int, 1);
                    lemma_byte_of_pixel(before, x as int, y as int, 2);
                }
                out.push(filter_channel(self, kernel, x, y, 0));
                out.push(filter_channel(self, kernel, x, y, 1));
                out.push(filter_channel(self, kernel, x, y, 2));
                x += 1;
            }
            assert(before.offset(width as int, y as int) == before.offset(0, y + 1))
                by (nonlinear_arith)
                requires
                    width == before.width,
            ;
            y += 1;
        }
        assert(before.offset(0, height as int) == before.data.len()) by (nonlinear_arith)
            requires
                before.wf(),
                height == before.height,
        ;
        assert(out@ =~= after.data);
        self.data = out;
    }
}

/// The three filters of a pixel buffer. Each changes the buffer in place
/// and leaves its dimensions as they are.
pub trait Convolution: View<V = ImageView> + Sized {
    /// Replaces every pixel by its difference from its neighbours.
    fn edge(&mut self)
        requires
            old(self)@.wf(),
        ensures
            final(self)@ == old(self)@.convolved(edge_kernel()),
    ;

    /// Replaces every pixel by the mean over its neighbourhood.
    fn blur(&mut self)
        requires
            old(self)@.wf(),
        ensures
            final(self)@ == old(self)@.convolved(blur_kernel()),
    ;

    /// Replaces every pixel by the difference across its diagonal, around
    /// mid-grey.
    fn emboss(&mut self)
        requires
            old(self)@.wf(),
        ensures
            final(self)@ == old(self)@.convolved(emboss_kernel()),
    ;
}

impl Convolution for Image {
    fn edge(&mut self) {
        let kernel = Kernel {
            weights: [[-1, -1, -1], [-1, 8, -1], [-1, -1, -1]],
            divisor: 1,
            bias: 0,
        };
        self.convolve(&kernel);
    }

    fn blur(&mut self) {
        let kernel = Kernel { weights: [[1, 1, 1], [1, 1, 1], [1, 1, 1]], divisor: 9, bias: 0 };
        self.convolve(&kernel);
    }

    fn emboss(&mut self) {
        let kernel = Kernel {
            weights: [[-1, -1, 0], [-1, 0, 1], [0, 1, 1]],
            divisor: 1,
            bias: 128,
        };
        self.convolve(&kernel);
    }
}

/// Blurring an image of one pixel divides each channel by 9: the pixel is
/// the only term of its sum, and the divisor stays the kernel's own.
pub proof fn lemma_blur_of_single_pixel(v: ImageView, channel: int)
    requires
        v.wf(),
        v.width == 1,
        v.height == 1,
        0 <= channel < 3,
    ensures
        v.convolved(blur_kernel()).data[channel] == v.data[channel] / 9,
{
    lemma_offset_in_bounds(v, 0, 0);
    lemma_byte_of_pixel(v, 0, 0, channel);
    let k = blur_kernel();
    assert(k.weight(0, 0) == 1 && k.weight(0, 1) == 1 && k.weight(0, 2) == 1);
    assert(k.weight(1, 0) == 1 && k.weight(1, 1) == 1 && k.weight(1, 2) == 1);
    assert(k.weight(2, 0) == 1 && k.weight(2, 1) == 1 && k.weight(2, 2) == 1);
}

impl ImageView {
    /// Every pixel of the image is `color`.
    pub open spec fn uniform(self, color: RGB_Pixel) -> bool {
        forall|x: int, y: int|
            0 <= x < self.width && 0 <= y < self.height ==> #[trigger] self.pixel(x, y) == color
    }
}

/// One channel of a pixel, by its position.
pub open spec fn channel_of(color: RGB_Pixel, channel: int) -> u8 {
    if channel == 0 {
        color.r
    } else if channel == 1 {
        color.g
    } else {
        color.b
    }
}

/// The edge filter gives zero wherever a pixel of a uniform image has all
/// eight neighbours, and everywhere when the colour's channel is zero: the
/// weights sum to zero over a constant neighbourhood. At a border pixel of
/// another colour the missing neighbours leave a positive sum.
pub proof fn lemma_edge_of_uniform(v: ImageView, color: RGB_Pixel, x: int, y: int, channel: int)
    requires
        v.wf(),
        v.uniform(color),
        0 <= x < v.width,
        0 <= y < v.height,
        0 <= channel < 3,
        (0 < x < v.width - 1 && 0 < y < v.height - 1) || channel_of(color, channel) == 0,
    ensures
        v.convolved(edge_kernel()).data[v.offset(x, y) + channel] == 0,
{
    lemma_offset_in_bounds(v, x, y);
    lemma_byte_of_pixel(v, x, y, channel);
    let c = channel_of(color, channel) as int;
    assert forall|nx: int, ny: int| 0 <= nx < v.width && 0 <= ny < v.height implies v.tap(
        nx,
        ny,
        channel,
    ) == c by {
        assert(v.pixel(nx, ny) == color);
    }
    let k = edge_kernel();
    assert(k.weight(0, 0) == -1 && k.weight(0, 1) == -1 && k.weight(0, 2) == -1);
    assert(k.weight(1, 0) == -1 && k.weight(1, 1) == 8 && k.weight(1, 2) == -1);
    assert(k.weight(2, 0) == -1 && k.weight(2, 1) == -1 && k.weight(2, 2) == -1);
}

} // verus!
