//! Point operations: each output pixel depends on the input pixel alone, or,
//! for the contrast, on the input pixel and the mean over the whole image.
//!
//! Luminance is `0.2126 R + 0.7152 G + 0.0722 B`, where R, G and B are the
//! first, second and third channel of a pixel. All arithmetic is exact: the
//! coefficients are ten-thousandths, a gain is a fraction, and a result is
//! rounded toward zero once, just before it is saturated.

use vstd::prelude::*;
use crate::image::{lemma_whole_pixels, Image, ImageView};
use crate::numeric::{clamp_channel, div_toward_zero};

verus! {

/// A gain factor as a fraction.
#[derive(Clone, Copy, Debug, PartialEq, Eq, Structural)]
pub struct Gain {
    pub numerator: i32,
    pub denominator: u32,
}

impl Gain {
    /// A fraction has a denominator other than zero.
    pub open spec fn wf(self) -> bool {
        self.denominator > 0
    }
}

/// A channel moved away from a level, or toward it, by a gain:
/// `channel - (channel - level) * (1 - gain)`, rounded toward zero and
/// saturated. The level is the fraction `level_num / level_den`; the value
/// is computed over the common denominator `level_den * gain.denominator`.
pub open spec fn adjusted(channel: int, level_num: int, level_den: int, gain: Gain) -> u8 {
    let unit = gain.denominator as int;
    clamp_channel(
        div_toward_zero(
            channel * level_den * unit - (channel * level_den - level_num) * (unit
                - gain.numerator),
            level_den * unit,
        ),
    )
}

impl ImageView {
    /// Every channel `v` replaced by `255 - v`.
    pub open spec fn negated(self) -> ImageView {
        ImageView {
            data: Seq::new(self.data.len(), |i: int| (255 - self.data[i]) as u8),
            ..self
        }
    }

    /// Every channel `v` replaced by `v + bias`, saturated.
    pub open spec fn brightened(self, bias: int) -> ImageView {
        ImageView {
            data: Seq::new(self.data.len(), |i: int| clamp_channel(self.data[i] + bias)),
            ..self
        }
    }

    /// Ten thousand times the luminance of pixel number `k`, counting along
    /// the rows.
    pub open spec fn luminance(self, k: int) -> int {
        2126 * self.data[3 * k] + 7152 * self.data[3 * k + 1] + 722 * self.data[3 * k + 2]
    }

    /// Ten thousand times the luminance of the first `pixels` pixels, summed.
    pub open spec fn luminance_sum(self, pixels: nat) -> int
        decreases pixels,
    {
        if pixels == 0 {
            0
        } else {
            self.luminance_sum((pixels - 1) as nat) + self.luminance(pixels - 1)
        }
    }

    /// Every channel of every pixel replaced by the pixel's luminance,
    /// rounded toward zero and saturated.
    pub open spec fn grayscaled(self) -> ImageView {
        ImageView {
            data: Seq::new(
                self.data.len(),
                |i: int| clamp_channel(self.luminance(i / 3) / 10000),
            ),
            ..self
        }
    }

    /// Every channel adjusted by `gain` around the luminance of its own
    /// pixel.
    pub open spec fn saturated(self, gain: Gain) -> ImageView {
        ImageView {
            data: Seq::new(
                self.data.len(),
                |i: int| adjusted(self.data[i] as int, self.luminance(i / 3), 10000, gain),
            ),
            ..self
        }
    }

    /// Every channel adjusted by `gain` around the mean luminance of the
    /// whole image: the sum over all pixels divided by their number.
    pub open spec fn contrasted(self, gain: Gain) -> ImageView {
        let pixels = (self.data.len() / 3) as int;
        ImageView {
            data: Seq::new(
                self.data.len(),
                |i: int|
                    adjusted(
                        self.data[i] as int,
                        self.luminance_sum(pixels as nat),
                        10000 * pixels,
                        gain,
                    ),
            ),
            ..self
        }
    }
}

/// The point operations of a pixel buffer. Each changes the buffer in
/// place and leaves its dimensions as they are.
pub trait PointProcessor: View<V = ImageView> + Sized {
    /// Inverts every channel.
    fn negative(&mut self)
        ensures
            final(self)@ == old(self)@.negated(),
    ;

    /// Adds `bias` to every channel.
    fn brighten(&mut self, bias: isize)
        requires
            old(self)@.wf(),
        ensures
            final(self)@ == old(self)@.brightened(bias as int),
    ;

    /// Moves every channel away from the mean luminance of the image, or
    /// toward it. The mean is taken over the image as it is before the call.
    fn contrast(&mut self, gain: Gain)
        requires
            old(self)@.wf(),
            gain.wf(),
        ensures
            final(self)@ == old(self)@.contrasted(gain),
    ;

    /// Moves every channel away from the luminance of its pixel, or toward
    /// it.
    fn saturate(&mut self, gain: Gain)
        requires
            old(self)@.wf(),
            gain.wf(),
        ensures
            final(self)@ == old(self)@.saturated(gain),
    ;

    /// Replaces every pixel by the grey of its luminance.
    fn grayscale(&mut self)
        requires
            old(self)@.wf(),
        ensures
            final(self)@ == old(self)@.grayscaled(),
    ;
}

/// The largest denominator of a level that `adjust` computes with: ten
/// thousand for every pixel that a buffer can hold.
const MAX_LEVEL_DEN: u128 = 10000 * 0xffff_ffff_ffff_ffff;

fn adjust(channel: u8, level_num: u128, level_den: u128, gain: Gain) -> (value: u8)
    requires
        gain.wf(),
        0 < level_den <= MAX_LEVEL_DEN,
        level_num <= 255 * level_den,
    ensures
        value == adjusted(channel as int, level_num as int, level_den as int, gain),
{
    let c = channel as i128;
    let ln = level_num as i128;
    let ld = level_den as i128;
    let unit = gain.denominator as i128;
    let rest = unit - gain.numerator as i128;
    assert(0 <= c * ld <= 255 * ld) by (nonlinear_arith)
        requires
            0 <= c <= 255,
            0 <= ld,
    ;
    let scaled = c * ld;
    assert(0 <= scaled * unit <= 255 * MAX_LEVEL_DEN * 0xffff_ffff) by (nonlinear_arith)
        requires
            0 <= scaled <= 255 * MAX_LEVEL_DEN,
            0 <= unit <= 0xffff_ffff,
    ;
    let spread = scaled - ln;
    assert(-(255 * MAX_LEVEL_DEN * 0x1_8000_0000) <= spread * rest <= 255 * MAX_LEVEL_DEN
        * 0x1_8000_0000) by (nonlinear_arith)
        requires
            -(255 * MAX_LEVEL_DEN) <= spread <= 255 * MAX_LEVEL_DEN,
            -0x1_8000_0000 <= rest <= 0x1_8000_0000,
    ;
    assert(0 < ld * unit <= MAX_LEVEL_DEN * 0xffff_ffff) by (nonlinear_arith)
        requires
            0 < ld <= MAX_LEVEL_DEN,
            0 < unit <= 0xffff_ffff,
    ;
    let top = scaled * unit - spread * rest;
    let bottom = ld * unit;
    if top <= 0 {
        0
    } else {
        let quotient = top / bottom;
        if quotient >= 255 {
            255
        } else {
            quotient as u8
        }
    }
}

/// Whatever the input, the bias and the gain, every byte that a point
/// operation gives is its exact value saturated: the value itself where
/// that is a channel value, 0 below the range and 255 above it.
pub proof fn lemma_point_operations_saturate(v: ImageView, bias: int, gain: Gain, i: int)
    requires
        0 <= i < v.data.len(),
    ensures
        v.negated().data[i] == clamp_channel(255 - v.data[i]),
        v.brightened(bias).data[i] == clamp_channel(v.data[i] + bias),
        v.grayscaled().data[i] == clamp_channel(v.luminance(i / 3) / 10000),
        v.saturated(gain).data[i] == clamp_channel(
            div_toward_zero(
                v.data[i] * 10000 * gain.denominator - (v.data[i] * 10000 - v.luminance(i / 3)) * (
                gain.denominator - gain.numerator),
                10000 * gain.denominator,
            ),
        ),
        v.contrasted(gain).data[i] == ({
            let pixels = (v.data.len() / 3) as int;
            clamp_channel(
                div_toward_zero(
                    v.data[i] * (10000 * pixels) * gain.denominator - (v.data[i] * (10000 * pixels)
                        - v.luminance_sum(pixels as nat)) * (gain.denominator - gain.numerator),
                    (10000 * pixels) * gain.denominator,
                ),
            )
        }),
        v.data[i] + bias >= 255 ==> v.brightened(bias).data[i] == 255,
        v.data[i] + bias <= 0 ==> v.brightened(bias).data[i] == 0,
        0 <= v.data[i] + bias <= 255 ==> v.brightened(bias).data[i] == v.data[i] + bias,
{
}

/// Inverting an image twice gives the image back.
pub proof fn lemma_negative_is_involution(v: ImageView)
    ensures
        v.negated().negated() == v,
{
    assert(v.negated().negated().data =~= v.data);
}

/// A grey image is its own grey: doing `grayscale` a second time changes
/// nothing.
pub proof fn lemma_grayscale_is_idempotent(v: ImageView)
    requires
        v.wf(),
    ensures
        v.grayscaled().grayscaled() == v.grayscaled(),
{
    let once = v.grayscaled();
    let twice = once.grayscaled();
    lemma_whole_pixels(v);
    assert forall|i: int| 0 <= i < once.data.len() implies twice.data[i] == once.data[i] by {
        // all three channels of pixel i / 3 hold its grey, which is then its luminance
        assert(once.luminance(i / 3) == 10000 * once.data[i]);
    }
    assert(twice.data =~= once.data);
}

/// A contrast by the gain 1 changes nothing.
pub proof fn lemma_contrast_by_one_is_identity(v: ImageView, gain: Gain)
    requires
        v.wf(),
        gain.wf(),
        gain.numerator == gain.denominator,
    ensures
        v.contrasted(gain) == v,
{
    let pixels = (v.data.len() / 3) as int;
    let level_den = 10000 * pixels;
    let unit = gain.denominator as int;
    lemma_whole_pixels(v);
    assert forall|i: int| 0 <= i < v.data.len() implies v.contrasted(gain).data[i]
        == v.data[i] by {
        let c = v.data[i] as int;
        let bottom = level_den * unit;
        let top = c * level_den * unit - (c * level_den - v.luminance_sum(pixels as nat)) * (unit
            - gain.numerator);
        assert(bottom > 0) by (nonlinear_arith)
            requires
                bottom == level_den * unit,
                level_den > 0,
                unit > 0,
        ;
        assert(top == c * bottom) by (nonlinear_arith)
            requires
                top == c * level_den * unit - (c * level_den - v.luminance_sum(pixels as nat)) * (
                unit - gain.numerator),
                unit - gain.numerator == 0,
                bottom == level_den * unit,
        ;
        vstd::arithmetic::div_mod::lemma_div_by_multiple(c, bottom);
    }
    assert(v.contrasted(gain).data =~= v.data);
}

impl PointProcessor for Image {
    fn negative(&mut self) {
        let ghost before = self@;
        let mut i: usize = 0;
        while i < self.data.len()
            invariant
                i <= self.data@.len(),
                self.data@.len() == before.data.len(),
                self.width == before.width,
                self.height == before.height,
                self.color_type == before.color_type,
                forall|k: int| 0 <= k < i ==> self.data@[k] == (255 - before.data[k]) as u8,
                forall|k: int| i <= k < self.data@.len() ==> self.data@[k] == before.data[k],
            decreases self.data@.len() - i,
        {
            self.data[i] = 255 - self.data[i];
            i += 1;
        }
        assert(self@.data =~= before.negated().data);
    }

    fn brighten(&mut self, bias: isize) {
        let ghost before = self@;
        let step: i64 = if bias > 255 {
            255
        } else if bias < -255 {
            -255
        } else {
            bias as i64
        };
        let mut i: usize = 0;
        while i < self.data.len()
            invariant
                i <= self.data@.len(),
                self.data@.len() == before.data.len(),
                self.width == before.width,
                self.height == before.height,
                self.color_type == before.color_type,
                step == (if bias > 255 { 255 } else if bias < -255 { -255 } else { bias as int }),
                forall|k: int| 0 <= k < i ==> self.data@[k] == clamp_channel(before.data[k] + bias),
                forall|k: int| i <= k < self.data@.len() ==> self.data@[k] == before.data[k],
            decreases self.data@.len() - i,
        {
            self.data[i] = crate::numeric::saturate_to_channel(self.data[i] as i64 + step);
            i += 1;
        }
        assert(self@.data =~= before.brightened(bias as int).data);
    }

    fn contrast(&mut self, gain: Gain) {
        let ghost before = self@;
        let len = self.data.len();
        let pixels = len / 3;
        proof {
            lemma_whole_pixels(before);
        }
        let mut total: u128 = 0;
        let mut k: usize = 0;
        while k < pixels
            invariant
                self@ == before,
                len == before.data.len(),
                len == 3 * pixels,
                k <= pixels,
                total == before.luminance_sum(k as nat),
                total <= 2550000 * k,
            decreases pixels - k,
        {
            let r = self.data[3 * k] as u128;
            let g = self.data[3 * k + 1] as u128;
            let b = self.data[3 * k + 2] as u128;
            total = total + (2126 * r + 7152 * g + 722 * b);
            k += 1;
        }
        let level_den: u128 = 10000 * (pixels as u128);
        let mut i: usize = 0;
        while i < len
            invariant
                i <= len,
                len == self.data@.len(),
                len == before.data.len(),
                len == 3 * pixels,
                gain.wf(),
                self.width == before.width,
                self.height == before.height,
                self.color_type == before.color_type,
                total == before.luminance_sum(pixels as nat),
                total <= 2550000 * pixels,
                level_den == 10000 * pixels,
                forall|j: int|
                    0 <= j < i ==> self.data@[j] == adjusted(
                        before.data[j] as int,
                        total as int,
                        level_den as int,
                        gain,
                    ),
                forall|j: int| i <= j < len ==> self.data@[j] == before.data[j],
            decreases len - i,
        {
            self.data[i] = adjust(self.data[i], total, level_den, gain);
            i += 1;
        }
        assert(self@.data =~= before.contrasted(gain).data);
    }

    fn saturate(&mut self, gain: Gain) {
        let ghost before = self@;
        let len = self.data.len();
        let pixels = len / 3;
        proof {
            lemma_whole_pixels(before);
        }
        let mut k: usize = 0;
        while k < pixels
            invariant
                k <= pixels,
                len == self.data@.len(),
                len == before.data.len(),
                len == 3 * pixels,
                gain.wf(),
                self.width == before.width,
                self.height == before.height,
                self.color_type == before.color_type,
                forall|j: int|
                    0 <= j < 3 * k ==> self.data@[j] == adjusted(
                        before.data[j] as int,
                        before.luminance(j / 3),
                        10000,
                        gain,
                    ),
                forall|j: int| 3 * k <= j < len ==> self.data@[j] == before.data[j],
            decreases pixels - k,
        {
            let r = self.data[3 * k];
            let g = self.data[3 * k + 1];
            let b = self.data[3 * k + 2];
            let level: u128 = 2126 * (r as u128) + 7152 * (g as u128) + 722 * (b as u128);
            self.data[3 * k] = adjust(r, level, 10000, gain);
            self.data[3 * k + 1] = adjust(g, level, 10000, gain);
            self.data[3 * k + 2] = adjust(b, level, 10000, gain);
            k += 1;
        }
        assert(self@.data =~= before.saturated(gain).data);
    }

    fn grayscale(&mut self) {
        let ghost before = self@;
        let len = self.data.len();
        let pixels = len / 3;
        proof {
            lemma_whole_pixels(before);
        }
        let mut k: usize = 0;
        while k < pixels
            invariant
                k <= pixels,
                len == self.data@.len(),
                len == before.data.len(),
                len == 3 * pixels,
                self.width == before.width,
                self.height == before.height,
                self.color_type == before.color_type,
                forall|j: int|
                    0 <= j < 3 * k ==> self.data@[j] == clamp_channel(
                        before.luminance(j / 3) / 10000,
                    ),
                forall|j: int| 3 * k <= j < len ==> self.data@[j] == before.data[j],
            decreases pixels - k,
        {
            let r = self.data[3 * k] as u32;
            let g = self.data[3 * k + 1] as u32;
            let b = self.data[3 * k + 2] as u32;
            let grey = ((2126 * r + 7152 * g + 722 * b) / 10000) as u8;
            self.data[3 * k] = grey;
            self.data[3 * k + 1] = grey;
            self.data[3 * k + 2] = grey;
            k += 1;
        }
        assert(self@.data =~= before.grayscaled().data);
    }
}

} // verus!
