//! The text-header container: a two-byte signature, the dimensions and the
//! largest channel value as ASCII tokens, then the raw body.
//!
//! Tokens are separated by spaces or newlines. One comment, from `#` to the
//! end of its line, may stand before the width. Exactly one separator
//! follows the third token; every byte after it belongs to the body, which
//! holds the pixels row after row, three bytes each, in the buffer's order.

use vstd::prelude::*;
use vstd::slice::{slice_subrange, slice_to_vec};
use crate::convolution::Convolution;
use crate::error::CodecError;
use crate::image::{Image, ImageView};
use crate::pixel::{ColorType, RGB_Pixel};
use crate::point::{Gain, PointProcessor};

verus! {

/// A space or a newline: what separates the tokens of the header.
pub open spec fn is_delimiter(b: u8) -> bool {
    b == 0x20 || b == 0x0A
}

/// An ASCII decimal digit.
pub open spec fn is_digit(b: u8) -> bool {
    0x30 <= b <= 0x39
}

/// The first position at or after `from` that holds no separator; the
/// length of `s` when only separators follow.
pub open spec fn skip_delimiters(s: Seq<u8>, from: int) -> int
    decreases s.len() - from,
{
    if 0 <= from < s.len() && is_delimiter(s[from]) {
        skip_delimiters(s, from + 1)
    } else {
        from
    }
}

/// The first position at or after `from` that holds a separator; the length
/// of `s` when none follows.
pub open spec fn token_end(s: Seq<u8>, from: int) -> int
    decreases s.len() - from,
{
    if 0 <= from < s.len() && !is_delimiter(s[from]) {
        token_end(s, from + 1)
    } else {
        from
    }
}

/// The position after the first newline at or after `from`; the length of
/// `s` when no newline follows.
pub open spec fn line_end(s: Seq<u8>, from: int) -> int
    decreases s.len() - from,
{
    if 0 <= from < s.len() {
        if s[from] == 0x0A {
            from + 1
        } else {
            line_end(s, from + 1)
        }
    } else {
        from
    }
}

/// The number that a string of decimal digits writes.
pub open spec fn decimal_value(digits: Seq<u8>) -> nat
    decreases digits.len(),
{
    if digits.len() == 0 {
        0
    } else {
        10 * decimal_value(digits.drop_last()) + (digits.last() - 0x30) as nat
    }
}

/// The token is one digit or more and nothing else.
pub open spec fn is_decimal(token: Seq<u8>) -> bool {
    token.len() > 0 && forall|i: int| 0 <= i < token.len() ==> is_digit(#[trigger] token[i])
}

/// The dimension that a token gives: the number it writes in base 10, if
/// it writes one and a machine word can hold it.
pub open spec fn parse_dimension(token: Seq<u8>) -> Option<nat> {
    if is_decimal(token) && decimal_value(token) <= usize::MAX {
        Some(decimal_value(token))
    } else {
        None
    }
}

/// Where the width token begins: after the signature, any separators, and
/// the comment line with the separators behind it if there is one.
pub open spec fn width_start(s: Seq<u8>) -> int {
    let first = skip_delimiters(s, 2);
    if first < s.len() && s[first] == 0x23 {
        skip_delimiters(s, line_end(s, first))
    } else {
        first
    }
}

/// What reading a file gives: the image it holds, or why it holds none.
///
/// - `InvalidHeader`: the file does not begin with the signature, the two
///   bytes `0x50 0x36`; the width or the height is missing, is no decimal
///   number or does not fit a machine word; or the file ends before the
///   separator that closes the third token.
/// - `TruncatedBody`: fewer bytes follow the header than three per pixel.
/// - `UnsupportedFeature`: more bytes follow the header than three per
///   pixel.
///
/// The third token is passed over, whatever it says.
pub open spec fn ppm_decoding(s: Seq<u8>) -> Result<ImageView, CodecError> {
    if s.len() < 2 || s[0] != 0x50 || s[1] != 0x36 {
        Err(CodecError::InvalidHeader)
    } else {
        let width_from = width_start(s);
        let width_to = token_end(s, width_from);
        let height_from = skip_delimiters(s, width_to);
        let height_to = token_end(s, height_from);
        let max_from = skip_delimiters(s, height_to);
        let max_to = token_end(s, max_from);
        let width = parse_dimension(s.subrange(width_from, width_to));
        let height = parse_dimension(s.subrange(height_from, height_to));
        if width is None || height is None || max_to >= s.len() {
            Err(CodecError::InvalidHeader)
        } else {
            let body = s.subrange(max_to + 1, s.len() as int);
            let needed = 3 * width->0 * height->0;
            if body.len() < needed {
                Err(CodecError::TruncatedBody)
            } else if body.len() > needed {
                Err(CodecError::UnsupportedFeature)
            } else {
                Ok(
                    ImageView {
                        width: width->0,
                        height: height->0,
                        color_type: ColorType::RGB8,
                        data: body,
                    },
                )
            }
        }
    }
}

/// The decimal digits of `n`, without leading zeros.
pub open spec fn decimal_digits(n: nat) -> Seq<u8>
    decreases n,
{
    if n < 10 {
        seq![(0x30 + n) as u8]
    } else {
        decimal_digits(n / 10).push((0x30 + n % 10) as u8)
    }
}

/// The header line of an image of the given dimensions:
/// the signature, the width, the height and `255`, a space between each two
/// and a newline at the end.
pub open spec fn ppm_header(width: nat, height: nat) -> Seq<u8> {
    seq![0x50u8, 0x36u8, 0x20u8] + decimal_digits(width) + seq![0x20u8] + decimal_digits(height)
        + seq![0x20u8, 0x32u8, 0x35u8, 0x35u8, 0x0Au8]
}

/// The file that holds the image: the header line, then the data as it
/// stands.
pub open spec fn ppm_encoding(v: ImageView) -> Seq<u8> {
    ppm_header(v.width, v.height) + v.data
}

/// A file that does not begin with the signature is refused for its header,
/// whatever else it holds.
pub proof fn lemma_ppm_wrong_signature(bytes: Seq<u8>)
    requires
        bytes.len() < 2 || bytes[0] != 0x50 || bytes[1] != 0x36,
    ensures
        ppm_decoding(bytes) == Err::<ImageView, CodecError>(CodecError::InvalidHeader),
{
}

/// The digits written for a number are digits, and they write that number.
pub proof fn lemma_decimal_digits_read_back(n: nat)
    ensures
        is_decimal(decimal_digits(n)),
        decimal_value(decimal_digits(n)) == n,
    decreases n,
{
    let digits = decimal_digits(n);
    if n < 10 {
        assert(decimal_value(digits.drop_last()) == 0);
    } else {
        lemma_decimal_digits_read_back(n / 10);
        assert(digits.drop_last() =~= decimal_digits(n / 10));
    }
}

/// A run of bytes that are no separators, ended by a separator or by the end
/// of the input, is one token.
proof fn lemma_token_ends_at(s: Seq<u8>, from: int, to: int)
    requires
        0 <= from <= to <= s.len(),
        forall|k: int| from <= k < to ==> !is_delimiter(#[trigger] s[k]),
        to == s.len() || is_delimiter(s[to]),
    ensures
        token_end(s, from) == to,
    decreases to - from,
{
    if from < to {
        lemma_token_ends_at(s, from + 1, to);
    }
}

/// Reading the file written for an image gives that image back, byte for
/// byte, marked with this container's channel order.
pub proof fn lemma_ppm_round_trip(ppm: PPM)
    requires
        ppm@.wf(),
    ensures
        ppm_decoding(ppm_encoding(ppm@)) == Ok::<ImageView, CodecError>(
            ImageView { color_type: ColorType::RGB8, ..ppm@ },
        ),
{
    let v = ppm@;
    let dw = decimal_digits(v.width);
    let dh = decimal_digits(v.height);
    let file = ppm_encoding(v);
    lemma_decimal_digits_read_back(v.width);
    lemma_decimal_digits_read_back(v.height);
    let w0 = 3int;
    let w1 = w0 + dw.len();
    let h0 = w1 + 1;
    let h1 = h0 + dh.len();
    let m0 = h1 + 1;
    let m1 = m0 + 3;
    assert forall|k: int| w0 <= k < w1 implies !is_delimiter(#[trigger] file[k]) by {}
    assert forall|k: int| h0 <= k < h1 implies !is_delimiter(#[trigger] file[k]) by {}
    assert(skip_delimiters(file, 3) == 3);
    lemma_token_ends_at(file, w0, w1);
    assert(skip_delimiters(file, h0) == h0);
    lemma_token_ends_at(file, h0, h1);
    assert(skip_delimiters(file, m0) == m0);
    lemma_token_ends_at(file, m0, m1);
    assert(file.subrange(w0, w1) =~= dw);
    assert(file.subrange(h0, h1) =~= dh);
    assert(file.subrange(m1 + 1, file.len() as int) =~= v.data);
}

/// An image in the text-header container.
#[derive(Clone, Debug, PartialEq, Eq)]
pub struct PPM {
    pub image: Image,
}

impl View for PPM {
    type V = ImageView;

    open spec fn view(&self) -> ImageView {
        self.image@
    }
}

fn scan_delimiters(bytes: &[u8], from: usize) -> (to: usize)
    requires
        from <= bytes@.len(),
    ensures
        to == skip_delimiters(bytes@, from as int),
        from <= to <= bytes@.len(),
{
    let mut i = from;
    while i < bytes.len() && (bytes[i] == 0x20 || bytes[i] == 0x0A)
        invariant
            from <= i <= bytes@.len(),
            skip_delimiters(bytes@, from as int) == skip_delimiters(bytes@, i as int),
        decreases bytes@.len() - i,
    {
        i += 1;
    }
    i
}

fn scan_token(bytes: &[u8], from: usize) -> (to: usize)
    requires
        from <= bytes@.len(),
    ensures
        to == token_end(bytes@, from as int),
        from <= to <= bytes@.len(),
{
    let mut i = from;
    while i < bytes.len() && !(bytes[i] == 0x20 || bytes[i] == 0x0A)
        invariant
            from <= i <= bytes@.len(),
            token_end(bytes@, from as int) == token_end(bytes@, i as int),
        decreases bytes@.len() - i,
    {
        i += 1;
    }
    i
}

fn scan_line(bytes: &[u8], from: usize) -> (to: usize)
    requires
        from <= bytes@.len(),
    ensures
        to == line_end(bytes@, from as int),
        from <= to <= bytes@.len(),
{
    let mut i = from;
    while i < bytes.len() && bytes[i] != 0x0A
        invariant
            from <= i <= bytes@.len(),
            line_end(bytes@, from as int) == line_end(bytes@, i as int),
        decreases bytes@.len() - i,
    {
        i += 1;
    }
    if i < bytes.len() {
        i + 1
    } else {
        i
    }
}

/// The number that the digits before a position write is no larger than the
/// number that all the digits write.
proof fn lemma_decimal_value_grows(digits: Seq<u8>, k: int)
    requires
        0 <= k <= digits.len(),
    ensures
        decimal_value(digits.subrange(0, k)) <= decimal_value(digits),
    decreases digits.len() - k,
{
    if k == digits.len() {
        assert(digits.subrange(0, k) =~= digits);
    } else {
        lemma_decimal_value_grows(digits.drop_last(), k);
        assert(digits.drop_last().subrange(0, k) =~= digits.subrange(0, k));
    }
}

fn read_dimension(bytes: &[u8], from: usize, to: usize) -> (value: Option<usize>)
    requires
        from <= to <= bytes@.len(),
    ensures
        match value {
            Some(n) => parse_dimension(bytes@.subrange(from as int, to as int)) == Some(n as nat),
            None => parse_dimension(bytes@.subrange(from as int, to as int)) is None,
        },
{
    if from == to {
        return None;
    }
    let ghost token = bytes@.subrange(from as int, to as int);
    let mut value: usize = 0;
    let mut i = from;
    while i < to
        invariant
            from <= i <= to <= bytes@.len(),
            token == bytes@.subrange(from as int, to as int),
            value == decimal_value(token.subrange(0, i - from)),
            forall|k: int| 0 <= k < i - from ==> is_digit(#[trigger] token[k]),
        decreases to - i,
    {
        let b = bytes[i];
        if b < 0x30 || b > 0x39 {
            assert(!is_digit(token[i - from]));
            return None;
        }
        let ghost longer = token.subrange(0, i - from + 1);
        assert(longer.drop_last() =~= token.subrange(0, i - from));
        proof {
            lemma_decimal_value_grows(token, i - from + 1);
        }
        let tens = match value.checked_mul(10) {
            Some(v) => v,
            None => { return None; },
        };
        value = match tens.checked_add((b - 0x30) as usize) {
            Some(v) => v,
            None => { return None; },
        };
        i += 1;
    }
    assert(token.subrange(0, to - from) =~= token);
    Some(value)
}

fn write_decimal(out: &mut Vec<u8>, n: usize)
    ensures
        final(out)@ == old(out)@ + decimal_digits(n as nat),
    decreases n,
{
    if n < 10 {
        out.push(0x30 + n as u8);
    } else {
        write_decimal(out, n / 10);
        out.push(0x30 + (n % 10) as u8);
    }
}

impl PPM {
    /// A blank image of the given dimensions. The height comes first.
    pub fn new(height: usize, width: usize) -> (ppm: PPM)
        requires
            3 * width * height <= usize::MAX,
        ensures
            ppm@ == ImageView::blank(width as nat, height as nat, ColorType::RGB8),
            ppm@.wf(),
    {
        PPM { image: Image::new(width, height, ColorType::RGB8) }
    }

    /// Reads the image that a file holds from the file's bytes.
    pub fn read_image(bytes: &[u8]) -> (read: Result<PPM, CodecError>)
        ensures
            match read {
                Ok(ppm) => ppm_decoding(bytes@) == Ok::<ImageView, CodecError>(ppm@) && ppm@.wf(),
                Err(e) => ppm_decoding(bytes@) == Err::<ImageView, CodecError>(e),
            },
    {
        let len = bytes.len();
        if len < 2 || bytes[0] != 0x50 || bytes[1] != 0x36 {
            return Err(CodecError::InvalidHeader);
        }
        let first = scan_delimiters(bytes, 2);
        let width_from = if first < len && bytes[first] == 0x23 {
            let after_comment = scan_line(bytes, first);
            scan_delimiters(bytes, after_comment)
        } else {
            first
        };
        let width_to = scan_token(bytes, width_from);
        let height_from = scan_delimiters(bytes, width_to);
        let height_to = scan_token(bytes, height_from);
        let max_from = scan_delimiters(bytes, height_to);
        let max_to = scan_token(bytes, max_from);
        let width = match read_dimension(bytes, width_from, width_to) {
            Some(n) => n,
            None => { return Err(CodecError::InvalidHeader); },
        };
        let height = match read_dimension(bytes, height_from, height_to) {
            Some(n) => n,
            None => { return Err(CodecError::InvalidHeader); },
        };
        if max_to >= len {
            return Err(CodecError::InvalidHeader);
        }
        let body_len = len - (max_to + 1);
        let pixels = match width.checked_mul(height) {
            Some(n) => n,
            None => {
                assert(3 * width * height > body_len) by (nonlinear_arith)
                    requires
                        width * height > usize::MAX,
                        body_len <= usize::MAX,
                ;
                return Err(CodecError::TruncatedBody);
            },
        };
        assert(3 * width * height == 3 * pixels) by (nonlinear_arith)
            requires
                pixels == width * height,
        ;
        if body_len / 3 < pixels {
            return Err(CodecError::TruncatedBody);
        }
        if body_len / 3 > pixels || body_len % 3 != 0 {
            return Err(CodecError::UnsupportedFeature);
        }
        let data = slice_to_vec(slice_subrange(bytes, max_to + 1, len));
        Ok(PPM { image: Image { width, height, color_type: ColorType::RGB8, data } })
    }

    /// The number of bytes that the dimensions call for.
    pub fn buffer_size(&self) -> (size: usize)
        requires
            3 * self@.width * self@.height <= usize::MAX,
        ensures
            size == 3 * self@.width * self@.height,
    {
        self.image.buffer_size()
    }

    /// Where the pixel at column `x`, row `y` begins in the data, or `None`
    /// when the image has no such pixel.
    pub fn get_offset(&self, x: usize, y: usize) -> (at: Option<usize>)
        ensures
            match at {
                Some(o) => self@.holds(x as int, y as int) && o == self@.offset(x as int, y as int),
                None => !self@.holds(x as int, y as int),
            },
    {
        self.image.get_offset(x, y)
    }

    /// The pixel at column `x`, row `y`, or `None` when the coordinate is out
    /// of bounds.
    pub fn get_pixel(&self, x: usize, y: usize) -> (pixel: Option<RGB_Pixel>)
        ensures
            pixel == (if self@.holds(x as int, y as int) {
                Some(self@.pixel(x as int, y as int))
            } else {
                None
            }),
    {
        self.image.get_pixel(x, y)
    }

    /// Writes `color` to the pixel at column `x`, row `y` and returns `true`,
    /// or returns `false` and changes nothing when the coordinate is out of
    /// bounds.
    pub fn set_pixel(&mut self, x: usize, y: usize, color: RGB_Pixel) -> (done: bool)
        ensures
            done == old(self)@.holds(x as int, y as int),
            final(self)@ == (if done {
                old(self)@.with_pixel(x as int, y as int, color)
            } else {
                old(self)@
            }),
    {
        self.image.set_pixel(x, y, color)
    }

    /// The bytes of the file that holds this image.
    pub fn write_file(&self) -> (bytes: Vec<u8>)
        ensures
            bytes@ == ppm_encoding(self@),
    {
        let mut out: Vec<u8> = Vec::new();
        out.push(0x50);
        out.push(0x36);
        out.push(0x20);
        write_decimal(&mut out, self.image.width);
        out.push(0x20);
        write_decimal(&mut out, self.image.height);
        out.push(0x20);
        out.push(0x32);
        out.push(0x35);
        out.push(0x35);
        out.push(0x0A);
        out.extend_from_slice(self.image.data.as_slice());
        out
    }
}

impl PointProcessor for PPM {
    fn negative(&mut self) {
        self.image.negative();
    }

    fn brighten(&mut self, bias: isize) {
        self.image.brighten(bias);
    }

    fn contrast(&mut self, gain: Gain) {
        self.image.contrast(gain);
    }

    fn saturate(&mut self, gain: Gain) {
        self.image.saturate(gain);
    }

    fn grayscale(&mut self) {
        self.image.grayscale();
    }
}

impl Convolution for PPM {
    fn edge(&mut self) {
        self.image.edge();
    }

    fn blur(&mut self) {
        self.image.blur();
    }

    fn emboss(&mut self) {
        self.image.emboss();
    }
}

} // verus!
