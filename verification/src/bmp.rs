//! The bitmap container: a 14-byte file header and a 40-byte info header of
//! little-endian fields, then the raw body.
//!
//! The body is taken and written exactly as the file has it. Its rows run
//! from the bottom of the picture to the top and each pixel's bytes stand
//! blue first, so row 0 of the buffer is the lowest line of the picture and
//! the fields `r`, `g`, `b` of a pixel name the first, second and third
//! stored byte. Rows are not padded: a file whose body is longer than three
//! bytes per pixel is not read.

use vstd::prelude::*;
use vstd::slice::{slice_subrange, slice_to_vec};
use crate::convolution::Convolution;
use crate::error::CodecError;
use crate::image::{Image, ImageView};
use crate::pixel::{ColorType, RGB_Pixel};
use crate::point::{Gain, PointProcessor};

verus! {

/// The length of the file header, signature included.
pub const FILE_HEADER_LEN: usize = 14;

/// The length of the info header.
pub const INFO_HEADER_LEN: usize = 40;

/// The length of the two headers together, which is also where the body
/// begins.
pub const HEADER_LEN: usize = 54;

/// The resolution written to both resolution fields, in pixels per metre.
pub const RESOLUTION: u32 = 2835;

/// The two bytes of the little-endian field of 16 bits that holds `v`.
pub open spec fn le16(v: u16) -> Seq<u8> {
    seq![(v % 256) as u8, (v / 256) as u8]
}

/// The four bytes of the little-endian field of 32 bits that holds `v`.
pub open spec fn le32(v: u32) -> Seq<u8> {
    seq![(v % 256) as u8, (v / 256 % 256) as u8, (v / 65536 % 256) as u8, (v / 16777216) as u8]
}

/// The value of the 16-bit little-endian field that begins at `at`.
pub open spec fn le16_at(s: Seq<u8>, at: int) -> u16 {
    (s[at] as int + 256 * (s[at + 1] as int)) as u16
}

/// The value of the 32-bit little-endian field that begins at `at`.
pub open spec fn le32_at(s: Seq<u8>, at: int) -> u32 {
    (s[at] as int + 256 * (s[at + 1] as int) + 65536 * (s[at + 2] as int) + 16777216 * (s[at
        + 3] as int)) as u32
}

/// The fields of the file header that follow the signature.
#[derive(Clone, Copy, Debug, PartialEq, Eq, Structural)]
pub struct FileHeader {
    pub file_size: u32,
    pub reserved1: u16,
    pub reserved2: u16,
    pub data_offset: u32,
}

/// The fields of the info header.
#[derive(Clone, Copy, Debug, PartialEq, Eq, Structural)]
pub struct InfoHeader {
    pub header_size: u32,
    pub width: u32,
    pub height: u32,
    pub planes: u16,
    pub bits_per_pixel: u16,
    pub compression: u32,
    pub bitmap_size: u32,
    pub horizontal_resolution: u32,
    pub vertical_resolution: u32,
    pub colors_used: u32,
    pub colors_important: u32,
}

/// The file begins with the signature, the two bytes `0x42 0x4D`.
pub open spec fn has_signature(s: Seq<u8>) -> bool {
    s.len() >= 2 && s[0] == 0x42 && s[1] == 0x4D
}

impl FileHeader {
    /// The file header as it stands in a file: the signature, then the
    /// fields in order.
    pub open spec fn encoding(self) -> Seq<u8> {
        seq![0x42u8, 0x4Du8] + le32(self.file_size) + le16(self.reserved1) + le16(self.reserved2)
            + le32(self.data_offset)
    }

    /// The fields of the file header at the start of `s`.
    pub open spec fn decoding(s: Seq<u8>) -> FileHeader {
        FileHeader {
            file_size: le32_at(s, 2),
            reserved1: le16_at(s, 6),
            reserved2: le16_at(s, 8),
            data_offset: le32_at(s, 10),
        }
    }

    /// The file header that is written, whatever the image: the body begins
    /// where the headers end; the size and the reserved fields are zero.
    pub open spec fn written() -> FileHeader {
        FileHeader { file_size: 0, reserved1: 0, reserved2: 0, data_offset: 54 }
    }

    /// Reads the fields of the file header at the start of `bytes`.
    pub fn read(bytes: &[u8]) -> (header: FileHeader)
        requires
            bytes@.len() >= FILE_HEADER_LEN,
        ensures
            header == FileHeader::decoding(bytes@),
    {
        FileHeader {
            file_size: read_le32(bytes, 2),
            reserved1: read_le16(bytes, 6),
            reserved2: read_le16(bytes, 8),
            data_offset: read_le32(bytes, 10),
        }
    }

    /// Appends the file header to `out`.
    pub fn write(&self, out: &mut Vec<u8>)
        ensures
            final(out)@ == old(out)@ + self.encoding(),
    {
        out.push(0x42);
        out.push(0x4D);
        write_le32(out, self.file_size);
        write_le16(out, self.reserved1);
        write_le16(out, self.reserved2);
        write_le32(out, self.data_offset);
    }
}

impl InfoHeader {
    /// The info header as it stands in a file: the fields in order.
    pub open spec fn encoding(self) -> Seq<u8> {
        le32(self.header_size) + le32(self.width) + le32(self.height) + le16(self.planes) + le16(
            self.bits_per_pixel,
        ) + le32(self.compression) + le32(self.bitmap_size) + le32(self.horizontal_resolution)
            + le32(self.vertical_resolution) + le32(self.colors_used) + le32(self.colors_important)
    }

    /// The fields of the info header that begins at `at`.
    pub open spec fn decoding(s: Seq<u8>, at: int) -> InfoHeader {
        InfoHeader {
            header_size: le32_at(s, at),
            width: le32_at(s, at + 4),
            height: le32_at(s, at + 8),
            planes: le16_at(s, at + 12),
            bits_per_pixel: le16_at(s, at + 14),
            compression: le32_at(s, at + 16),
            bitmap_size: le32_at(s, at + 20),
            horizontal_resolution: le32_at(s, at + 24),
            vertical_resolution: le32_at(s, at + 28),
            colors_used: le32_at(s, at + 32),
            colors_important: le32_at(s, at + 36),
        }
    }

    /// The info header that is written for an image of the given
    /// dimensions: one plane, 24 bits per pixel, no compression, no palette.
    pub open spec fn written(width: u32, height: u32) -> InfoHeader {
        InfoHeader {
            header_size: 40,
            width,
            height,
            planes: 1,
            bits_per_pixel: 24,
            compression: 0,
            bitmap_size: 0,
            horizontal_resolution: 2835,
            vertical_resolution: 2835,
            colors_used: 0,
            colors_important: 0,
        }
    }

    /// Reads the fields of the info header that begins at `at`.
    pub fn read(bytes: &[u8], at: usize) -> (header: InfoHeader)
        requires
            at + INFO_HEADER_LEN <= bytes@.len(),
        ensures
            header == InfoHeader::decoding(bytes@, at as int),
    {
        assert(bytes@.len() == bytes.len());
        InfoHeader {
            header_size: read_le32(bytes, at),
            width: read_le32(bytes, at + 4),
            height: read_le32(bytes, at + 8),
            planes: read_le16(bytes, at + 12),
            bits_per_pixel: read_le16(bytes, at + 14),
            compression: read_le32(bytes, at + 16),
            bitmap_size: read_le32(bytes, at + 20),
            horizontal_resolution: read_le32(bytes, at + 24),
            vertical_resolution: read_le32(bytes, at + 28),
            colors_used: read_le32(bytes, at + 32),
            colors_important: read_le32(bytes, at + 36),
        }
    }

    /// Appends the info header to `out`.
    pub fn write(&self, out: &mut Vec<u8>)
        ensures
            final(out)@ == old(out)@ + self.encoding(),
    {
        write_le32(out, self.header_size);
        write_le32(out, self.width);
        write_le32(out, self.height);
        write_le16(out, self.planes);
        write_le16(out, self.bits_per_pixel);
        write_le32(out, self.compression);
        write_le32(out, self.bitmap_size);
        write_le32(out, self.horizontal_resolution);
        write_le32(out, self.vertical_resolution);
        write_le32(out, self.colors_used);
        write_le32(out, self.colors_important);
    }
}

/// The file that holds the image: the two headers, then the data as it
/// stands.
pub open spec fn bmp_encoding(v: ImageView) -> Seq<u8> {
    FileHeader::written().encoding() + InfoHeader::written(
        v.width as u32,
        v.height as u32,
    ).encoding() + v.data
}

/// What reading a file gives: the image it holds, or why it holds none.
/// The tests are made in this order:
///
/// - `InvalidHeader`: the file does not begin with the signature, or it
///   ends before the two headers do.
/// - `UnsupportedFeature`: the depth is not 24 bits, the compression is not
///   0, or the palette is not empty.
/// - `TruncatedBody`: fewer bytes follow the headers than three per pixel.
/// - `UnsupportedFeature`: more bytes follow the headers than three per
///   pixel, as in a file with padded rows.
///
/// The other fields, the plane count among them, are read and passed over,
/// whatever they say, and the body is taken to begin where the headers end.
pub open spec fn bmp_decoding(s: Seq<u8>) -> Result<ImageView, CodecError> {
    let info = InfoHeader::decoding(s, 14);
    if !has_signature(s) || s.len() < 54 {
        Err(CodecError::InvalidHeader)
    } else if info.bits_per_pixel != 24 || info.compression != 0 || info.colors_used != 0 {
        Err(CodecError::UnsupportedFeature)
    } else {
        let body = s.subrange(54, s.len() as int);
        let needed = 3 * info.width * info.height;
        if body.len() < needed {
            Err(CodecError::TruncatedBody)
        } else if body.len() > needed {
            Err(CodecError::UnsupportedFeature)
        } else {
            Ok(
                ImageView {
                    width: info.width as nat,
                    height: info.height as nat,
                    color_type: ColorType::BRG8,
                    data: body,
                },
            )
        }
    }
}

/// A file that does not begin with the signature is refused for its header,
/// whatever else it holds.
pub proof fn lemma_bmp_wrong_signature(bytes: Seq<u8>)
    requires
        !has_signature(bytes),
    ensures
        bmp_decoding(bytes) == Err::<ImageView, CodecError>(CodecError::InvalidHeader),
{
}

/// A 16-bit field reads back as the value that was written to it.
proof fn lemma_le16_reads_back(s: Seq<u8>, at: int, v: u16)
    requires
        0 <= at,
        at + 2 <= s.len(),
        s.subrange(at, at + 2) == le16(v),
    ensures
        le16_at(s, at) == v,
{
    assert(s.subrange(at, at + 2)[0] == s[at]);
    assert(s.subrange(at, at + 2)[1] == s[at + 1]);
}

/// A 32-bit field reads back as the value that was written to it.
proof fn lemma_le32_reads_back(s: Seq<u8>, at: int, v: u32)
    requires
        0 <= at,
        at + 4 <= s.len(),
        s.subrange(at, at + 4) == le32(v),
    ensures
        le32_at(s, at) == v,
{
    assert(s.subrange(at, at + 4)[0] == s[at]);
    assert(s.subrange(at, at + 4)[1] == s[at + 1]);
    assert(s.subrange(at, at + 4)[2] == s[at + 2]);
    assert(s.subrange(at, at + 4)[3] == s[at + 3]);
}

/// An info header reads back, field for field.
pub proof fn lemma_info_header_reads_back(header: InfoHeader)
    ensures
        header.encoding().len() == 40,
        InfoHeader::decoding(header.encoding(), 0) == header,
{
    let e = header.encoding();
    assert(e.subrange(0, 4) =~= le32(header.header_size));
    assert(e.subrange(4, 8) =~= le32(header.width));
    assert(e.subrange(8, 12) =~= le32(header.height));
    assert(e.subrange(12, 14) =~= le16(header.planes));
    assert(e.subrange(14, 16) =~= le16(header.bits_per_pixel));
    assert(e.subrange(16, 20) =~= le32(header.compression));
    assert(e.subrange(20, 24) =~= le32(header.bitmap_size));
    assert(e.subrange(24, 28) =~= le32(header.horizontal_resolution));
    assert(e.subrange(28, 32) =~= le32(header.vertical_resolution));
    assert(e.subrange(32, 36) =~= le32(header.colors_used));
    assert(e.subrange(36, 40) =~= le32(header.colors_important));
    lemma_le32_reads_back(e, 0, header.header_size);
    lemma_le32_reads_back(e, 4, header.width);
    lemma_le32_reads_back(e, 8, header.height);
    lemma_le16_reads_back(e, 12, header.planes);
    lemma_le16_reads_back(e, 14, header.bits_per_pixel);
    lemma_le32_reads_back(e, 16, header.compression);
    lemma_le32_reads_back(e, 20, header.bitmap_size);
    lemma_le32_reads_back(e, 24, header.horizontal_resolution);
    lemma_le32_reads_back(e, 28, header.vertical_resolution);
    lemma_le32_reads_back(e, 32, header.colors_used);
    lemma_le32_reads_back(e, 36, header.colors_important);
}

/// An image in the bitmap container.
#[derive(Clone, Debug, PartialEq, Eq)]
pub struct BMP {
    pub image: Image,
}

impl View for BMP {
    type V = ImageView;

    open spec fn view(&self) -> ImageView {
        self.image@
    }
}

/// Reading the file written for an image gives that image back, byte for
/// byte, marked with this container's channel order, whenever the image can
/// be written: its dimensions fit the header's fields.
pub proof fn lemma_bmp_round_trip(bmp: BMP)
    requires
        bmp@.wf(),
        bmp@.width <= u32::MAX,
        bmp@.height <= u32::MAX,
    ensures
        bmp_decoding(bmp_encoding(bmp@)) == Ok::<ImageView, CodecError>(
            ImageView { color_type: ColorType::BRG8, ..bmp@ },
        ),
{
    let v = bmp@;
    let info = InfoHeader::written(v.width as u32, v.height as u32);
    let file = bmp_encoding(v);
    assert(FileHeader::written().encoding().len() == 14);
    lemma_info_header_reads_back(info);
    assert(file.subrange(54, file.len() as int) =~= v.data);
}

fn read_le16(bytes: &[u8], at: usize) -> (v: u16)
    requires
        at + 2 <= bytes@.len(),
    ensures
        v == le16_at(bytes@, at as int),
{
    bytes[at] as u16 + 256 * (bytes[at + 1] as u16)
}

fn read_le32(bytes: &[u8], at: usize) -> (v: u32)
    requires
        at + 4 <= bytes@.len(),
    ensures
        v == le32_at(bytes@, at as int),
{
    bytes[at] as u32 + 256 * (bytes[at + 1] as u32) + 65536 * (bytes[at + 2] as u32) + 16777216
        * (bytes[at + 3] as u32)
}

fn write_le16(out: &mut Vec<u8>, v: u16)
    ensures
        final(out)@ == old(out)@ + le16(v),
{
    out.push((v % 256) as u8);
    out.push((v / 256) as u8);
}

fn write_le32(out: &mut Vec<u8>, v: u32)
    ensures
        final(out)@ == old(out)@ + le32(v),
{
    out.push((v % 256) as u8);
    out.push((v / 256 % 256) as u8);
    out.push((v / 65536 % 256) as u8);
    out.push((v / 16777216) as u8);
}

impl BMP {
    /// A blank image of the given dimensions.
    pub fn new(width: usize, height: usize) -> (bmp: BMP)
        requires
            3 * width * height <= usize::MAX,
        ensures
            bmp@ == ImageView::blank(width as nat, height as nat, ColorType::BRG8),
            bmp@.wf(),
    {
        BMP { image: Image::new(width, height, ColorType::BRG8) }
    }

    /// Reads the two headers of a file, all their fields, and tests none of
    /// them: the file has only to begin with the signature and to hold both
    /// headers whole.
    pub fn read_headers(bytes: &[u8]) -> (read: Result<(FileHeader, InfoHeader), CodecError>)
        ensures
            match read {
                Ok((file, info)) => {
                    &&& has_signature(bytes@)
                    &&& bytes@.len() >= 54
                    &&& file == FileHeader::decoding(bytes@)
                    &&& info == InfoHeader::decoding(bytes@, 14)
                },
                Err(e) => {
                    &&& e == CodecError::InvalidHeader
                    &&& (!has_signature(bytes@) || bytes@.len() < 54)
                },
            },
    {
        let len = bytes.len();
        if len < 2 || bytes[0] != 0x42 || bytes[1] != 0x4D {
            return Err(CodecError::InvalidHeader);
        }
        if len < HEADER_LEN {
            return Err(CodecError::InvalidHeader);
        }
        Ok((FileHeader::read(bytes), InfoHeader::read(bytes, FILE_HEADER_LEN)))
    }

    /// Reads the image that a file holds from the file's bytes.
    pub fn read_image(bytes: &[u8]) -> (read: Result<BMP, CodecError>)
        ensures
            match read {
                Ok(bmp) => bmp_decoding(bytes@) == Ok::<ImageView, CodecError>(bmp@) && bmp@.wf(),
                Err(e) => bmp_decoding(bytes@) == Err::<ImageView, CodecError>(e),
            },
    {
        let info = match BMP::read_headers(bytes) {
            Ok((_, info)) => info,
            Err(e) => { return Err(e); },
        };
        let len = bytes.len();
        if info.bits_per_pixel != 24 || info.compression != 0 || info.colors_used != 0 {
            return Err(CodecError::UnsupportedFeature);
        }
        let width = info.width;
        let height = info.height;
        let body_len = len - HEADER_LEN;
        assert(0 <= width * height <= 0xffff_ffff * 0xffff_ffff) by (nonlinear_arith)
            requires
                0 <= width <= 0xffff_ffff,
                0 <= height <= 0xffff_ffff,
        ;
        let needed: u128 = 3 * ((width as u128) * (height as u128));
        assert(needed == 3 * width * height) by (nonlinear_arith)
            requires
                needed == 3 * (width * height),
        ;
        if (body_len as u128) < needed {
            return Err(CodecError::TruncatedBody);
        }
        if (body_len as u128) > needed {
            return Err(CodecError::UnsupportedFeature);
        }
        let data = slice_to_vec(slice_subrange(bytes, HEADER_LEN, len));
        Ok(
            BMP {
                image: Image {
                    width: width as usize,
                    height: height as usize,
                    color_type: ColorType::BRG8,
                    data,
                },
            },
        )
    }

    /// The number of bytes that the dimensions call for.
    pub fn buffer_size(&self) -> (size: usize)
        requires
            3 * self@.width * self@.height <= usize::MAX,
        ensures
            size == 3 * self@.width * self@.height,
    {
        self.image.buffer_size()
    }

    /// Where the pixel at column `x`, row `y` begins in the data, or `None`
    /// when the image has no such pixel.
    pub fn get_offset(&self, x: usize, y: usize) -> (at: Option<usize>)
        ensures
            match at {
                Some(o) => self@.holds(x as int, y as int) && o == self@.offset(x as int, y as int),
                None => !self@.holds(x as int, y as int),
            },
    {
        self.image.get_offset(x, y)
    }

    /// The pixel at column `x`, row `y`, or `None` when the coordinate is out
    /// of bounds.
    pub fn get_pixel(&self, x: usize, y: usize) -> (pixel: Option<RGB_Pixel>)
        ensures
            pixel == (if self@.holds(x as int, y as int) {
                Some(self@.pixel(x as int, y as int))
            } else {
                None
            }),
    {
        self.image.get_pixel(x, y)
    }

    /// Writes `color` to the pixel at column `x`, row `y` and returns `true`,
    /// or returns `false` and changes nothing when the coordinate is out of
    /// bounds.
    pub fn set_pixel(&mut self, x: usize, y: usize, color: RGB_Pixel) -> (done: bool)
        ensures
            done == old(self)@.holds(x as int, y as int),
            final(self)@ == (if done {
                old(self)@.with_pixel(x as int, y as int, color)
            } else {
                old(self)@
            }),
    {
        self.image.set_pixel(x, y, color)
    }

    /// The bytes of the file that holds this image. A dimension that does
    /// not fit the header's 32-bit field is refused.
    pub fn write_file(&self) -> (written: Result<Vec<u8>, CodecError>)
        ensures
            match written {
                Ok(bytes) => {
                    &&& self@.width <= u32::MAX
                    &&& self@.height <= u32::MAX
                    &&& bytes@ == bmp_encoding(self@)
                },
                Err(e) => {
                    &&& e == CodecError::UnsupportedFeature
                    &&& (self@.width > u32::MAX || self@.height > u32::MAX)
                },
            },
    {
        if self.image.width > 0xffff_ffff || self.image.height > 0xffff_ffff {
            return Err(CodecError::UnsupportedFeature);
        }
        let file_header = FileHeader {
            file_size: 0,
            reserved1: 0,
            reserved2: 0,
            data_offset: HEADER_LEN as u32,
        };
        let info_header = InfoHeader {
            header_size: INFO_HEADER_LEN as u32,
            width: self.image.width as u32,
            height: self.image.height as u32,
            planes: 1,
            bits_per_pixel: 24,
            compression: 0,
            bitmap_size: 0,
            horizontal_resolution: RESOLUTION,
            vertical_resolution: RESOLUTION,
            colors_used: 0,
            colors_important: 0,
        };
        let mut out: Vec<u8> = Vec::new();
        file_header.write(&mut out);
        info_header.write(&mut out);
        out.extend_from_slice(self.image.data.as_slice());
        Ok(out)
    }
}

impl PointProcessor for BMP {
    fn negative(&mut self) {
        self.image.negative();
    }

    fn brighten(&mut self, bias: isize) {
        self.image.brighten(bias);
    }

    fn contrast(&mut self, gain: Gain) {
        self.image.contrast(gain);
    }

    fn saturate(&mut self, gain: Gain) {
        self.image.saturate(gain);
    }

    fn grayscale(&mut self) {
        self.image.grayscale();
    }
}

impl Convolution for BMP {
    fn edge(&mut self) {
        self.image.edge();
    }

    fn blur(&mut self) {
        self.image.blur();
    }

    fn emboss(&mut self) {
        self.image.emboss();
    }
}

} // verus!
