use pixmap::bmp::{FileHeader, InfoHeader};
use pixmap::{CodecError, ColorType, Image, RGB_Pixel, BMP};

fn bmp(width: usize, height: usize, data: Vec<u8>) -> BMP {
    BMP { image: Image { width, height, color_type: ColorType::BRG8, data } }
}

/// The two headers of a 2 x 1 image.
fn header_2x1() -> Vec<u8> {
    vec![
        0x42, 0x4D, // signature
        0, 0, 0, 0, // file size
        0, 0, 0, 0, // reserved
        54, 0, 0, 0, // offset of the body
        40, 0, 0, 0, // info header size
        2, 0, 0, 0, // width
        1, 0, 0, 0, // height
        1, 0, // planes
        24, 0, // bits per pixel
        0, 0, 0, 0, // compression
        0, 0, 0, 0, // size of the bitmap
        0x13, 0x0B, 0, 0, // horizontal resolution
        0x13, 0x0B, 0, 0, // vertical resolution
        0, 0, 0, 0, // palette colours
        0, 0, 0, 0, // important colours
    ]
}

fn file_2x1(body: &[u8]) -> Vec<u8> {
    let mut bytes = header_2x1();
    bytes.extend_from_slice(body);
    bytes
}

fn with_byte(mut bytes: Vec<u8>, at: usize, value: u8) -> Vec<u8> {
    bytes[at] = value;
    bytes
}

#[test]
fn bmp_writes_both_headers_then_the_data() {
    let image = bmp(2, 1, vec![1, 2, 3, 4, 5, 6]);
    let bytes = image.write_file().unwrap();
    assert_eq!(bytes.len(), 60);
    assert_eq!(bytes, file_2x1(&[1, 2, 3, 4, 5, 6]));
}

#[test]
fn bmp_writes_dimensions_little_endian() {
    let image = bmp(0x01020304, 0, vec![]);
    let bytes = image.write_file().unwrap();
    assert_eq!(bytes.len(), 54);
    assert_eq!(&bytes[18..22], &[4, 3, 2, 1]);
    assert_eq!(&bytes[22..26], &[0, 0, 0, 0]);
    let image = bmp(0, 0xFFFF_FFFF, vec![]);
    let bytes = image.write_file().unwrap();
    assert_eq!(&bytes[18..22], &[0, 0, 0, 0]);
    assert_eq!(&bytes[22..26], &[255, 255, 255, 255]);
    let image = bmp(300, 2, vec![9; 1800]);
    let bytes = image.write_file().unwrap();
    assert_eq!(&bytes[18..26], &[0x2C, 1, 0, 0, 2, 0, 0, 0]);
    assert_eq!(&bytes[54..], &[9u8; 1800][..]);
}

#[test]
fn bmp_refuses_a_dimension_beyond_32_bits() {
    let image = bmp(0x1_0000_0000, 0, vec![]);
    assert_eq!(image.write_file(), Err(CodecError::UnsupportedFeature));
    let image = bmp(0, usize::MAX, vec![]);
    assert_eq!(image.write_file(), Err(CodecError::UnsupportedFeature));
}

#[test]
fn bmp_reads_every_field_of_the_headers() {
    let mut bytes: Vec<u8> = (0..54).collect();
    bytes[0] = 0x42;
    bytes[1] = 0x4D;
    let (file, info) = BMP::read_headers(&bytes).unwrap();
    assert_eq!(
        file,
        FileHeader {
            file_size: 0x05040302,
            reserved1: 0x0706,
            reserved2: 0x0908,
            data_offset: 0x0D0C0B0A,
        }
    );
    assert_eq!(
        info,
        InfoHeader {
            header_size: 0x11100F0E,
            width: 0x15141312,
            height: 0x19181716,
            planes: 0x1B1A,
            bits_per_pixel: 0x1D1C,
            compression: 0x21201F1E,
            bitmap_size: 0x25242322,
            horizontal_resolution: 0x29282726,
            vertical_resolution: 0x2D2C2B2A,
            colors_used: 0x31302F2E,
            colors_important: 0x35343332,
        }
    );
    let mut out = vec![0xEE];
    file.write(&mut out);
    info.write(&mut out);
    assert_eq!(out[0], 0xEE);
    assert_eq!(&out[1..], &bytes[..]);
}

#[test]
fn bmp_reads_the_headers_it_writes() {
    let (file, info) = BMP::read_headers(&header_2x1()).unwrap();
    assert_eq!(file, FileHeader { file_size: 0, reserved1: 0, reserved2: 0, data_offset: 54 });
    assert_eq!(info.header_size, 40);
    assert_eq!((info.width, info.height), (2, 1));
    assert_eq!((info.planes, info.bits_per_pixel, info.compression), (1, 24, 0));
    assert_eq!((info.horizontal_resolution, info.vertical_resolution), (2835, 2835));
    assert_eq!((info.bitmap_size, info.colors_used, info.colors_important), (0, 0, 0));
    assert_eq!(FileHeader::read(&header_2x1()), file);
    assert_eq!(InfoHeader::read(&header_2x1(), 14), info);
}

#[test]
fn bmp_headers_need_the_signature_and_their_length() {
    let good = header_2x1();
    assert!(BMP::read_headers(&good).is_ok());
    assert_eq!(BMP::read_headers(&good[..53]), Err(CodecError::InvalidHeader));
    assert_eq!(BMP::read_headers(&with_byte(good.clone(), 0, 0)), Err(CodecError::InvalidHeader));
    // what the fields say is not this function's concern
    assert!(BMP::read_headers(&with_byte(good.clone(), 28, 8)).is_ok());
}

#[test]
fn bmp_reads_what_the_headers_describe() {
    let read = BMP::read_image(&file_2x1(&[1, 2, 3, 4, 5, 6]));
    assert_eq!(read, Ok(bmp(2, 1, vec![1, 2, 3, 4, 5, 6])));
}

#[test]
fn bmp_reads_dimensions_little_endian() {
    let mut bytes = header_2x1();
    bytes[18] = 0x2C;
    bytes[19] = 1;
    bytes[22] = 2;
    bytes.extend_from_slice(&[7u8; 1800]);
    assert_eq!(BMP::read_image(&bytes), Ok(bmp(300, 2, vec![7; 1800])));
    let mut bytes = header_2x1();
    bytes[18] = 0;
    bytes[21] = 0x80;
    bytes[22] = 0;
    assert_eq!(BMP::read_image(&bytes), Ok(bmp(0x8000_0000, 0, vec![])));
}

#[test]
fn bmp_keeps_the_body_as_the_file_has_it() {
    let read = BMP::read_image(&file_2x1(&[10, 20, 30, 40, 50, 60])).unwrap();
    assert_eq!(read.get_pixel(0, 0), Some(RGB_Pixel { r: 10, g: 20, b: 30 }));
    assert_eq!(read.get_pixel(1, 0), Some(RGB_Pixel { r: 40, g: 50, b: 60 }));
    assert_eq!(read.image.color_type, ColorType::BRG8);
}

#[test]
fn bmp_passes_over_the_fields_it_does_not_check() {
    let mut bytes = file_2x1(&[1, 2, 3, 4, 5, 6]);
    for at in (2..18).chain(34..46).chain(50..54) {
        bytes[at] = 0xAB;
    }
    assert_eq!(BMP::read_image(&bytes), Ok(bmp(2, 1, vec![1, 2, 3, 4, 5, 6])));
}

#[test]
fn bmp_wrong_signature_is_an_invalid_header() {
    let good = file_2x1(&[0; 6]);
    assert_eq!(BMP::read_image(&with_byte(good.clone(), 0, 0x50)), Err(CodecError::InvalidHeader));
    assert_eq!(BMP::read_image(&with_byte(good.clone(), 1, 0x36)), Err(CodecError::InvalidHeader));
    assert_eq!(BMP::read_image(&with_byte(good.clone(), 0, 0x4D)), Err(CodecError::InvalidHeader));
    assert_eq!(BMP::read_image(&[0x50; 60]), Err(CodecError::InvalidHeader));
    assert_eq!(BMP::read_image(&[]), Err(CodecError::InvalidHeader));
    assert_eq!(BMP::read_image(&[0x42]), Err(CodecError::InvalidHeader));
}

#[test]
fn bmp_header_that_ends_early_is_invalid() {
    let good = header_2x1();
    assert_eq!(BMP::read_image(&good[..2]), Err(CodecError::InvalidHeader));
    assert_eq!(BMP::read_image(&good[..14]), Err(CodecError::InvalidHeader));
    assert_eq!(BMP::read_image(&good[..53]), Err(CodecError::InvalidHeader));
    // a depth that is not handled does not matter while the header is incomplete
    assert_eq!(
        BMP::read_image(&with_byte(good.clone(), 28, 8)[..40]),
        Err(CodecError::InvalidHeader)
    );
}

#[test]
fn bmp_plane_count_is_passed_over() {
    let good = file_2x1(&[1, 2, 3, 4, 5, 6]);
    let image = bmp(2, 1, vec![1, 2, 3, 4, 5, 6]);
    assert_eq!(BMP::read_image(&with_byte(good.clone(), 26, 0)), Ok(image.clone()));
    assert_eq!(BMP::read_image(&with_byte(good.clone(), 26, 2)), Ok(image.clone()));
    assert_eq!(BMP::read_image(&with_byte(good.clone(), 27, 1)), Ok(image));
    // an image of no pixels with a plane count of zero
    let mut empty = header_2x1();
    empty[18] = 0;
    empty[22] = 0;
    empty[26] = 0;
    assert_eq!(BMP::read_image(&empty), Ok(bmp(0, 0, vec![])));
}

#[test]
fn bmp_unsupported_fields_are_reported_whatever_the_plane_count() {
    let good = file_2x1(&[0; 6]);
    for planes in [0u8, 1, 2, 255] {
        let file = with_byte(good.clone(), 26, planes);
        assert_eq!(
            BMP::read_image(&with_byte(file.clone(), 28, 8)),
            Err(CodecError::UnsupportedFeature)
        );
        assert_eq!(
            BMP::read_image(&with_byte(file.clone(), 30, 1)),
            Err(CodecError::UnsupportedFeature)
        );
        assert_eq!(
            BMP::read_image(&with_byte(file.clone(), 46, 16)),
            Err(CodecError::UnsupportedFeature)
        );
    }
}

#[test]
fn bmp_other_depths_are_unsupported() {
    let good = file_2x1(&[0; 6]);
    for depth in [1u8, 4, 8, 16, 32] {
        assert_eq!(
            BMP::read_image(&with_byte(good.clone(), 28, depth)),
            Err(CodecError::UnsupportedFeature)
        );
    }
    assert_eq!(
        BMP::read_image(&with_byte(good.clone(), 29, 1)),
        Err(CodecError::UnsupportedFeature)
    );
}

#[test]
fn bmp_compression_is_unsupported() {
    let good = file_2x1(&[0; 6]);
    for at in 30..34 {
        assert_eq!(
            BMP::read_image(&with_byte(good.clone(), at, 1)),
            Err(CodecError::UnsupportedFeature)
        );
    }
}

#[test]
fn bmp_palette_is_unsupported() {
    let good = file_2x1(&[0; 6]);
    for at in 46..50 {
        assert_eq!(
            BMP::read_image(&with_byte(good.clone(), at, 2)),
            Err(CodecError::UnsupportedFeature)
        );
    }
}

#[test]
fn bmp_short_body_is_truncated() {
    assert_eq!(BMP::read_image(&file_2x1(&[0; 5])), Err(CodecError::TruncatedBody));
    assert_eq!(BMP::read_image(&file_2x1(&[])), Err(CodecError::TruncatedBody));
    let mut huge = header_2x1();
    for at in 18..26 {
        huge[at] = 0xFF;
    }
    huge.extend_from_slice(&[0; 12]);
    assert_eq!(BMP::read_image(&huge), Err(CodecError::TruncatedBody));
}

#[test]
fn bmp_long_body_is_unsupported() {
    assert_eq!(BMP::read_image(&file_2x1(&[0; 7])), Err(CodecError::UnsupportedFeature));
    // rows of a 2 x 1 image padded to four bytes
    assert_eq!(BMP::read_image(&file_2x1(&[0; 8])), Err(CodecError::UnsupportedFeature));
}

#[test]
fn bmp_errors_come_in_order() {
    let short = file_2x1(&[0; 5]);
    // the header's length before its fields
    assert_eq!(
        BMP::read_image(&with_byte(short.clone(), 28, 8)[..53]),
        Err(CodecError::InvalidHeader)
    );
    // the fields before the body
    assert_eq!(
        BMP::read_image(&with_byte(short.clone(), 28, 8)),
        Err(CodecError::UnsupportedFeature)
    );
    assert_eq!(
        BMP::read_image(&with_byte(with_byte(short.clone(), 26, 3), 30, 2)),
        Err(CodecError::UnsupportedFeature)
    );
    assert_eq!(BMP::read_image(&short), Err(CodecError::TruncatedBody));
    assert_eq!(BMP::read_image(&with_byte(short.clone(), 26, 3)), Err(CodecError::TruncatedBody));
}

#[test]
fn bmp_round_trip_is_bytewise() {
    let mut image = BMP::new(4, 3);
    for y in 0..3 {
        for x in 0..4 {
            let v = (y * 4 + x) as u8;
            assert!(image.set_pixel(x, y, RGB_Pixel { r: v, g: 255 - v, b: 0x42 }));
        }
    }
    let bytes = image.write_file().unwrap();
    assert_eq!(BMP::read_image(&bytes), Ok(image.clone()));
    let again = BMP::read_image(&bytes).unwrap().write_file().unwrap();
    assert_eq!(again, bytes);
}

#[test]
fn bmp_round_trip_of_many_sizes() {
    for (w, h) in [(0, 0), (1, 1), (3, 1), (4, 4), (5, 7), (255, 1), (256, 2), (1, 70000)] {
        let data: Vec<u8> = (0..3 * w * h).map(|i| (i * 11 % 256) as u8).collect();
        let image = bmp(w, h, data);
        assert_eq!(BMP::read_image(&image.write_file().unwrap()), Ok(image));
    }
}
