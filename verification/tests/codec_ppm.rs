use pixmap::{CodecError, ColorType, Image, RGB_Pixel, PPM};

/// The container's signature.
const SIGNATURE: [u8; 2] = [0x50, 0x36];

/// A file: the signature, the rest of the header as text, the body.
fn file(header: &str, body: &[u8]) -> Vec<u8> {
    unsigned(&SIGNATURE, header, body)
}

/// A file that begins with `start` in place of the signature.
fn unsigned(start: &[u8], header: &str, body: &[u8]) -> Vec<u8> {
    let mut bytes = start.to_vec();
    bytes.extend_from_slice(header.as_bytes());
    bytes.extend_from_slice(body);
    bytes
}

fn decoded(header: &str, body: &[u8]) -> Result<PPM, CodecError> {
    PPM::read_image(&file(header, body))
}

fn ppm(width: usize, height: usize, data: Vec<u8>) -> PPM {
    PPM { image: Image { width, height, color_type: ColorType::RGB8, data } }
}

#[test]
fn ppm_reads_a_plain_header() {
    let read = decoded(" 2 1 255\n", &[1, 2, 3, 4, 5, 6]);
    assert_eq!(read, Ok(ppm(2, 1, vec![1, 2, 3, 4, 5, 6])));
}

#[test]
fn ppm_reads_a_header_with_a_comment() {
    let read = decoded("\n# made by hand\n2 1\n255\n", &[1, 2, 3, 4, 5, 6]);
    assert_eq!(read, Ok(ppm(2, 1, vec![1, 2, 3, 4, 5, 6])));
    let read = decoded(" #x\n1 2 255 ", &[1, 2, 3, 4, 5, 6]);
    assert_eq!(read, Ok(ppm(1, 2, vec![1, 2, 3, 4, 5, 6])));
    let read = decoded("#\n1 1 255\n", &[7, 8, 9]);
    assert_eq!(read, Ok(ppm(1, 1, vec![7, 8, 9])));
}

#[test]
fn ppm_comment_may_hold_anything_up_to_its_newline() {
    let read = decoded("\n# 9 9 255 # 7 7 \n 1 1\n255\n", &[7, 8, 9]);
    assert_eq!(read, Ok(ppm(1, 1, vec![7, 8, 9])));
}

#[test]
fn ppm_reads_runs_of_separators_between_tokens() {
    let read = decoded(" \n \n3  \n\n 1 \n 255\n", &[0; 9]);
    assert_eq!(read, Ok(ppm(3, 1, vec![0; 9])));
}

#[test]
fn ppm_reads_leading_zeros() {
    let read = decoded(" 002 0001 255\n", &[1, 2, 3, 4, 5, 6]);
    assert_eq!(read, Ok(ppm(2, 1, vec![1, 2, 3, 4, 5, 6])));
}

#[test]
fn ppm_body_begins_after_one_separator() {
    let read = decoded(" 1 1 255\n", &[0x20, 0x0A, 0x20]);
    assert_eq!(read, Ok(ppm(1, 1, vec![0x20, 0x0A, 0x20])));
    let read = decoded(" 1 1 255\n\n", &[0x20, 0x0A, 0x20]);
    assert_eq!(read, Err(CodecError::UnsupportedFeature));
}

#[test]
fn ppm_passes_over_the_third_token() {
    let read = decoded(" 1 1 65535\n", &[1, 2, 3]);
    assert_eq!(read, Ok(ppm(1, 1, vec![1, 2, 3])));
    let read = decoded(" 1 1 max\n", &[1, 2, 3]);
    assert_eq!(read, Ok(ppm(1, 1, vec![1, 2, 3])));
}

#[test]
fn ppm_reads_an_image_of_no_pixels() {
    assert_eq!(decoded(" 0 0 255\n", &[]), Ok(ppm(0, 0, vec![])));
    assert_eq!(decoded(" 0 5 255\n", &[]), Ok(ppm(0, 5, vec![])));
    assert_eq!(decoded(" 0 0 255\n", &[1]), Err(CodecError::UnsupportedFeature));
}

#[test]
fn ppm_wrong_signature_is_an_invalid_header() {
    let read = |start: &[u8]| PPM::read_image(&unsigned(start, " 2 1 255\n", &[0; 6]));
    assert_eq!(read(&SIGNATURE).map(|p| p.image.width), Ok(2));
    assert_eq!(read(&[0x50, 0x35]), Err(CodecError::InvalidHeader));
    assert_eq!(read(&[0x70, 0x36]), Err(CodecError::InvalidHeader));
    assert_eq!(read(&[0x42, 0x4D]), Err(CodecError::InvalidHeader));
    assert_eq!(read(&[0x20, 0x50, 0x36]), Err(CodecError::InvalidHeader));
    assert_eq!(read(&[0x36, 0x50]), Err(CodecError::InvalidHeader));
    assert_eq!(PPM::read_image(&[]), Err(CodecError::InvalidHeader));
    assert_eq!(PPM::read_image(&[0x50]), Err(CodecError::InvalidHeader));
}

#[test]
fn ppm_header_that_ends_early_is_invalid() {
    assert_eq!(decoded("", &[]), Err(CodecError::InvalidHeader));
    assert_eq!(decoded(" ", &[]), Err(CodecError::InvalidHeader));
    assert_eq!(decoded(" 2", &[]), Err(CodecError::InvalidHeader));
    assert_eq!(decoded(" 2 1", &[]), Err(CodecError::InvalidHeader));
    assert_eq!(decoded(" 2 1 ", &[]), Err(CodecError::InvalidHeader));
    assert_eq!(decoded(" 0 0 255", &[]), Err(CodecError::InvalidHeader));
    assert_eq!(decoded(" # no end of line", &[]), Err(CodecError::InvalidHeader));
}

#[test]
fn ppm_token_that_is_no_number_is_invalid() {
    assert_eq!(decoded(" x 1 255\n", &[0; 3]), Err(CodecError::InvalidHeader));
    assert_eq!(decoded(" 1 y 255\n", &[0; 3]), Err(CodecError::InvalidHeader));
    assert_eq!(decoded(" -1 1 255\n", &[0; 3]), Err(CodecError::InvalidHeader));
    assert_eq!(decoded(" +1 1 255\n", &[0; 3]), Err(CodecError::InvalidHeader));
    assert_eq!(decoded(" 1.0 1 255\n", &[0; 3]), Err(CodecError::InvalidHeader));
    assert_eq!(decoded(" 1\t1 255\n", &[0; 3]), Err(CodecError::InvalidHeader));
    assert_eq!(decoded(" 1 1# 255\n", &[0; 3]), Err(CodecError::InvalidHeader));
    assert_eq!(decoded(" #a\n#b\n1 1 255\n", &[0; 3]), Err(CodecError::InvalidHeader));
}

#[test]
fn ppm_number_too_large_for_a_word_is_invalid() {
    assert_eq!(
        decoded(" 99999999999999999999999999 1 255\n", &[0; 3]),
        Err(CodecError::InvalidHeader)
    );
    assert_eq!(
        decoded(" 1 18446744073709551616 255\n", &[0; 3]),
        Err(CodecError::InvalidHeader)
    );
}

#[test]
fn ppm_short_body_is_truncated() {
    assert_eq!(decoded(" 2 1 255\n", &[0; 5]), Err(CodecError::TruncatedBody));
    assert_eq!(decoded(" 2 1 255\n", &[]), Err(CodecError::TruncatedBody));
    assert_eq!(decoded(" 1 1 255\n", &[0; 2]), Err(CodecError::TruncatedBody));
    assert_eq!(
        decoded(" 4294967296 4294967296 255\n", &[0; 9]),
        Err(CodecError::TruncatedBody)
    );
    assert_eq!(
        decoded(" 18446744073709551615 1 255\n", &[0; 9]),
        Err(CodecError::TruncatedBody)
    );
}

#[test]
fn ppm_long_body_is_unsupported() {
    assert_eq!(decoded(" 2 1 255\n", &[0; 7]), Err(CodecError::UnsupportedFeature));
    assert_eq!(decoded(" 2 1 255\n", &[0; 12]), Err(CodecError::UnsupportedFeature));
}

#[test]
fn ppm_writes_one_header_line_then_the_data() {
    let image = ppm(2, 1, vec![1, 2, 3, 4, 5, 6]);
    assert_eq!(image.write_file(), file(" 2 1 255\n", &[1, 2, 3, 4, 5, 6]));
    assert_eq!(PPM::new(12, 345).write_file(), file(" 345 12 255\n", &[0; 3 * 345 * 12]));
    assert_eq!(PPM::new(0, 0).write_file(), file(" 0 0 255\n", &[]));
    assert_eq!(PPM::new(10, 0).write_file(), file(" 0 10 255\n", &[]));
}

#[test]
fn ppm_round_trip_is_bytewise() {
    let mut image = PPM::new(3, 4);
    for y in 0..3 {
        for x in 0..4 {
            let v = (y * 4 + x) as u8;
            assert!(image.set_pixel(x, y, RGB_Pixel { r: v, g: 0x20, b: 0x0A }));
        }
    }
    let bytes = image.write_file();
    assert_eq!(PPM::read_image(&bytes), Ok(image.clone()));
    let again = PPM::read_image(&bytes).unwrap().write_file();
    assert_eq!(again, bytes);
}

#[test]
fn ppm_round_trip_of_many_sizes() {
    for (w, h) in [(0, 0), (1, 1), (9, 1), (10, 1), (1, 99), (100, 3), (101, 1), (7, 1000)] {
        let data: Vec<u8> = (0..3 * w * h).map(|i| (i * 7 % 256) as u8).collect();
        let image = ppm(w, h, data);
        assert_eq!(PPM::read_image(&image.write_file()), Ok(image));
    }
}
