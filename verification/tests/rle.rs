use sup_decode::decode::rle::{decode_rle, is_color, is_long};
use sup_decode::error::{DecodeError, ErrorKind};

#[test]
fn long_indicator() {
    assert!(is_long(0b1100_0000));
    assert!(is_long(0b1111_1111));
    assert!(is_long(0b0100_0000));
    assert!(is_long(0b0111_1111));

    assert!(!is_long(0b1000_0000));
    assert!(!is_long(0b1011_1111));
    assert!(!is_long(0b0000_0000));
    assert!(!is_long(0b0011_1111));
}

#[test]
fn color_indicator() {
    assert!(is_color(0b1000_0000));
    assert!(is_color(0b1111_1111));
    assert!(!is_color(0b0000_0000));
    assert!(!is_color(0b0111_1111));
}

#[test]
fn single_pixel() {
    assert_eq!(decode_rle(&vec![1]).unwrap(), [1]);
}

#[test]
fn short_black_pixels() {
    assert_eq!(decode_rle(&[0, 0b0000_0101]).unwrap(), [0, 0, 0, 0, 0]);
}

#[test]
fn long_black_pixels() {
    assert_eq!(decode_rle(&[0, 0b0100_0000, 0b0010_0000]).unwrap(), [0u8; 32]);
}

#[test]
fn short_color_pixels() {
    assert_eq!(
        decode_rle(&[0, 0b1000_0101, 0b0000_0001]).unwrap(),
        [0b0000_0001; 5]
    );
}

#[test]
fn long_color_pixels() {
    assert_eq!(
        decode_rle(&[0, 0b1100_0000, 0b0010_0000, 0b0000_0001]).unwrap(),
        [1u8; 32],
    );
}

#[test]
fn single_pixel_keeps_its_color() {
    assert_eq!(decode_rle(&[0x87, 0x02, 0xff]).unwrap(), [0x87, 0x02, 0xff]);
}

#[test]
fn empty_input_has_no_pixels() {
    assert_eq!(decode_rle(&[]).unwrap(), Vec::<u8>::new());
}

#[test]
fn end_of_line_adds_nothing() {
    assert_eq!(decode_rle(&[0, 0]).unwrap(), Vec::<u8>::new());
    assert_eq!(decode_rle(&[7, 0, 0, 8, 0, 0]).unwrap(), [7, 8]);
}

#[test]
fn long_run_joins_both_length_bytes() {
    // 0x41 0x02: long form, length 0x0102 = 258, color 0.
    let pixels = decode_rle(&[0, 0x41, 0x02]).unwrap();
    assert_eq!(pixels.len(), 258);
    assert!(pixels.iter().all(|p| *p == 0));

    // 0xFF 0xFF: long form with color, the longest run there is.
    let pixels = decode_rle(&[0, 0xff, 0xff, 9]).unwrap();
    assert_eq!(pixels.len(), 16383);
    assert!(pixels.iter().all(|p| *p == 9));
}

#[test]
fn runs_follow_each_other() {
    let pixels = decode_rle(&[0, 0x83, 4, 5, 0, 0x02, 0, 0]).unwrap();
    assert_eq!(pixels, [4, 4, 4, 5, 0, 0]);
}

#[test]
fn run_of_length_zero_with_color() {
    // Color flag set, length 0: the color byte is consumed, no pixel comes out.
    assert_eq!(decode_rle(&[0, 0x80, 7, 3]).unwrap(), [3]);
}

#[test]
fn truncated_codes_fail() {
    assert_eq!(decode_rle(&[0]), Err(DecodeError::Truncated));
    assert_eq!(decode_rle(&[0, 0x40]), Err(DecodeError::Truncated));
    assert_eq!(decode_rle(&[0, 0x85]), Err(DecodeError::Truncated));
    assert_eq!(decode_rle(&[0, 0xC0, 0x20]), Err(DecodeError::Truncated));
    assert_eq!(decode_rle(&[1, 2, 0]), Err(DecodeError::Truncated));
    assert_eq!(DecodeError::Truncated.kind(), ErrorKind::Framing);
}
