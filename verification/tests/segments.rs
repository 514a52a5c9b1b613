use sup_decode::segment::segment_on;

#[test]
fn single_marker_segment() {
    let bytes = vec![0xff, 0x0, 0xff, 0x1, 0x2, 0xff, 0x3, 0x4, 0xff, 0x5];
    let segments: Vec<&[u8]> = vec![
        &[0xff, 0x0],
        &[0xff, 0x1, 0x2],
        &[0xff, 0x3, 0x4],
        &[0xff, 0x5],
    ];

    assert_eq!(segment_on(&bytes, &[0xff]), segments)
}

#[test]
fn multi_marker_segment() {
    let bytes = vec![0x42, 0xff, 0x0, 0x42, 0xff, 0x1, 0x2, 0x42, 0xff, 0x3];
    let segments: Vec<&[u8]> = vec![
        &[0x42, 0xff, 0x0],
        &[0x42, 0xff, 0x1, 0x2],
        &[0x42, 0xff, 0x3],
    ];

    assert_eq!(segment_on(&bytes, &[0x42, 0xff]), segments)
}

#[test]
fn data_before_first_marker() {
    let bytes = vec![0x1, 0x2, 0xff, 0x3, 0xff, 0x4];
    let segments: Vec<&[u8]> = vec![&[0x1, 0x2], &[0xff, 0x3], &[0xff, 0x4]];
    assert_eq!(segment_on(&bytes, &[0xff]), segments)
}

#[test]
fn no_marker_gives_one_piece() {
    let bytes = vec![0x1, 0x2, 0x3];
    let segments: Vec<&[u8]> = vec![&[0x1, 0x2, 0x3]];
    assert_eq!(segment_on(&bytes, &[0xff]), segments)
}

#[test]
fn marker_at_end_cuts_nothing() {
    let bytes = vec![0xff, 0x1, 0xff];
    let segments: Vec<&[u8]> = vec![&[0xff, 0x1, 0xff]];
    assert_eq!(segment_on(&bytes, &[0xff]), segments);

    let bytes = vec![0x1, 0x42, 0xff];
    let segments: Vec<&[u8]> = vec![&[0x1, 0x42, 0xff]];
    assert_eq!(segment_on(&bytes, &[0x42, 0xff]), segments)
}

#[test]
fn marker_as_long_as_the_buffer() {
    let bytes = vec![0x42, 0xff];
    let segments: Vec<&[u8]> = vec![&[0x42, 0xff]];
    assert_eq!(segment_on(&bytes, &[0x42, 0xff]), segments)
}

#[test]
fn pieces_join_to_the_buffer() {
    let bytes = vec![0x9, 0xff, 0xff, 0x0, 0xff, 0x1, 0x2, 0xff];
    let joined: Vec<u8> = segment_on(&bytes, &[0xff]).concat();
    assert_eq!(joined, bytes);
}
