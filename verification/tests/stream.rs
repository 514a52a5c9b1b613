use chrono::{NaiveTime, Timelike};
use sup_decode::decode::pcs::CompositionState;
use sup_decode::display_set::{
    assemble, complete_frames, decode_stream, DisplaySetBuilder, DisplaySetState,
};
use sup_decode::error::{DecodeError, ErrorKind, FlagField};
use sup_decode::stream::{
    decode_header, decode_segment, decode_segments, segment_type, Segment, SegmentHeader,
    SegmentType, StreamError,
};
use sup_decode::time::{convert_ts, Timestamp};

const PCS: [u8; 19] = [
    0x07, 0x80, 0x04, 0x38, 0x10, 0x04, 0x42, 0x80, 0x00, 0x00, 0x01, 0x00, 0x00, 0x00, 0x40,
    0x02, 0x4c, 0x03, 0x64,
];
const WDS: [u8; 10] = [0x01, 0x00, 0x03, 0x05, 0x00, 0x6c, 0x01, 0x79, 0x00, 0x2b];
const PDS: [u8; 7] = [0x00, 0x00, 0x01, 0x10, 0x80, 0x80, 0xff];
const ODS: [u8; 14] = [
    0x00, 0x00, 0x00, 0xC0, 0x00, 0x00, 0x07, 0x00, 0x02, 0x00, 0x01, 0x00, 0x82, 0x01,
];

fn frame(pts: u32, kind: u8, payload: &[u8]) -> Vec<u8> {
    let mut bytes = vec![0x50, 0x47];
    bytes.extend_from_slice(&pts.to_be_bytes());
    bytes.extend_from_slice(&[0, 0, 0, 0]);
    bytes.push(kind);
    bytes.extend_from_slice(&(payload.len() as u16).to_be_bytes());
    bytes.extend_from_slice(payload);
    bytes
}

fn stream(parts: &[(u32, u8, &[u8])]) -> Vec<u8> {
    let mut bytes = Vec::new();
    for (pts, kind, payload) in parts {
        bytes.extend(frame(*pts, *kind, payload));
    }
    bytes
}

fn states(bytes: &[u8]) -> Vec<DisplaySetState> {
    assemble(decode_segments(bytes).unwrap())
        .iter()
        .map(|set| set.state())
        .collect()
}

#[test]
fn timestamps_are_ticks_over_ninety() {
    assert_eq!(convert_ts(0), Timestamp { seconds: 0, nanos: 0 });
    assert_eq!(convert_ts(89), Timestamp { seconds: 0, nanos: 0 });
    assert_eq!(convert_ts(90), Timestamp { seconds: 0, nanos: 1_000_000 });
    assert_eq!(
        convert_ts(90 * 3_661_045 + 17),
        Timestamp { seconds: 3661, nanos: 45_000_000 }
    );
    assert_eq!(
        convert_ts(u32::MAX),
        Timestamp { seconds: 47721, nanos: 858_000_000 }
    );
}

#[test]
fn timestamps_agree_with_the_time_of_day() {
    for ticks in [0u32, 1, 90, 8_999_999, 324_000_000, 1_234_567_890, u32::MAX] {
        let ts = convert_ts(ticks);
        let time = NaiveTime::from_num_seconds_from_midnight_opt(ts.seconds, ts.nanos).unwrap();
        assert_eq!(time.num_seconds_from_midnight(), ticks / 90 / 1000);
        assert_eq!(time.nanosecond(), (ticks / 90 % 1000) * 1_000_000);
    }
}

#[test]
fn segment_type_bytes() {
    assert_eq!(segment_type(0x14), Ok(SegmentType::Palette));
    assert_eq!(segment_type(0x15), Ok(SegmentType::Object));
    assert_eq!(segment_type(0x16), Ok(SegmentType::Composition));
    assert_eq!(segment_type(0x17), Ok(SegmentType::Window));
    assert_eq!(segment_type(0x80), Ok(SegmentType::End));
    let err = segment_type(0x99).unwrap_err();
    assert_eq!(err, DecodeError::UnknownSegmentType { byte: 0x99 });
    assert_eq!(err.kind(), ErrorKind::Framing);
}

#[test]
fn header_fields() {
    let bytes = frame(0x0102_0304, 0x16, &PCS);
    assert_eq!(
        decode_header(&bytes, 0),
        Ok(SegmentHeader { pts: 0x0102_0304, segment_type: SegmentType::Composition, size: 19 })
    );
    assert_eq!(decode_header(&bytes, bytes.len()), Err(DecodeError::Truncated));
    assert_eq!(decode_header(&bytes, bytes.len() + 5), Err(DecodeError::Truncated));
    assert_eq!(decode_header(&bytes, 1), Err(DecodeError::BadMagic));
}

#[test]
fn one_segment_and_where_it_ends() {
    let mut bytes = frame(900_000, 0x17, &WDS);
    bytes.extend(frame(0, 0x80, &[]));
    let (segment, end) = decode_segment(&bytes, 0).unwrap();
    assert_eq!(end, 23);
    match segment {
        Segment::Wds(pts, windows) => {
            assert_eq!(pts, Timestamp { seconds: 10, nanos: 0 });
            assert_eq!(windows.len(), 1);
            assert_eq!(windows[0].x, 773);
        }
        other => panic!("not a window segment: {:?}", other),
    }
    let (segment, end) = decode_segment(&bytes, 23).unwrap();
    assert_eq!(end, 36);
    assert!(matches!(segment, Segment::End));
}

#[test]
fn unknown_segment_type_is_a_framing_error() {
    let mut bytes = frame(0, 0x80, &[]);
    bytes.extend(frame(0, 0x99, &[1, 2, 3]));
    let err = decode_segments(&bytes).unwrap_err();
    assert_eq!(
        err,
        StreamError {
            offset: 13,
            segment_type: None,
            error: DecodeError::UnknownSegmentType { byte: 0x99 },
        }
    );
    assert_eq!(err.error.kind(), ErrorKind::Framing);
    assert_eq!(decode_stream(&bytes).unwrap_err(), err);
}

#[test]
fn bad_magic_is_a_framing_error() {
    let mut bytes = frame(0, 0x80, &[]);
    bytes[1] = 0x48;
    let err = decode_segments(&bytes).unwrap_err();
    assert_eq!(
        err,
        StreamError { offset: 0, segment_type: None, error: DecodeError::BadMagic }
    );
    assert_eq!(err.error.kind(), ErrorKind::Framing);
}

#[test]
fn truncated_stream_is_a_framing_error() {
    let bytes = stream(&[(0, 0x16, &PCS), (0, 0x17, &WDS)]);
    // The payload of the window segment is cut short: its envelope is whole.
    for cut in [1usize, 5, 10] {
        let err = decode_segments(&bytes[..bytes.len() - cut]).unwrap_err();
        assert_eq!(
            err,
            StreamError {
                offset: 32,
                segment_type: Some(SegmentType::Window),
                error: DecodeError::Truncated,
            }
        );
    }
    // The envelope itself is cut short.
    for cut in [11usize, 12, 13, 20, 22] {
        let err = decode_segments(&bytes[..bytes.len() - cut]).unwrap_err();
        assert_eq!(
            err,
            StreamError { offset: 32, segment_type: None, error: DecodeError::Truncated }
        );
    }
}

#[test]
fn payload_errors_name_their_segment() {
    let mut pcs = PCS;
    pcs[7] = 0x20;
    let bytes = stream(&[(0, 0x80, &[]), (0, 0x16, &pcs)]);
    let err = decode_segments(&bytes).unwrap_err();
    assert_eq!(err.offset, 13);
    assert_eq!(err.segment_type, Some(SegmentType::Composition));
    assert_eq!(
        err.error,
        DecodeError::UnknownFlag { field: FlagField::CompositionState, byte: 0x20, offset: 7 }
    );
    assert_eq!(err.error.kind(), ErrorKind::Field);

    let bytes = stream(&[(0, 0x14, &[0, 0, 1, 2, 3, 4, 5, 6, 7])]);
    let err = decode_segments(&bytes).unwrap_err();
    assert_eq!(
        err,
        StreamError {
            offset: 0,
            segment_type: Some(SegmentType::Palette),
            error: DecodeError::PaletteLength { len: 9 },
        }
    );
    assert_eq!(err.error.kind(), ErrorKind::Integrity);
}

#[test]
fn palette_payload_of_seven_bytes() {
    // Two header bytes and one entry: a well-formed palette.
    let bytes = stream(&[(0, 0x14, &PDS)]);
    let segments = decode_segments(&bytes).unwrap();
    assert_eq!(segments.len(), 1);
    // Seven bytes after the header are two bytes too many.
    let bytes = stream(&[(0, 0x14, &[0, 0, 1, 2, 3, 4, 5, 6, 7])]);
    assert!(decode_segments(&bytes).is_err());
}

#[test]
fn empty_stream_has_no_segments() {
    assert!(decode_segments(&[]).unwrap().is_empty());
    assert!(decode_stream(&[]).unwrap().is_empty());
}

#[test]
fn end_payload_is_skipped() {
    let bytes = stream(&[(0, 0x80, &[9, 9, 9]), (0, 0x80, &[])]);
    assert_eq!(decode_segments(&bytes).unwrap().len(), 2);
}

#[test]
fn composition_window_end_is_an_empty_frame() {
    let bytes = stream(&[(90, 0x16, &PCS), (90, 0x17, &WDS), (90, 0x80, &[])]);
    assert_eq!(states(&bytes), [DisplaySetState::EmptyFrame]);
    assert!(decode_stream(&bytes).unwrap().is_empty());
}

#[test]
fn all_four_segments_are_complete() {
    let bytes = stream(&[
        (180_000, 0x16, &PCS),
        (180_000, 0x17, &WDS),
        (180_000, 0x14, &PDS),
        (180_000, 0x15, &ODS),
        (180_000, 0x80, &[]),
    ]);
    assert_eq!(states(&bytes), [DisplaySetState::Complete]);
    let frames = decode_stream(&bytes).unwrap();
    assert_eq!(frames.len(), 1);
    let frame = &frames[0];
    assert_eq!(frame.pts, Timestamp { seconds: 2, nanos: 0 });
    assert_eq!(frame.pcs.comp_state, CompositionState::EpochStart);
    assert_eq!(frame.pcs.width, 1920);
    assert_eq!(frame.wds.len(), 1);
    assert_eq!(frame.pds.entries.len(), 1);
    assert_eq!(frame.ods.data, [1, 1]);
    assert_eq!((frame.ods.width, frame.ods.height), (2, 1));
    assert_eq!(frame.pcs.find_object_by_id(frame.ods.id).unwrap().x, 588);
    assert_eq!(frame.pds.find_by_id(1).unwrap().alpha, 0xff);
    assert_eq!(frame.pts(), frame.pts);
    assert_eq!(frame.pcs().comp_no, 1090);
    assert_eq!(frame.wds()[0].width, 377);
    assert_eq!(frame.pds().id, 0);
    assert_eq!(frame.ods().data, [1, 1]);
}

#[test]
fn composition_without_window_is_incomplete() {
    let bytes = stream(&[(0, 0x16, &PCS), (0, 0x80, &[])]);
    assert_eq!(states(&bytes), [DisplaySetState::Incomplete]);
    let bytes = stream(&[(0, 0x16, &PCS), (0, 0x14, &PDS), (0, 0x15, &ODS), (0, 0x80, &[])]);
    assert_eq!(states(&bytes), [DisplaySetState::Incomplete]);
    let bytes = stream(&[(0, 0x17, &WDS), (0, 0x14, &PDS), (0, 0x15, &ODS), (0, 0x80, &[])]);
    assert_eq!(states(&bytes), [DisplaySetState::Incomplete]);
    let bytes = stream(&[(0, 0x16, &PCS), (0, 0x17, &[0]), (0, 0x80, &[])]);
    assert_eq!(states(&bytes), [DisplaySetState::Incomplete]);
}

#[test]
fn windows_of_two_segments_accumulate() {
    let two = [
        0x02, 0x00, 0x03, 0x05, 0x00, 0x6c, 0x01, 0x79, 0x00, 0x2b, 0x01, 0x02, 0xe3, 0x03,
        0xa0, 0x01, 0xd8, 0x00, 0x2b,
    ];
    let bytes = stream(&[(0, 0x16, &PCS), (0, 0x17, &WDS), (0, 0x17, &two), (0, 0x80, &[])]);
    let sets = assemble(decode_segments(&bytes).unwrap());
    assert_eq!(sets.len(), 1);
    assert_eq!(sets[0].wds.len(), 3);
    assert_eq!(sets[0].wds[0].id, 0);
    assert_eq!(sets[0].wds[1].id, 0);
    assert_eq!(sets[0].wds[2].id, 1);
    assert_eq!(sets[0].wds[2].y, 928);
}

#[test]
fn last_palette_and_object_win() {
    let other_palette = [0x09, 0x01, 0x02, 0x20, 0x80, 0x80, 0x80];
    let other_object = [
        0x00, 0x07, 0x00, 0xC0, 0x00, 0x00, 0x05, 0x00, 0x01, 0x00, 0x01, 0x05,
    ];
    let bytes = stream(&[
        (0, 0x16, &PCS),
        (0, 0x17, &WDS),
        (0, 0x14, &PDS),
        (0, 0x15, &ODS),
        (0, 0x14, &other_palette),
        (0, 0x15, &other_object),
        (0, 0x80, &[]),
    ]);
    let frames = decode_stream(&bytes).unwrap();
    assert_eq!(frames.len(), 1);
    assert_eq!(frames[0].pds.id, 9);
    assert_eq!(frames[0].ods.id, 7);
    assert_eq!(frames[0].ods.data, [5]);
}

#[test]
fn each_end_closes_one_display_set() {
    let bytes = stream(&[
        (0, 0x80, &[]),
        (90_000, 0x16, &PCS),
        (90_000, 0x17, &WDS),
        (90_000, 0x14, &PDS),
        (90_000, 0x15, &ODS),
        (90_000, 0x80, &[]),
        (180_000, 0x16, &PCS),
        (180_000, 0x17, &WDS),
        (180_000, 0x80, &[]),
        (270_000, 0x16, &PCS),
        (270_000, 0x17, &WDS),
        (270_000, 0x14, &PDS),
        (270_000, 0x15, &ODS),
        (270_000, 0x80, &[]),
        (360_000, 0x16, &PCS),
    ]);
    assert_eq!(
        states(&bytes),
        [
            DisplaySetState::Incomplete,
            DisplaySetState::Complete,
            DisplaySetState::EmptyFrame,
            DisplaySetState::Complete,
        ]
    );
    let frames = decode_stream(&bytes).unwrap();
    assert_eq!(frames.len(), 2);
    assert_eq!(frames[0].pts.seconds, 1);
    assert_eq!(frames[1].pts.seconds, 3);
    let frames = complete_frames(assemble(decode_segments(&bytes).unwrap()));
    assert_eq!(frames.len(), 2);
}

#[test]
fn builder_by_hand() {
    let mut builder = DisplaySetBuilder::new();
    assert_eq!(builder.state(), DisplaySetState::Incomplete);
    let bytes = stream(&[(90, 0x16, &PCS), (0, 0x17, &WDS), (0, 0x14, &PDS), (0, 0x15, &ODS)]);
    let mut seen = Vec::new();
    for segment in decode_segments(&bytes).unwrap() {
        builder.absorb(segment);
        seen.push(builder.state());
    }
    assert_eq!(
        seen,
        [
            DisplaySetState::Incomplete,
            DisplaySetState::EmptyFrame,
            DisplaySetState::EmptyFrame,
            DisplaySetState::Complete,
        ]
    );
    assert!(builder.clone().try_build().is_some());
    let frame = builder.build();
    assert_eq!(frame.pts, Timestamp { seconds: 0, nanos: 1_000_000 });
    assert!(DisplaySetBuilder::new().try_build().is_none());
}
