//! Segment framing: the thirteen-byte envelope of each segment and the walk
//! over a whole stream.
//!
//! | field        | bytes | meaning                                  |
//! |--------------|-------|------------------------------------------|
//! | magic        | 2     | `50 47`                                  |
//! | PTS          | 4     | presentation time, 90 kHz ticks          |
//! | DTS          | 4     | decoding time, ignored                   |
//! | segment type | 1     | `14` `15` `16` `17` `80`                 |
//! | size         | 2     | length of the payload that follows       |

use vstd::prelude::*;
use vstd::slice::slice_subrange;

use crate::bytes::{be16, be32, u16_at, u32_at};
use crate::decode::ods::{
    decode_ods,
    lemma_parsed_object_well_formed,
    parse_object,
    ObjectDefinition,
    ObjectModel,
};
use crate::decode::pcs::{
    decode_pcs,
    lemma_parsed_composition_well_formed,
    parse_composition,
    CompositionModel,
    PresentationComposition,
};
use crate::decode::pds::{decode_pds, parse_palette, PaletteDefinition, PaletteModel};
use crate::decode::wds::{decode_wds, parse_windows, WindowDefinition};
use crate::error::DecodeError;
use crate::time::{convert_ts, timestamp_of, Timestamp};

verus! {

/// The number of bytes before a segment's payload.
pub const HEADER_LEN: usize = 13;

#[derive(Debug, Clone, Copy, PartialEq, Eq, Structural)]
pub enum SegmentType {
    /// Palette definition segment.
    Palette,
    /// Object definition segment.
    Object,
    /// Presentation composition segment.
    Composition,
    /// Window definition segment.
    Window,
    /// End of display set segment.
    End,
}

/// The envelope of one segment, without the magic bytes and the decoding
/// timestamp, which carry nothing.
#[derive(Debug, Clone, Copy, PartialEq, Eq, Structural)]
pub struct SegmentHeader {
    /// Presentation timestamp in ticks of the 90 kHz clock.
    pub pts: u32,
    pub segment_type: SegmentType,
    /// Length of the payload in bytes.
    pub size: u16,
}

/// One decoded segment, with the time of its envelope.
#[derive(Debug, Clone)]
pub enum Segment {
    Pcs(Timestamp, PresentationComposition),
    Wds(Timestamp, Vec<WindowDefinition>),
    Pds(Timestamp, PaletteDefinition),
    Ods(Timestamp, ObjectDefinition),
    End,
}

/// What a `Segment` holds, as a mathematical value.
pub enum SegmentModel {
    Pcs(Timestamp, CompositionModel),
    Wds(Timestamp, Seq<WindowDefinition>),
    Pds(Timestamp, PaletteModel),
    Ods(Timestamp, ObjectModel),
    End,
}

impl View for Segment {
    type V = SegmentModel;

    open spec fn view(&self) -> SegmentModel {
        match *self {
            Segment::Pcs(pts, pcs) => SegmentModel::Pcs(pts, pcs@),
            Segment::Wds(pts, wds) => SegmentModel::Wds(pts, wds@),
            Segment::Pds(pts, pds) => SegmentModel::Pds(pts, pds@),
            Segment::Ods(pts, ods) => SegmentModel::Ods(pts, ods@),
            Segment::End => SegmentModel::End,
        }
    }
}

impl SegmentModel {
    /// A composition declares as many objects as it lists, and the bitmap
    /// of an object fills its rectangle.
    pub open spec fn well_formed(self) -> bool {
        match self {
            SegmentModel::Pcs(_, pcs) => pcs.well_formed(),
            SegmentModel::Ods(_, ods) => ods.well_formed(),
            _ => true,
        }
    }
}

/// A failure of the walk over a stream: the error, the offset in the
/// stream at which the segment that caused it begins, and the type of that
/// segment where its envelope could be read.
#[derive(Debug, Clone, Copy, PartialEq, Eq)]
pub struct StreamError {
    pub offset: usize,
    pub segment_type: Option<SegmentType>,
    pub error: DecodeError,
}

/// The models of a sequence of segments, one for one.
pub open spec fn segment_models(segments: Seq<Segment>) -> Seq<SegmentModel> {
    segments.map_values(|segment: Segment| segment@)
}

/// The segment type that a type byte stands for.
pub open spec fn segment_type_of(byte: u8) -> Option<SegmentType> {
    if byte == 0x14 {
        Some(SegmentType::Palette)
    } else if byte == 0x15 {
        Some(SegmentType::Object)
    } else if byte == 0x16 {
        Some(SegmentType::Composition)
    } else if byte == 0x17 {
        Some(SegmentType::Window)
    } else if byte == 0x80 {
        Some(SegmentType::End)
    } else {
        None
    }
}

/// The envelope that starts at `i`, or the first fault met when reading it
/// field by field.
pub open spec fn header_at(s: Seq<u8>, i: int) -> Result<SegmentHeader, DecodeError> {
    if i + 2 > s.len() {
        Err(DecodeError::Truncated)
    } else if s[i] != 0x50 || s[i + 1] != 0x47 {
        Err(DecodeError::BadMagic)
    } else if i + 11 > s.len() {
        Err(DecodeError::Truncated)
    } else if segment_type_of(s[i + 10]) is None {
        Err(DecodeError::UnknownSegmentType { byte: s[i + 10] })
    } else if i + 13 > s.len() {
        Err(DecodeError::Truncated)
    } else {
        Ok(
            SegmentHeader {
                pts: be32(s, i + 2),
                segment_type: segment_type_of(s[i + 10]).unwrap(),
                size: be16(s, i + 11),
            },
        )
    }
}

/// The segment that an envelope and its payload make. The payload of an
/// end segment is not looked at.
pub open spec fn segment_of(header: SegmentHeader, payload: Seq<u8>) -> Result<
    SegmentModel,
    DecodeError,
> {
    let pts = timestamp_of(header.pts);
    match header.segment_type {
        SegmentType::Composition => match parse_composition(payload) {
            Ok(pcs) => Ok(SegmentModel::Pcs(pts, pcs)),
            Err(e) => Err(e),
        },
        SegmentType::Window => match parse_windows(payload) {
            Ok(wds) => Ok(SegmentModel::Wds(pts, wds)),
            Err(e) => Err(e),
        },
        SegmentType::Palette => match parse_palette(payload) {
            Ok(pds) => Ok(SegmentModel::Pds(pts, pds)),
            Err(e) => Err(e),
        },
        SegmentType::Object => match parse_object(payload) {
            Ok(ods) => Ok(SegmentModel::Ods(pts, ods)),
            Err(e) => Err(e),
        },
        SegmentType::End => Ok(SegmentModel::End),
    }
}

/// The offset just past the segment that starts at `i`, as its envelope
/// declares it.
pub open spec fn segment_end(s: Seq<u8>, i: int) -> int {
    i + 13 + be16(s, i + 11) as int
}

/// The type of the segment that starts at `i`, where its envelope is
/// sound.
pub open spec fn segment_type_at(s: Seq<u8>, i: int) -> Option<SegmentType> {
    match header_at(s, i) {
        Ok(header) => Some(header.segment_type),
        Err(_) => None,
    }
}

/// The segment that starts at `i`.
pub open spec fn segment_at(s: Seq<u8>, i: int) -> Result<SegmentModel, DecodeError> {
    match header_at(s, i) {
        Err(e) => Err(e),
        Ok(header) => if segment_end(s, i) > s.len() {
            Err(DecodeError::Truncated)
        } else {
            segment_of(header, s.subrange(i + 13, segment_end(s, i)))
        },
    }
}

/// The segments of `s` from offset `i` to its end, or the first failure
/// with the offset of its segment.
pub open spec fn segments_from(s: Seq<u8>, i: int) -> Result<Seq<SegmentModel>, StreamError>
    decreases s.len() - i,
{
    if i < 0 || i >= s.len() {
        Ok(Seq::empty())
    } else {
        match segment_at(s, i) {
            Err(e) => Err(
                StreamError {
                    offset: i as usize,
                    segment_type: segment_type_at(s, i),
                    error: e,
                },
            ),
            Ok(first) => match segments_from(s, segment_end(s, i)) {
                Err(e) => Err(e),
                Ok(rest) => Ok(seq![first] + rest),
            },
        }
    }
}

/// Every segment that the walk over a stream yields is well formed.
pub proof fn lemma_segments_well_formed(s: Seq<u8>, i: int)
    ensures
        segments_from(s, i) is Ok ==> forall|k: int|
            0 <= k < segments_from(s, i).unwrap().len() ==> (#[trigger] segments_from(
                s,
                i,
            ).unwrap()[k]).well_formed(),
    decreases s.len() - i,
{
    if 0 <= i < s.len() && segments_from(s, i) is Ok {
        let payload = s.subrange(i + 13, segment_end(s, i));
        lemma_parsed_composition_well_formed(payload);
        lemma_parsed_object_well_formed(payload);
        lemma_segments_well_formed(s, segment_end(s, i));
    }
}

/// The segment type named by a type byte; any other byte is an error.
pub fn segment_type(byte: u8) -> (r: Result<SegmentType, DecodeError>)
    ensures
        r == (match segment_type_of(byte) {
            Some(t) => Ok::<SegmentType, DecodeError>(t),
            None => Err(DecodeError::UnknownSegmentType { byte }),
        }),
{
    if byte == 0x14 {
        Ok(SegmentType::Palette)
    } else if byte == 0x15 {
        Ok(SegmentType::Object)
    } else if byte == 0x16 {
        Ok(SegmentType::Composition)
    } else if byte == 0x17 {
        Ok(SegmentType::Window)
    } else if byte == 0x80 {
        Ok(SegmentType::End)
    } else {
        Err(DecodeError::UnknownSegmentType { byte })
    }
}

/// Reads the envelope that starts at `pos`.
pub fn decode_header(bytes: &[u8], pos: usize) -> (r: Result<SegmentHeader, DecodeError>)
    ensures
        r == header_at(bytes@, pos as int),
{
    let len = bytes.len();
    if pos > len || len - pos < 2 {
        return Err(DecodeError::Truncated);
    }
    if bytes[pos] != 0x50 || bytes[pos + 1] != 0x47 {
        return Err(DecodeError::BadMagic);
    }
    if len - pos < 11 {
        return Err(DecodeError::Truncated);
    }
    let pts = u32_at(bytes, pos + 2);
    let segment_type = match segment_type(bytes[pos + 10]) {
        Ok(t) => t,
        Err(e) => {
            return Err(e);
        },
    };
    if len - pos < HEADER_LEN {
        return Err(DecodeError::Truncated);
    }
    let size = u16_at(bytes, pos + 11);
    Ok(SegmentHeader { pts, segment_type, size })
}

/// Decodes a payload as the segment that its envelope announces.
pub fn decode_payload(header: SegmentHeader, payload: &[u8]) -> (r: Result<Segment, DecodeError>)
    ensures
        (match segment_of(header, payload@) {
            Ok(model) => r is Ok && r->Ok_0@ == model,
            Err(e) => r is Err && r->Err_0 == e,
        }),
{
    let pts = convert_ts(header.pts);
    match header.segment_type {
        SegmentType::Composition => match decode_pcs(payload) {
            Ok(pcs) => Ok(Segment::Pcs(pts, pcs)),
            Err(e) => Err(e),
        },
        SegmentType::Window => match decode_wds(payload) {
            Ok(wds) => Ok(Segment::Wds(pts, wds)),
            Err(e) => Err(e),
        },
        SegmentType::Palette => match decode_pds(payload) {
            Ok(pds) => Ok(Segment::Pds(pts, pds)),
            Err(e) => Err(e),
        },
        SegmentType::Object => match decode_ods(payload) {
            Ok(ods) => Ok(Segment::Ods(pts, ods)),
            Err(e) => Err(e),
        },
        SegmentType::End => Ok(Segment::End),
    }
}

/// Decodes the segment that starts at `pos` and gives it with the offset
/// of the byte after it.
pub fn decode_segment(bytes: &[u8], pos: usize) -> (r: Result<(Segment, usize), DecodeError>)
    ensures
        (match segment_at(bytes@, pos as int) {
            Ok(model) => r is Ok && r->Ok_0.0@ == model && r->Ok_0.1 == segment_end(
                bytes@,
                pos as int,
            ) && pos < r->Ok_0.1 <= bytes@.len(),
            Err(e) => r is Err && r->Err_0 == e,
        }),
{
    let header = match decode_header(bytes, pos) {
        Ok(header) => header,
        Err(e) => {
            return Err(e);
        },
    };
    let len = bytes.len();
    let start = pos + HEADER_LEN;
    if len - start < header.size as usize {
        return Err(DecodeError::Truncated);
    }
    let end = start + header.size as usize;
    match decode_payload(header, slice_subrange(bytes, start, end)) {
        Ok(segment) => Ok((segment, end)),
        Err(e) => Err(e),
    }
}

/// Walks a stream from its first byte to its last and decodes every
/// segment. The walk stops at the first segment that fails, and names the
/// offset at which that segment begins and, where the envelope was sound,
/// its type.
pub fn decode_segments(bytes: &[u8]) -> (r: Result<Vec<Segment>, StreamError>)
    ensures
        (match segments_from(bytes@, 0) {
            Ok(models) => r is Ok && segment_models(r->Ok_0@) == models,
            Err(e) => r is Err && r->Err_0 == e,
        }),
        r is Ok ==> forall|k: int|
            0 <= k < r->Ok_0@.len() ==> (#[trigger] r->Ok_0@[k])@.well_formed(),
{
    let mut segments: Vec<Segment> = Vec::new();
    let mut pos: usize = 0;
    while pos < bytes.len()
        invariant
            pos <= bytes@.len(),
            segments_from(bytes@, 0) == match segments_from(bytes@, pos as int) {
                Ok(rest) => Ok::<Seq<SegmentModel>, StreamError>(
                    segment_models(segments@) + rest,
                ),
                Err(e) => Err(e),
            },
        decreases bytes@.len() - pos,
    {
        let ghost before = segments@;
        match decode_segment(bytes, pos) {
            Err(error) => {
                let segment_type = match decode_header(bytes, pos) {
                    Ok(header) => Some(header.segment_type),
                    Err(_) => None,
                };
                return Err(StreamError { offset: pos, segment_type, error });
            },
            Ok((segment, end)) => {
                segments.push(segment);
                pos = end;
                proof {
                    assert(segment_models(segments@) == segment_models(before).push(segment@));
                    let rest = segments_from(bytes@, pos as int);
                    if rest is Ok {
                        assert(segment_models(before) + (seq![segment@] + rest.unwrap())
                            == segment_models(segments@) + rest.unwrap());
                    }
                }
            },
        }
    }
    proof {
        let models = segments_from(bytes@, 0).unwrap();
        assert(segment_models(segments@) + Seq::<SegmentModel>::empty() == segment_models(
            segments@,
        ));
        lemma_segments_well_formed(bytes@, 0);
        assert forall|k: int| 0 <= k < segments@.len() implies (#[trigger] segments@[k])@
            .well_formed() by {
            assert(segment_models(segments@)[k] == segments@[k]@);
            assert(models[k].well_formed());
        }
    }
    Ok(segments)
}

} // verus!
