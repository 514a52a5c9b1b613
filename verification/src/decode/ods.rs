//! Object definition segment: object id (2), version (1), sequence flag
//! (1), data length (3), width (2), height (2), then the run-length coded
//! bitmap. The data length counts width and height with the bitmap.

use vstd::prelude::*;
use vstd::slice::slice_subrange;

use crate::bytes::{be16, be24, u16_at, u24_at};
use crate::decode::rle::{decode_rle, rle_pixels};
use crate::error::{DecodeError, FlagField};

verus! {

/// The place of a segment among the fragments of one object.
#[derive(Debug, Clone, Copy, PartialEq, Eq, Hash, Structural)]
pub enum SequenceFlag {
    First,
    Last,
    Both,
}

/// A decoded bitmap: `width * height` palette indices, row after row.
#[derive(Debug, Clone, Hash)]
pub struct ObjectDefinition {
    pub id: u16,
    pub version: u8,
    pub sequence_flag: SequenceFlag,
    pub width: u16,
    pub height: u16,
    pub data: Vec<u8>,
}

/// What an `ObjectDefinition` holds, as a mathematical value.
pub struct ObjectModel {
    pub id: u16,
    pub version: u8,
    pub sequence_flag: SequenceFlag,
    pub width: u16,
    pub height: u16,
    pub data: Seq<u8>,
}

impl View for ObjectDefinition {
    type V = ObjectModel;

    open spec fn view(&self) -> ObjectModel {
        ObjectModel {
            id: self.id,
            version: self.version,
            sequence_flag: self.sequence_flag,
            width: self.width,
            height: self.height,
            data: self.data@,
        }
    }
}

impl ObjectModel {
    /// The bitmap holds one palette index for each pixel of the rectangle.
    pub open spec fn well_formed(self) -> bool {
        self.data.len() == self.width as int * self.height as int
    }
}

/// The fragment position that a sequence flag byte stands for.
pub open spec fn sequence_flag_of(byte: u8) -> Option<SequenceFlag> {
    if byte == 0x40 {
        Some(SequenceFlag::Last)
    } else if byte == 0x80 {
        Some(SequenceFlag::First)
    } else if byte == 0xC0 {
        Some(SequenceFlag::Both)
    } else {
        None
    }
}

/// What an object payload holds, or why it cannot be decoded. The checks
/// come in this order: the flag byte, the length of the header, the
/// declared data length against the bytes present, the run-length codes,
/// the number of pixels against width times height.
pub open spec fn parse_object(s: Seq<u8>) -> Result<ObjectModel, DecodeError> {
    if s.len() < 4 {
        Err(DecodeError::Truncated)
    } else if sequence_flag_of(s[3]) is None {
        Err(DecodeError::UnknownFlag { field: FlagField::SequenceFlag, byte: s[3], offset: 3 })
    } else if s.len() < 11 {
        Err(DecodeError::Truncated)
    } else if be24(s, 4) != s.len() - 11 + 4 {
        Err(
            DecodeError::ObjectDataLength {
                declared: be24(s, 4),
                actual: (s.len() - 11) as usize,
            },
        )
    } else {
        match rle_pixels(s.subrange(11, s.len() as int), 0) {
            None => Err(DecodeError::Truncated),
            Some(pixels) => if pixels.len() != be16(s, 7) as int * be16(s, 9) as int {
                Err(
                    DecodeError::ObjectSize {
                        expected: (be16(s, 7) as int * be16(s, 9) as int) as u32,
                        actual: pixels.len() as usize,
                    },
                )
            } else {
                Ok(
                    ObjectModel {
                        id: be16(s, 0),
                        version: s[2],
                        sequence_flag: sequence_flag_of(s[3]).unwrap(),
                        width: be16(s, 7),
                        height: be16(s, 9),
                        data: pixels,
                    },
                )
            },
        }
    }
}

/// Every object that a payload decodes to holds exactly `width * height`
/// pixels, and they are the pixels that the run-length data after the
/// eleven header bytes stands for.
pub proof fn lemma_parsed_object_well_formed(s: Seq<u8>)
    ensures
        parse_object(s) is Ok ==> ({
            let object = parse_object(s).unwrap();
            &&& object.well_formed()
            &&& object.data.len() == object.width as int * object.height as int
            &&& Some(object.data) == rle_pixels(s.subrange(11, s.len() as int), 0)
        }),
{
}

/// Decodes an object payload. On success the bitmap holds exactly
/// `width * height` pixels; a bitmap of another size, as a fragment of a
/// larger object yields, is reported as `ObjectSize` and not given out.
pub fn decode_ods(data: &[u8]) -> (r: Result<ObjectDefinition, DecodeError>)
    ensures
        (match parse_object(data@) {
            Ok(model) => r is Ok && r->Ok_0@ == model,
            Err(e) => r is Err && r->Err_0 == e,
        }),
        r is Ok ==> r->Ok_0@.well_formed(),
{
    let len = data.len();
    if len < 4 {
        return Err(DecodeError::Truncated);
    }
    let object_id = u16_at(data, 0);
    let version = data[2];
    let flag = data[3];
    let sequence_flag = if flag == 0x40 {
        SequenceFlag::Last
    } else if flag == 0x80 {
        SequenceFlag::First
    } else if flag == 0xC0 {
        SequenceFlag::Both
    } else {
        return Err(
            DecodeError::UnknownFlag { field: FlagField::SequenceFlag, byte: flag, offset: 3 },
        );
    };
    if len < 11 {
        return Err(DecodeError::Truncated);
    }
    let data_len = u24_at(data, 4);
    let width = u16_at(data, 7);
    let height = u16_at(data, 9);
    let object_data = slice_subrange(data, 11, len);
    if data_len < 4 || object_data.len() != (data_len - 4) as usize {
        return Err(DecodeError::ObjectDataLength { declared: data_len, actual: len - 11 });
    }
    let image = match decode_rle(object_data) {
        Ok(image) => image,
        Err(e) => {
            return Err(e);
        },
    };
    assert(width as int * height as int <= 0xFFFF * 0xFFFF) by (nonlinear_arith)
        requires
            width <= 0xFFFF,
            height <= 0xFFFF,
    ;
    let expected: u32 = (width as u32) * (height as u32);
    if image.len() != expected as usize {
        return Err(DecodeError::ObjectSize { expected, actual: image.len() });
    }
    Ok(ObjectDefinition { id: object_id, version, sequence_flag, width, height, data: image })
}

} // verus!
