//! Presentation composition segment.
//!
//! | field                  | bytes | meaning                                   |
//! |------------------------|-------|-------------------------------------------|
//! | width                  | 2     | video width in pixels                     |
//! | height                 | 2     | video height in pixels                    |
//! | frame rate             | 1     | ignored                                   |
//! | composition number     | 2     | counts the graphics updates               |
//! | composition state      | 1     | `00` normal, `40` acquisition, `80` epoch |
//! | palette update flag    | 1     | `00` off, `80` on                         |
//! | palette id             | 1     |                                           |
//! | number of objects      | 1     |                                           |
//!
//! Each composition object follows with object id (2), window id (1),
//! cropped flag (1, `00` or `40`), x (2), y (2) and, where the flag is set
//! and the payload goes on, the crop rectangle x, y, width, height (2 each).

use vstd::prelude::*;

use crate::bytes::{be16, u16_at};
use crate::error::{DecodeError, FlagField};

verus! {

#[derive(Debug, Clone, Copy, PartialEq, Eq, Structural)]
pub enum CompositionState {
    /// A new display: the epoch holds every segment needed to show it.
    EpochStart,
    /// A refresh in the middle of an epoch; objects replace those of the
    /// same id.
    AcquisitionPoint,
    /// An update that holds only what differs from the composition before.
    Normal,
}

/// The placement of one object on the screen.
#[derive(Debug, Clone, Copy, PartialEq, Eq)]
pub struct CompositionObject {
    pub id: u16,
    pub window_id: u8,
    pub cropped: bool,
    pub x: u16,
    pub y: u16,
    pub crop_x: Option<u16>,
    pub crop_y: Option<u16>,
    pub crop_width: Option<u16>,
    pub crop_height: Option<u16>,
}

#[derive(Debug, Clone)]
pub struct PresentationComposition {
    pub comp_no: u16,
    pub comp_state: CompositionState,
    pub num_comp_objects: u8,
    pub width: u16,
    pub height: u16,
    pub palette_id: u8,
    pub palette_update: bool,
    pub composition_objects: Vec<CompositionObject>,
}

/// What a `PresentationComposition` holds, as a mathematical value.
pub struct CompositionModel {
    pub comp_no: u16,
    pub comp_state: CompositionState,
    pub num_comp_objects: u8,
    pub width: u16,
    pub height: u16,
    pub palette_id: u8,
    pub palette_update: bool,
    pub composition_objects: Seq<CompositionObject>,
}

impl View for PresentationComposition {
    type V = CompositionModel;

    open spec fn view(&self) -> CompositionModel {
        CompositionModel {
            comp_no: self.comp_no,
            comp_state: self.comp_state,
            num_comp_objects: self.num_comp_objects,
            width: self.width,
            height: self.height,
            palette_id: self.palette_id,
            palette_update: self.palette_update,
            composition_objects: self.composition_objects@,
        }
    }
}

impl CompositionModel {
    /// The declared object count is the length of the object list.
    pub open spec fn well_formed(self) -> bool {
        self.composition_objects.len() == self.num_comp_objects
    }
}

impl PresentationComposition {
    /// The first composition object that places the object `id`, or `None`
    /// where no entry names it.
    pub fn find_object_by_id(&self, id: u16) -> (r: Option<&CompositionObject>)
        ensures
            (match r {
                Some(object) => exists|i: int|
                    0 <= i < self@.composition_objects.len() && *object
                        == self@.composition_objects[i] && object.id == id && forall|j: int|
                        0 <= j < i ==> self@.composition_objects[j].id != id,
                None => forall|j: int|
                    0 <= j < self@.composition_objects.len()
                        ==> self@.composition_objects[j].id != id,
            }),
    {
        let mut i: usize = 0;
        while i < self.composition_objects.len()
            invariant
                i <= self.composition_objects@.len(),
                forall|j: int| 0 <= j < i ==> self.composition_objects@[j].id != id,
            decreases self.composition_objects@.len() - i,
        {
            if self.composition_objects[i].id == id {
                return Some(&self.composition_objects[i]);
            }
            i += 1;
        }
        None
    }
}

/// The composition state that a state byte stands for.
pub open spec fn composition_state_of(byte: u8) -> Option<CompositionState> {
    if byte == 0x80 {
        Some(CompositionState::EpochStart)
    } else if byte == 0x40 {
        Some(CompositionState::AcquisitionPoint)
    } else if byte == 0x00 {
        Some(CompositionState::Normal)
    } else {
        None
    }
}

/// The meaning of a palette-update flag byte.
pub open spec fn palette_update_of(byte: u8) -> Option<bool> {
    if byte == 0x80 {
        Some(true)
    } else if byte == 0x00 {
        Some(false)
    } else {
        None
    }
}

/// The meaning of an object-cropped flag byte.
pub open spec fn cropped_of(byte: u8) -> Option<bool> {
    if byte == 0x40 {
        Some(true)
    } else if byte == 0x00 {
        Some(false)
    } else {
        None
    }
}

/// Whether the object entry at `i` carries a crop rectangle: its flag is
/// set and the payload does not end with the entry's eight fixed bytes.
pub open spec fn has_crop(s: Seq<u8>, i: int) -> bool {
    s[i + 3] == 0x40 && i + 8 < s.len()
}

/// The number of bytes that a complete object entry at `i` occupies.
pub open spec fn object_size(s: Seq<u8>, i: int) -> int {
    if has_crop(s, i) {
        16
    } else {
        8
    }
}

/// The object entry that starts at `i`.
pub open spec fn object_at(s: Seq<u8>, i: int) -> Result<CompositionObject, DecodeError> {
    if i + 4 > s.len() {
        Err(DecodeError::Truncated)
    } else if cropped_of(s[i + 3]) is None {
        Err(
            DecodeError::UnknownFlag {
                field: FlagField::ObjectCropped,
                byte: s[i + 3],
                offset: (i + 3) as usize,
            },
        )
    } else if i + object_size(s, i) > s.len() {
        Err(DecodeError::Truncated)
    } else {
        let crop = has_crop(s, i);
        Ok(
            CompositionObject {
                id: be16(s, i),
                window_id: s[i + 2],
                cropped: s[i + 3] == 0x40,
                x: be16(s, i + 4),
                y: be16(s, i + 6),
                crop_x: if crop { Some(be16(s, i + 8)) } else { None },
                crop_y: if crop { Some(be16(s, i + 10)) } else { None },
                crop_width: if crop { Some(be16(s, i + 12)) } else { None },
                crop_height: if crop { Some(be16(s, i + 14)) } else { None },
            },
        )
    }
}

/// The `n` object entries that follow each other from `i` on, or the error
/// of the first that fails.
pub open spec fn objects_from(s: Seq<u8>, i: int, n: nat) -> Result<
    Seq<CompositionObject>,
    DecodeError,
>
    decreases n,
{
    if n == 0 {
        Ok(Seq::empty())
    } else {
        match object_at(s, i) {
            Err(e) => Err(e),
            Ok(first) => match objects_from(s, i + object_size(s, i), (n - 1) as nat) {
                Err(e) => Err(e),
                Ok(rest) => Ok(seq![first] + rest),
            },
        }
    }
}

/// What a composition payload holds, or why it cannot be decoded.
pub open spec fn parse_composition(s: Seq<u8>) -> Result<CompositionModel, DecodeError> {
    if s.len() < 8 {
        Err(DecodeError::Truncated)
    } else if composition_state_of(s[7]) is None {
        Err(
            DecodeError::UnknownFlag {
                field: FlagField::CompositionState,
                byte: s[7],
                offset: 7,
            },
        )
    } else if s.len() < 9 {
        Err(DecodeError::Truncated)
    } else if palette_update_of(s[8]) is None {
        Err(DecodeError::UnknownFlag { field: FlagField::PaletteUpdate, byte: s[8], offset: 8 })
    } else if s.len() < 11 {
        Err(DecodeError::Truncated)
    } else {
        match objects_from(s, 11, s[10] as nat) {
            Err(e) => Err(e),
            Ok(objects) => Ok(
                CompositionModel {
                    comp_no: be16(s, 5),
                    comp_state: composition_state_of(s[7]).unwrap(),
                    num_comp_objects: s[10],
                    width: be16(s, 0),
                    height: be16(s, 2),
                    palette_id: s[9],
                    palette_update: s[8] == 0x80,
                    composition_objects: objects,
                },
            ),
        }
    }
}

/// Where `n` object entries decode, there are `n` of them.
pub proof fn lemma_objects_count(s: Seq<u8>, i: int, n: nat)
    ensures
        objects_from(s, i, n) is Ok ==> objects_from(s, i, n).unwrap().len() == n,
    decreases n,
{
    if n > 0 {
        lemma_objects_count(s, i + object_size(s, i), (n - 1) as nat);
    }
}

/// Every composition that a payload decodes to declares as many objects as
/// its list holds.
pub proof fn lemma_parsed_composition_well_formed(s: Seq<u8>)
    ensures
        parse_composition(s) is Ok ==> parse_composition(s).unwrap().well_formed(),
{
    if s.len() >= 11 {
        lemma_objects_count(s, 11, s[10] as nat);
    }
}

/// Decodes the object entry at `pos`.
fn decode_object(data: &[u8], pos: usize) -> (r: Result<CompositionObject, DecodeError>)
    requires
        pos <= data@.len(),
    ensures
        r == object_at(data@, pos as int),
        r is Ok ==> pos + object_size(data@, pos as int) <= data@.len(),
{
    let len = data.len();
    if len - pos < 4 {
        return Err(DecodeError::Truncated);
    }
    let id = u16_at(data, pos);
    let window_id = data[pos + 2];
    let flag = data[pos + 3];
    let cropped = if flag == 0x40 {
        true
    } else if flag == 0x00 {
        false
    } else {
        return Err(
            DecodeError::UnknownFlag {
                field: FlagField::ObjectCropped,
                byte: flag,
                offset: pos + 3,
            },
        );
    };
    if len - pos < 8 {
        return Err(DecodeError::Truncated);
    }
    let x = u16_at(data, pos + 4);
    let y = u16_at(data, pos + 6);
    // Real streams set the flag and then leave the rectangle out.
    let read_crop = cropped && len - pos > 8;
    if !read_crop {
        return Ok(
            CompositionObject {
                id,
                window_id,
                cropped,
                x,
                y,
                crop_x: None,
                crop_y: None,
                crop_width: None,
                crop_height: None,
            },
        );
    }
    if len - pos < 16 {
        return Err(DecodeError::Truncated);
    }
    Ok(
        CompositionObject {
            id,
            window_id,
            cropped,
            x,
            y,
            crop_x: Some(u16_at(data, pos + 8)),
            crop_y: Some(u16_at(data, pos + 10)),
            crop_width: Some(u16_at(data, pos + 12)),
            crop_height: Some(u16_at(data, pos + 14)),
        },
    )
}

/// Decodes a composition payload. The result is exactly what
/// `parse_composition` says of the bytes: the composition, with as many
/// objects as it declares, or the first error met when reading front to
/// back.
pub fn decode_pcs(data: &[u8]) -> (r: Result<PresentationComposition, DecodeError>)
    ensures
        (match parse_composition(data@) {
            Ok(model) => r is Ok && r->Ok_0@ == model,
            Err(e) => r is Err && r->Err_0 == e,
        }),
        r is Ok ==> r->Ok_0@.well_formed(),
{
    let len = data.len();
    if len < 8 {
        return Err(DecodeError::Truncated);
    }
    let width = u16_at(data, 0);
    let height = u16_at(data, 2);
    let comp_no = u16_at(data, 5);
    let state_byte = data[7];
    let comp_state = if state_byte == 0x80 {
        CompositionState::EpochStart
    } else if state_byte == 0x40 {
        CompositionState::AcquisitionPoint
    } else if state_byte == 0x00 {
        CompositionState::Normal
    } else {
        return Err(
            DecodeError::UnknownFlag {
                field: FlagField::CompositionState,
                byte: state_byte,
                offset: 7,
            },
        );
    };
    if len < 9 {
        return Err(DecodeError::Truncated);
    }
    let update_byte = data[8];
    let palette_update = if update_byte == 0x00 {
        false
    } else if update_byte == 0x80 {
        true
    } else {
        return Err(
            DecodeError::UnknownFlag {
                field: FlagField::PaletteUpdate,
                byte: update_byte,
                offset: 8,
            },
        );
    };
    if len < 11 {
        return Err(DecodeError::Truncated);
    }
    let palette_id = data[9];
    let num_comp_objects = data[10];

    let mut composition_objects: Vec<CompositionObject> = Vec::new();
    let mut pos: usize = 11;
    let mut done: u8 = 0;
    while done < num_comp_objects
        invariant
            done <= num_comp_objects,
            len == data@.len(),
            len >= 11,
            num_comp_objects == data@[10],
            composition_state_of(data@[7]) is Some,
            palette_update_of(data@[8]) is Some,
            pos <= len,
            composition_objects@.len() == done,
            objects_from(data@, 11, num_comp_objects as nat) == match objects_from(
                data@,
                pos as int,
                (num_comp_objects - done) as nat,
            ) {
                Ok(rest) => Ok::<Seq<CompositionObject>, DecodeError>(composition_objects@ + rest),
                Err(e) => Err(e),
            },
        decreases num_comp_objects - done,
    {
        let ghost before = composition_objects@;
        let ghost start = pos as int;
        match decode_object(data, pos) {
            Err(e) => {
                return Err(e);
            },
            Ok(object) => {
                let size: usize = if object.crop_x.is_some() {
                    16
                } else {
                    8
                };
                composition_objects.push(object);
                pos += size;
                done += 1;
                proof {
                    let rest = objects_from(
                        data@,
                        pos as int,
                        (num_comp_objects - done) as nat,
                    );
                    if rest is Ok {
                        assert(before + (seq![object] + rest.unwrap()) == before.push(object)
                            + rest.unwrap());
                    }
                }
            },
        }
    }
    assert(composition_objects@ + Seq::<CompositionObject>::empty() == composition_objects@);
    Ok(
        PresentationComposition {
            comp_no,
            comp_state,
            num_comp_objects,
            width,
            height,
            palette_id,
            palette_update,
            composition_objects,
        },
    )
}

} // verus!
