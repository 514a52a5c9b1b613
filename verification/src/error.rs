//! Errors of the decoding pipeline and their classification.

use vstd::prelude::*;

verus! {

/// The flag byte whose value was not one of the allowed constants.
#[derive(Clone, Copy, Debug, PartialEq, Eq, Structural)]
pub enum FlagField {
    CompositionState,
    PaletteUpdate,
    ObjectCropped,
    SequenceFlag,
}

/// The three classes of failure a caller may want to treat differently.
#[derive(Clone, Copy, Debug, PartialEq, Eq, Structural)]
pub enum ErrorKind {
    /// The envelope of a segment is broken; the stream cannot be trusted.
    Framing,
    /// A flag byte inside a payload holds a value outside its enumeration.
    Field,
    /// The payload parses, but its declared sizes contradict each other.
    Integrity,
}

/// Why a payload or a stream could not be decoded.
#[derive(Clone, Copy, Debug, PartialEq, Eq, Structural)]
pub enum DecodeError {
    /// A read would have gone past the end of the buffer.
    Truncated,
    /// A segment does not begin with the two magic bytes.
    BadMagic,
    /// The segment type byte is none of the five known ones.
    UnknownSegmentType { byte: u8 },
    /// A flag byte at `offset` (counted from the start of the payload) holds
    /// a value that `field` does not allow.
    UnknownFlag { field: FlagField, byte: u8, offset: usize },
    /// A palette payload of `len` bytes leaves, after its two header bytes,
    /// a remainder that is no multiple of five.
    PaletteLength { len: usize },
    /// An object declares `declared` bytes of data (width and height
    /// included) but carries `actual` bytes after its header.
    ObjectDataLength { declared: u32, actual: usize },
    /// An object's bitmap decodes to `actual` pixels where width times
    /// height asks for `expected`.
    ObjectSize { expected: u32, actual: usize },
}

impl DecodeError {
    /// The class of this error.
    pub open spec fn kind_spec(self) -> ErrorKind {
        match self {
            DecodeError::Truncated => ErrorKind::Framing,
            DecodeError::BadMagic => ErrorKind::Framing,
            DecodeError::UnknownSegmentType { .. } => ErrorKind::Framing,
            DecodeError::UnknownFlag { .. } => ErrorKind::Field,
            DecodeError::PaletteLength { .. } => ErrorKind::Integrity,
            DecodeError::ObjectDataLength { .. } => ErrorKind::Integrity,
            DecodeError::ObjectSize { .. } => ErrorKind::Integrity,
        }
    }

    /// The class of this error.
    pub fn kind(&self) -> (k: ErrorKind)
        ensures
            k == self.kind_spec(),
    {
        match self {
            DecodeError::Truncated => ErrorKind::Framing,
            DecodeError::BadMagic => ErrorKind::Framing,
            DecodeError::UnknownSegmentType { .. } => ErrorKind::Framing,
            DecodeError::UnknownFlag { .. } => ErrorKind::Field,
            DecodeError::PaletteLength { .. } => ErrorKind::Integrity,
            DecodeError::ObjectDataLength { .. } => ErrorKind::Integrity,
            DecodeError::ObjectSize { .. } => ErrorKind::Integrity,
        }
    }
}

} // verus!
