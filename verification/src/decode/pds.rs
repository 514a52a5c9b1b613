//! Palette definition segment: palette id (1), version (1), then entries
//! of five bytes each: entry id, luminance, red difference, blue
//! difference, alpha.

use vstd::prelude::*;

use crate::error::{DecodeError, ErrorKind};

verus! {

/// One colour of a palette.
#[derive(Debug, Clone, Copy, PartialEq, Eq)]
pub struct PaletteEntry {
    pub id: u8,
    /// Luminance (Y).
    pub y: u8,
    /// Colour difference red (Cr).
    pub cr: u8,
    /// Colour difference blue (Cb).
    pub cb: u8,
    /// Opacity; 0 is fully transparent.
    pub alpha: u8,
}

#[derive(Debug, Clone)]
pub struct PaletteDefinition {
    pub id: u8,
    pub version: u8,
    pub entries: Vec<PaletteEntry>,
}

/// What a `PaletteDefinition` holds, as a mathematical value.
pub struct PaletteModel {
    pub id: u8,
    pub version: u8,
    pub entries: Seq<PaletteEntry>,
}

impl View for PaletteDefinition {
    type V = PaletteModel;

    open spec fn view(&self) -> PaletteModel {
        PaletteModel { id: self.id, version: self.version, entries: self.entries@ }
    }
}

impl PaletteEntry {
    pub fn new(id: u8, y: u8, cr: u8, cb: u8, alpha: u8) -> (e: Self)
        ensures
            e == (PaletteEntry { id, y, cr, cb, alpha }),
    {
        Self { id, y, cr, cb, alpha }
    }
}

impl PaletteDefinition {
    /// The first entry whose id is `id`, or `None` where the palette does
    /// not define that index.
    pub fn find_by_id(&self, id: u8) -> (r: Option<&PaletteEntry>)
        ensures
            (match r {
                Some(entry) => exists|i: int|
                    0 <= i < self@.entries.len() && *entry == self@.entries[i] && entry.id == id
                        && forall|j: int| 0 <= j < i ==> self@.entries[j].id != id,
                None => forall|j: int| 0 <= j < self@.entries.len() ==> self@.entries[j].id != id,
            }),
    {
        let mut i: usize = 0;
        while i < self.entries.len()
            invariant
                i <= self.entries@.len(),
                forall|j: int| 0 <= j < i ==> self.entries@[j].id != id,
            decreases self.entries@.len() - i,
        {
            if self.entries[i].id == id {
                assert(self@.entries[i as int] == self.entries@[i as int]);
                return Some(&self.entries[i]);
            }
            i += 1;
        }
        None
    }
}

/// The palette entry whose five bytes start at `i`.
pub open spec fn entry_at(s: Seq<u8>, i: int) -> PaletteEntry {
    PaletteEntry { id: s[i], y: s[i + 1], cr: s[i + 2], cb: s[i + 3], alpha: s[i + 4] }
}

/// Whether a payload of `len` bytes is two header bytes followed by whole
/// entries of five bytes.
pub open spec fn palette_length_ok(len: nat) -> bool {
    (len - 2) % 5 == 0
}

/// What a palette payload holds. After the two header bytes the payload
/// must divide into groups of five; any other length is an integrity error
/// and no entry is given out.
pub open spec fn parse_palette(s: Seq<u8>) -> Result<PaletteModel, DecodeError> {
    if !palette_length_ok(s.len()) {
        Err(DecodeError::PaletteLength { len: s.len() as usize })
    } else {
        Ok(
            PaletteModel {
                id: s[0],
                version: s[1],
                entries: Seq::new(((s.len() - 2) / 5) as nat, |k: int| entry_at(s, 2 + 5 * k)),
            },
        )
    }
}

/// A palette payload decodes exactly when its length less two is a
/// multiple of five. It then yields one entry for every five bytes, so
/// that no byte is left over; any other length is reported as an integrity
/// error that names the length.
pub proof fn lemma_palette_length(s: Seq<u8>)
    ensures
        parse_palette(s) is Ok <==> (s.len() - 2) % 5 == 0,
        parse_palette(s) is Ok ==> 2 + 5 * parse_palette(s).unwrap().entries.len() == s.len(),
        parse_palette(s) is Err ==> parse_palette(s) == Err::<PaletteModel, DecodeError>(
            DecodeError::PaletteLength { len: s.len() as usize },
        ) && parse_palette(s)->Err_0.kind_spec() == ErrorKind::Integrity,
{
}

/// Decodes a palette payload. It succeeds exactly on the payloads whose
/// length less two is a multiple of five, and then gives every entry, in
/// order; on any other length it fails with `PaletteLength`.
pub fn decode_pds(data: &[u8]) -> (r: Result<PaletteDefinition, DecodeError>)
    ensures
        (match parse_palette(data@) {
            Ok(model) => r is Ok && r->Ok_0@ == model,
            Err(e) => r is Err && r->Err_0 == e,
        }),
        r is Ok <==> (data@.len() - 2) % 5 == 0,
        r is Ok ==> 2 + 5 * r->Ok_0@.entries.len() == data@.len(),
        r is Err ==> r->Err_0 == (DecodeError::PaletteLength { len: data@.len() as usize }),
{
    let len = data.len();
    if len < 2 || (len - 2) % 5 != 0 {
        return Err(DecodeError::PaletteLength { len });
    }
    let palette_id = data[0];
    let version = data[1];
    let num_entries = (len - 2) / 5;
    let mut entries: Vec<PaletteEntry> = Vec::new();
    let mut i: usize = 0;
    while i < num_entries
        invariant
            i <= num_entries,
            len == data@.len(),
            2 + 5 * num_entries == len,
            entries@ == Seq::new(i as nat, |k: int| entry_at(data@, 2 + 5 * k)),
        decreases num_entries - i,
    {
        let pos: usize = 2 + 5 * i;
        let id = data[pos];
        let y = data[pos + 1];
        let cr = data[pos + 2];
        let cb = data[pos + 3];
        let alpha = data[pos + 4];
        entries.push(PaletteEntry::new(id, y, cr, cb, alpha));
        i += 1;
        assert(entries@ == Seq::new(i as nat, |k: int| entry_at(data@, 2 + 5 * k)));
    }
    Ok(PaletteDefinition { id: palette_id, version, entries })
}

} // verus!
