//! Colour resolution: from a palette index to red, green, blue and alpha.
//!
//! Luminance and colour differences are limited-range BT.601 values. The
//! conversion is the usual one,
//!
//! ```text
//! R = 1.164 (Y - 16) + 1.596 (Cr - 128)
//! G = 1.164 (Y - 16) - 0.392 (Cb - 128) - 0.813 (Cr - 128)
//! B = 1.164 (Y - 16) + 2.017 (Cb - 128)
//! ```
//!
//! clamped to the range of an 8-bit channel. It is carried out exactly, in
//! thousandths of a level, so that a channel runs from 0 to 255 000 and
//! its normalised value is the channel divided by 255 000.

use vstd::prelude::*;

use crate::decode::pds::{PaletteDefinition, PaletteEntry};

verus! {

/// The value of a fully lit channel.
pub const FULL_LEVEL: u32 = 255_000;

/// A colour; each channel in thousandths of an 8-bit level.
#[derive(Debug, Clone, Copy, PartialEq, Eq)]
pub struct Rgba {
    pub red: u32,
    pub green: u32,
    pub blue: u32,
    pub alpha: u32,
}

/// `v` brought into the range of a channel.
pub open spec fn clamp_level(v: int) -> int {
    if v < 0 {
        0
    } else if v > 255_000 {
        255_000
    } else {
        v
    }
}

/// The red channel of an entry, not yet clamped.
pub open spec fn raw_red(e: PaletteEntry) -> int {
    1164 * (e.y - 16) + 1596 * (e.cr - 128)
}

/// The green channel of an entry, not yet clamped.
pub open spec fn raw_green(e: PaletteEntry) -> int {
    1164 * (e.y - 16) - 392 * (e.cb - 128) - 813 * (e.cr - 128)
}

/// The blue channel of an entry, not yet clamped.
pub open spec fn raw_blue(e: PaletteEntry) -> int {
    1164 * (e.y - 16) + 2017 * (e.cb - 128)
}

/// The colour of a palette entry.
pub open spec fn entry_color(e: PaletteEntry) -> Rgba {
    Rgba {
        red: clamp_level(raw_red(e)) as u32,
        green: clamp_level(raw_green(e)) as u32,
        blue: clamp_level(raw_blue(e)) as u32,
        alpha: (e.alpha * 1000) as u32,
    }
}

/// Opaque black: what index 0 shows.
pub open spec fn black() -> Rgba {
    Rgba { red: 0, green: 0, blue: 0, alpha: 255_000 }
}

/// Nothing: what an index shows that the palette does not define.
pub open spec fn transparent() -> Rgba {
    Rgba { red: 0, green: 0, blue: 0, alpha: 0 }
}

/// Whether `i` is the first entry of `entries` with the id `id`.
pub open spec fn is_first_with_id(entries: Seq<PaletteEntry>, id: u8, i: int) -> bool {
    0 <= i < entries.len() && entries[i].id == id && forall|j: int|
        0 <= j < i ==> entries[j].id != id
}

/// Brings an intermediate value into the range of a channel.
fn clamp(v: i32) -> (r: u32)
    ensures
        r == clamp_level(v as int),
        r <= FULL_LEVEL,
{
    if v < 0 {
        0
    } else if v > 255_000 {
        FULL_LEVEL
    } else {
        v as u32
    }
}

impl PaletteEntry {
    /// The colour of this entry. No channel exceeds `FULL_LEVEL`.
    pub fn rgba(&self) -> (c: Rgba)
        ensures
            c == entry_color(*self),
            c.red <= FULL_LEVEL && c.green <= FULL_LEVEL && c.blue <= FULL_LEVEL && c.alpha
                <= FULL_LEVEL,
    {
        let y: i32 = self.y as i32 - 16;
        let cb: i32 = self.cb as i32 - 128;
        let cr: i32 = self.cr as i32 - 128;
        Rgba {
            red: clamp(1164 * y + 1596 * cr),
            green: clamp(1164 * y - 392 * cb - 813 * cr),
            blue: clamp(1164 * y + 2017 * cb),
            alpha: self.alpha as u32 * 1000,
        }
    }
}

impl PaletteDefinition {
    /// The colour that a pixel of index `index` has under this palette:
    /// opaque black for index 0, the colour of the first entry with that
    /// id for an index that the palette defines, and full transparency for
    /// any other.
    pub fn color_of(&self, index: u8) -> (c: Rgba)
        ensures
            index == 0 ==> c == black(),
            index != 0 && (forall|j: int|
                0 <= j < self@.entries.len() ==> self@.entries[j].id != index) ==> c
                == transparent(),
            forall|i: int|
                index != 0 && is_first_with_id(self@.entries, index, i) ==> c == entry_color(
                    self@.entries[i],
                ),
    {
        if index == 0 {
            return Rgba { red: 0, green: 0, blue: 0, alpha: FULL_LEVEL };
        }
        match self.find_by_id(index) {
            Some(entry) => {
                let c = entry.rgba();
                assert forall|i: int| is_first_with_id(self@.entries, index, i) implies c
                    == entry_color(self@.entries[i]) by {
                    let k = choose|k: int|
                        0 <= k < self@.entries.len() && *entry == self@.entries[k] && entry.id
                            == index && forall|j: int| 0 <= j < k ==> self@.entries[j].id != index;
                    assert(i == k);
                }
                c
            },
            None => Rgba { red: 0, green: 0, blue: 0, alpha: 0 },
        }
    }
}

} // verus!
