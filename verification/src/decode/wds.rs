//! Window definition segment: a count byte, then for each window its id
//! (1), x (2), y (2), width (2) and height (2).

use vstd::prelude::*;

use crate::bytes::{be16, u16_at};
use crate::error::DecodeError;

verus! {

/// A rectangle of the screen in which objects are shown.
#[derive(Debug, Clone, Copy, PartialEq, Eq)]
pub struct WindowDefinition {
    pub id: u8,
    pub x: u16,
    pub y: u16,
    pub width: u16,
    pub height: u16,
}

impl WindowDefinition {
    pub fn new(id: u8, x: u16, y: u16, width: u16, height: u16) -> (w: Self)
        ensures
            w == (WindowDefinition { id, x, y, width, height }),
    {
        Self { id, x, y, width, height }
    }
}

/// The window whose nine bytes start at `i`.
pub open spec fn window_at(s: Seq<u8>, i: int) -> WindowDefinition {
    WindowDefinition {
        id: s[i],
        x: be16(s, i + 1),
        y: be16(s, i + 3),
        width: be16(s, i + 5),
        height: be16(s, i + 7),
    }
}

/// The windows that a window payload defines: as many as its first byte
/// says, nine bytes each, or a truncation where the payload is shorter.
pub open spec fn parse_windows(s: Seq<u8>) -> Result<Seq<WindowDefinition>, DecodeError> {
    if s.len() < 1 || s.len() < 1 + 9 * s[0] {
        Err(DecodeError::Truncated)
    } else {
        Ok(Seq::new(s[0] as nat, |k: int| window_at(s, 1 + 9 * k)))
    }
}

/// Decodes a window payload into its windows, in the order of the payload.
/// Bytes after the last declared window are ignored.
pub fn decode_wds(data: &[u8]) -> (r: Result<Vec<WindowDefinition>, DecodeError>)
    ensures
        (match parse_windows(data@) {
            Ok(windows) => r is Ok && r->Ok_0@ == windows,
            Err(e) => r is Err && r->Err_0 == e,
        }),
{
    let len = data.len();
    if len < 1 {
        return Err(DecodeError::Truncated);
    }
    let num_windows = data[0];
    if (len - 1) / 9 < num_windows as usize {
        return Err(DecodeError::Truncated);
    }
    let mut windows: Vec<WindowDefinition> = Vec::new();
    let mut i: u8 = 0;
    while i < num_windows
        invariant
            i <= num_windows,
            len == data@.len(),
            1 + 9 * num_windows <= len,
            windows@ == Seq::new(i as nat, |k: int| window_at(data@, 1 + 9 * k)),
        decreases num_windows - i,
    {
        let pos: usize = 1 + 9 * (i as usize);
        let id = data[pos];
        let x = u16_at(data, pos + 1);
        let y = u16_at(data, pos + 3);
        let width = u16_at(data, pos + 5);
        let height = u16_at(data, pos + 7);
        windows.push(WindowDefinition::new(id, x, y, width, height));
        i += 1;
        assert(windows@ == Seq::new(i as nat, |k: int| window_at(data@, 1 + 9 * k)));
    }
    Ok(windows)
}

} // verus!
