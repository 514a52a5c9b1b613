//! Run-length codec of object bitmaps.
//!
//! | bytes                                 | pixels                        |
//! |---------------------------------------|-------------------------------|
//! | `CCCCCCCC` (not zero)                 | one pixel of colour C         |
//! | `00000000 00LLLLLL`                   | L pixels of colour 0          |
//! | `00000000 01LLLLLL LLLLLLLL`          | L pixels of colour 0          |
//! | `00000000 10LLLLLL CCCCCCCC`          | L pixels of colour C          |
//! | `00000000 11LLLLLL LLLLLLLL CCCCCCCC` | L pixels of colour C          |
//! | `00000000 00000000`                   | end of line, no pixel         |

use vstd::array::array_as_slice;
use vstd::prelude::*;

use crate::bytes::u16_at;
use crate::error::DecodeError;

verus! {

/// Bit 7 of an info byte: an explicit colour byte closes the code.
pub open spec fn color_flag(info: u8) -> bool {
    info >= 0x80
}

/// Bit 6 of an info byte: the run length takes a second byte.
pub open spec fn long_flag(info: u8) -> bool {
    (info as int / 0x40) % 2 == 1
}

/// The number of bytes that the code starting at `i` occupies. A zero byte
/// that ends the input counts as two: its info byte is missing.
pub open spec fn code_size(s: Seq<u8>, i: int) -> int {
    if s[i] != 0 || i + 1 >= s.len() || s[i + 1] == 0 {
        if s[i] != 0 { 1 } else { 2 }
    } else {
        2 + (if long_flag(s[i + 1]) {
            1int
        } else {
            0
        }) + (if color_flag(s[i + 1]) {
            1int
        } else {
            0
        })
    }
}

/// The run length of the escaped code at `i`, whose info byte is `s[i + 1]`.
pub open spec fn run_length(s: Seq<u8>, i: int) -> int {
    if long_flag(s[i + 1]) {
        (s[i + 1] as int % 0x40) * 0x100 + s[i + 2] as int
    } else {
        s[i + 1] as int % 0x40
    }
}

/// The colour of the escaped code at `i`: its last byte where the colour
/// flag is set, else colour 0.
pub open spec fn run_color(s: Seq<u8>, i: int) -> u8 {
    if color_flag(s[i + 1]) {
        s[i + code_size(s, i) - 1]
    } else {
        0
    }
}

/// The pixels that the complete code starting at `i` stands for.
pub open spec fn code_pixels(s: Seq<u8>, i: int) -> Seq<u8> {
    if s[i] != 0 {
        seq![s[i]]
    } else if s[i + 1] == 0 {
        Seq::empty()
    } else {
        Seq::new(run_length(s, i) as nat, |k: int| run_color(s, i))
    }
}

/// The pixels encoded by `s` from position `i` to its end, or `None` when
/// the last code is cut short.
pub open spec fn rle_pixels(s: Seq<u8>, i: int) -> Option<Seq<u8>>
    decreases s.len() - i,
{
    if i < 0 || i >= s.len() {
        Some(Seq::empty())
    } else if i + code_size(s, i) > s.len() {
        None
    } else {
        match rle_pixels(s, i + code_size(s, i)) {
            Some(rest) => Some(code_pixels(s, i) + rest),
            None => None,
        }
    }
}

/// Whether bit 7 of `byte` is set.
pub fn is_color(byte: u8) -> (r: bool)
    ensures
        r == color_flag(byte),
{
    assert((byte >> 7 == 1) == (byte >= 0x80)) by (bit_vector);
    byte >> 7 == 1
}

/// Whether bit 6 of `byte` is set.
pub fn is_long(byte: u8) -> (r: bool)
    ensures
        r == long_flag(byte),
{
    assert(((byte & 0b0100_0000) >> 6 == 1) == ((byte / 0x40) % 2 == 1)) by (bit_vector);
    (byte & 0b0100_0000) >> 6 == 1
}

/// Appends `count` pixels of `color` to `out`.
fn push_run(out: &mut Vec<u8>, count: u16, color: u8)
    ensures
        final(out)@ == old(out)@ + Seq::new(count as nat, |k: int| color),
{
    let ghost before = out@;
    let mut k: u16 = 0;
    while k < count
        invariant
            k <= count,
            out@ == before + Seq::new(k as nat, |j: int| color),
        decreases count - k,
    {
        out.push(color);
        k += 1;
        assert(out@ == before + Seq::new(k as nat, |j: int| color));
    }
}

/// Decodes a run-length coded bitmap into its flat sequence of palette
/// indices. End-of-line markers leave no trace in the output. A code that
/// runs past the end of `data` is a truncation error.
pub fn decode_rle(data: &[u8]) -> (r: Result<Vec<u8>, DecodeError>)
    ensures
        (match rle_pixels(data@, 0) {
            Some(pixels) => r is Ok && r->Ok_0@ == pixels,
            None => r == Err::<Vec<u8>, DecodeError>(DecodeError::Truncated),
        }),
{
    let mut output: Vec<u8> = Vec::new();
    let mut pos: usize = 0;
    while pos < data.len()
        invariant
            pos <= data@.len(),
            rle_pixels(data@, 0) == match rle_pixels(data@, pos as int) {
                Some(rest) => Some(output@ + rest),
                None => None,
            },
        decreases data@.len() - pos,
    {
        let ghost start = pos as int;
        let ghost before = output@;
        let first = data[pos];
        if first != 0 {
            output.push(first);
            pos += 1;
            proof {
                let rest = rle_pixels(data@, pos as int);
                if rest is Some {
                    assert(before + (seq![first] + rest.unwrap()) == before.push(first)
                        + rest.unwrap());
                }
            }
            continue ;
        }
        if pos + 1 >= data.len() {
            return Err(DecodeError::Truncated);
        }
        let info = data[pos + 1];
        if info == 0 {
            pos += 2;
            proof {
                let rest = rle_pixels(data@, pos as int);
                if rest is Some {
                    assert(Seq::<u8>::empty() + rest.unwrap() == rest.unwrap());
                }
            }
            continue ;
        }
        let with_color = is_color(info);
        let long = is_long(info);
        let low = info & 0b0011_1111;
        assert(low == info % 0x40) by (bit_vector)
            requires
                low == info & 0b0011_1111,
        ;
        let mut next: usize = pos + 2;
        let len: u16 = if long {
            if next >= data.len() {
                return Err(DecodeError::Truncated);
            }
            let len = combine(low, data[next]);
            next += 1;
            len
        } else {
            low as u16
        };
        let color: u8 = if with_color {
            if next >= data.len() {
                return Err(DecodeError::Truncated);
            }
            let color = data[next];
            next += 1;
            color
        } else {
            0
        };
        assert(next == start + code_size(data@, start));
        assert(len == run_length(data@, start));
        assert(color == run_color(data@, start));
        push_run(&mut output, len, color);
        pos = next;
        proof {
            let rest = rle_pixels(data@, pos as int);
            if rest is Some {
                assert(before + (code_pixels(data@, start) + rest.unwrap()) == output@
                    + rest.unwrap());
            }
        }
    }
    assert(output@ + Seq::<u8>::empty() == output@);
    Ok(output)
}

/// The big-endian number made of `high` and `low`.
fn combine(high: u8, low: u8) -> (r: u16)
    ensures
        r == high as int * 0x100 + low as int,
{
    let pair: [u8; 2] = [high, low];
    u16_at(array_as_slice(&pair), 0)
}

} // verus!
