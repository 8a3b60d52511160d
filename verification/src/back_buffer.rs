//! Back buffers: a screen built somewhere other than video RAM before it is
//! copied across, found by watching writes or set by hand.
use vstd::prelude::*;
use crate::debugger::{typed_address, typed_spec};
use crate::text::{hex4, push_hex4, push_str};

verus! {

/// Bytes in a Spectrum screen: the bitmap and the attributes.
pub const SCREEN_BYTES: u16 = 6912;

/// A stretch of the address space.
#[derive(Clone, Copy, Debug, PartialEq, Eq, Structural)]
pub struct Region {
    pub start: u16,
    pub len: u16,
}

/// The back buffer set by hand: a whole screen at the address typed, if one
/// was.
pub fn manual_region(text: &str) -> (r: Option<Region>)
    ensures
        r == match typed_spec(text@) {
            Some(a) => Some(Region { start: a, len: SCREEN_BYTES }),
            None => None,
        },
{
    match typed_address(text) {
        Some(a) => Some(Region { start: a, len: SCREEN_BYTES }),
        None => None,
    }
}

/// The last address a region takes in.
pub fn region_last(r: Region) -> (last: u32)
    requires
        r.start + r.len >= 1,
    ensures
        last == r.start + r.len - 1,
{
    r.start as u32 + r.len as u32 - 1
}

/// What the preview says it is showing.
pub open spec fn preview_text(start: u16) -> Seq<char> {
    "Previewing $"@ + hex4(start) + " as a 6912-byte screen"@
}

pub fn preview_line(start: u16) -> (r: String)
    ensures
        r@ == preview_text(start),
{
    let mut s = String::new();
    push_str(&mut s, "Previewing $");
    push_hex4(&mut s, start);
    push_str(&mut s, " as a 6912-byte screen");
    assert(s@ =~= preview_text(start));
    s
}

/// Whether flashing attributes are in their swapped phase in frame `frame`:
/// they swap every sixteen frames.
pub fn flash_phase(frame: u64) -> (r: bool)
    ensures
        r == ((frame / 16) % 2 == 1),
{
    (frame / 16) % 2 == 1
}

} // verus!
