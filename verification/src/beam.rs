//! Where the ULA's beam is drawn over the picture.
use vstd::prelude::*;

verus! {

/// The moment of the frame a pixel is painted at, held within the frame:
/// before the frame starts is its first T-state, after it ends its last.
pub open spec fn held_in_frame(t: i64, frame_t: u32) -> int {
    if t < 0 {
        0
    } else if t > frame_t - 1 {
        frame_t - 1
    } else {
        t as int
    }
}

/// The T-state of the frame the beam is at when it paints the pixel that
/// `t` was worked out for, kept within a frame `frame_t` T-states long.
pub fn beam_at(t: i64, frame_t: u32) -> (r: u32)
    requires
        frame_t >= 1,
    ensures
        r == held_in_frame(t, frame_t),
{
    let last: i64 = frame_t as i64 - 1;
    if t < 0 {
        0
    } else if t > last {
        last as u32
    } else {
        t as u32
    }
}

} // verus!
