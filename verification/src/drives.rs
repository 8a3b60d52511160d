//! What the disk and microdrive windows say of the drives: which microdrive
//! is running, the lines under a cartridge, and which sectors of the disk
//! have been touched lately.
use vstd::prelude::*;
use crate::text::{decimal, push_decimal, push_str};

verus! {

/// Whether a microdrive's tape is running: the motor is on and the
/// interface has selected it, counting drives from one.
pub fn drive_running(motor_on: bool, selected: usize, drive: usize) -> (r: bool)
    ensures
        r == (motor_on && selected == drive + 1),
{
    motor_on && drive < usize::MAX && selected == drive + 1
}

/// The line beside a microdrive's lamp.
pub open spec fn drive_text(drive: nat, loaded: bool, running: bool, sector: nat) -> Seq<char> {
    "Drive "@ + decimal(drive + 1) + if !loaded {
        " \u{2014} empty"@
    } else if running {
        " \u{2014} running, sector "@ + decimal(sector)
    } else {
        Seq::<char>::empty()
    }
}

pub fn drive_line(drive: usize, loaded: bool, running: bool, sector: usize) -> (r: String)
    requires
        drive < usize::MAX,
    ensures
        r@ == drive_text(drive as nat, loaded, running, sector as nat),
{
    let mut s = String::new();
    push_str(&mut s, "Drive ");
    push_decimal(&mut s, (drive + 1) as u64);
    if !loaded {
        push_str(&mut s, " \u{2014} empty");
    } else if running {
        push_str(&mut s, " \u{2014} running, sector ");
        push_decimal(&mut s, sector as u64);
    }
    assert(s@ =~= drive_text(drive as nat, loaded, running, sector as nat));
    s
}

/// The line under a cartridge: what is on it, whether it is protected, and
/// whether it has changed since it was last written.
pub open spec fn cartridge_text(what: Seq<char>, writable: bool, changed: bool) -> Seq<char> {
    what + (if writable {
        Seq::<char>::empty()
    } else {
        ", read-only"@
    }) + (if changed {
        " \u{2022} changed"@
    } else {
        Seq::<char>::empty()
    })
}

pub fn cartridge_line(what: &str, writable: bool, changed: bool) -> (r: String)
    ensures
        r@ == cartridge_text(what@, writable, changed),
{
    let mut s = String::new();
    push_str(&mut s, what);
    if !writable {
        push_str(&mut s, ", read-only");
    }
    if changed {
        push_str(&mut s, " \u{2022} changed");
    }
    assert(s@ =~= cartridge_text(what@, writable, changed));
    s
}

/// The most sectors any of the first `n` tracks has.
pub open spec fn most_sectors(counts: Seq<usize>, n: int) -> nat
    decreases n,
{
    if n <= 0 {
        0
    } else {
        let rest = most_sectors(counts, n - 1);
        if counts[n - 1] > rest {
            counts[n - 1] as nat
        } else {
            rest
        }
    }
}

/// How the platter is divided: at least one ring, and as many wedges as the
/// fullest track has sectors, nine where the disk has no tracks, and at
/// least one.
pub open spec fn platter_shape(tracks_per_side: usize, counts: Seq<usize>) -> (nat, nat) {
    (
        if tracks_per_side == 0 {
            1
        } else {
            tracks_per_side as nat
        },
        if counts.len() == 0 {
            9
        } else if most_sectors(counts, counts.len() as int) == 0 {
            1
        } else {
            most_sectors(counts, counts.len() as int)
        },
    )
}

/// How many rings and wedges the platter is drawn with, given how many
/// sectors each track has.
pub fn platter_geometry(tracks_per_side: usize, counts: &Vec<usize>) -> (r: (usize, usize))
    ensures
        (r.0 as nat, r.1 as nat) == platter_shape(tracks_per_side, counts@),
{
    let tracks: usize = if tracks_per_side == 0 {
        1
    } else {
        tracks_per_side
    };
    if counts.len() == 0 {
        return (tracks, 9);
    }
    let mut most: usize = 0;
    let mut i: usize = 0;
    while i < counts.len()
        invariant
            i <= counts.len(),
            most == most_sectors(counts@, i as int),
        decreases counts.len() - i,
    {
        if counts[i] > most {
            most = counts[i];
        }
        i = i + 1;
    }
    if most == 0 {
        (tracks, 1)
    } else {
        (tracks, most)
    }
}

/// Where the sector with id `r` is on its track, by position; the first if
/// two share an id.
pub open spec fn position_of(ids: Seq<u8>, r: u8) -> Option<int>
    decreases ids.len(),
{
    if ids.len() == 0 {
        None
    } else {
        match position_of(ids.drop_last(), r) {
            Some(i) => Some(i),
            None => if ids.last() == r {
                Some(ids.len() - 1)
            } else {
                None
            },
        }
    }
}

fn find_id(ids: &Vec<u8>, r: u8) -> (k: Option<usize>)
    ensures
        match position_of(ids@, r) {
            Some(i) => k == Some(i as usize),
            None => k is None,
        },
{
    let mut i: usize = 0;
    while i < ids.len()
        invariant
            i <= ids.len(),
            position_of(ids@.take(i as int), r) is None,
        decreases ids.len() - i,
    {
        assert(ids@.take(i + 1).drop_last() =~= ids@.take(i as int));
        if ids[i] == r {
            assert(position_of(ids@.take(i + 1), r) == Some(i as int));
            proof {
                lemma_position_prefix(ids@, i + 1, r);
            }
            return Some(i);
        }
        i = i + 1;
    }
    assert(ids@.take(ids.len() as int) =~= ids@);
    None
}

/// A position found in a prefix is the position in the whole.
proof fn lemma_position_prefix(ids: Seq<u8>, n: int, r: u8)
    requires
        0 <= n <= ids.len(),
        position_of(ids.take(n), r) is Some,
    ensures
        position_of(ids, r) == position_of(ids.take(n), r),
    decreases ids.len() - n,
{
    if n < ids.len() {
        assert(ids.take(n + 1).drop_last() =~= ids.take(n));
        lemma_position_prefix(ids, n + 1, r);
    } else {
        assert(ids.take(n) =~= ids);
    }
}

/// A sector touched lately: its track and side, its id, and how warm it
/// still is.
pub type Touch = (u8, u8, u8, u8);

/// The wedges to light for sectors touched lately, from the `i`th on: only
/// the first side is drawn, and a sector is placed by where its id is on
/// its track. Touches of tracks or ids the disk has not got are passed
/// over.
pub open spec fn lit_from(touches: Seq<Touch>, ids: Seq<Seq<u8>>, i: int) -> Seq<(usize, usize, u8)>
    decreases touches.len() - i,
{
    if i >= touches.len() || i < 0 {
        Seq::empty()
    } else {
        let (track, side, r, heat) = touches[i];
        let rest = lit_from(touches, ids, i + 1);
        if side != 0 || track as int >= ids.len() {
            rest
        } else {
            match position_of(ids[track as int], r) {
                Some(k) => seq![(track as usize, k as usize, heat)] + rest,
                None => rest,
            }
        }
    }
}

/// Which wedges of the platter to light for the sectors touched lately.
/// `ids` holds, for each track of the first side, the ids of its sectors in
/// the order they are on it.
pub fn lit_sectors(touches: &Vec<Touch>, ids: &Vec<Vec<u8>>) -> (r: Vec<(usize, usize, u8)>)
    ensures
        r@ == lit_from(touches@, ids.deep_view(), 0),
{
    let mut out: Vec<(usize, usize, u8)> = Vec::new();
    let mut i: usize = 0;
    while i < touches.len()
        invariant
            i <= touches.len(),
            out@ + lit_from(touches@, ids.deep_view(), i as int) == lit_from(
                touches@,
                ids.deep_view(),
                0,
            ),
        decreases touches.len() - i,
    {
        let (track, side, r, heat) = touches[i];
        let ghost before = out@;
        assert(touches@[i as int] == (track, side, r, heat));
        assert(ids.deep_view().len() == ids.len());
        if side == 0 && (track as usize) < ids.len() {
            assert(ids.deep_view()[track as int] =~= ids@[track as int]@);
            match find_id(&ids[track as usize], r) {
                Some(k) => {
                    out.push((track as usize, k, heat));
                    assert(before + (seq![(track as usize, k, heat)] + lit_from(
                        touches@,
                        ids.deep_view(),
                        i + 1,
                    )) =~= out@ + lit_from(touches@, ids.deep_view(), i + 1));
                },
                None => {
                    assert(lit_from(touches@, ids.deep_view(), i as int) == lit_from(
                        touches@,
                        ids.deep_view(),
                        i + 1,
                    ));
                },
            }
        } else {
            assert(lit_from(touches@, ids.deep_view(), i as int) == lit_from(
                touches@,
                ids.deep_view(),
                i + 1,
            ));
        }
        i = i + 1;
    }
    assert(out@ + Seq::<(usize, usize, u8)>::empty() =~= out@);
    out
}

} // verus!
