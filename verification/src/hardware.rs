//! What can be plugged into the back of the machine, as far as the front end
//! needs to tell one thing from another.
use vstd::prelude::*;

verus! {

/// The peripherals the Hardware window can fit.
#[derive(Clone, Copy, Debug, PartialEq, Eq, Structural)]
pub enum Peripheral {
    Interface1,
    ZxPrinter,
    Alphacom32,
    Fuller,
    SpecDrum,
    Uspeech,
    MultifaceOne,
    Multiface128,
    Multiface3,
    KempstonMouse,
    AmxMouse,
}

/// The three Multifaces, in the order they came out.
#[derive(Clone, Copy, Debug, PartialEq, Eq, Structural)]
pub enum MultifaceModel {
    One,
    OneTwentyEight,
    Three,
}

/// Which Multiface a peripheral is, if it is one.
pub open spec fn multiface_of(what: Peripheral) -> Option<MultifaceModel> {
    match what {
        Peripheral::MultifaceOne => Some(MultifaceModel::One),
        Peripheral::Multiface128 => Some(MultifaceModel::OneTwentyEight),
        Peripheral::Multiface3 => Some(MultifaceModel::Three),
        _ => None,
    }
}

/// Which peripheral a Multiface model is.
pub open spec fn peripheral_for(model: MultifaceModel) -> Peripheral {
    match model {
        MultifaceModel::One => Peripheral::MultifaceOne,
        MultifaceModel::OneTwentyEight => Peripheral::Multiface128,
        MultifaceModel::Three => Peripheral::Multiface3,
    }
}

/// Each Multiface is one peripheral and back again.
pub proof fn multiface_round_trip(model: MultifaceModel, what: Peripheral)
    ensures
        multiface_of(peripheral_for(model)) == Some(model),
        multiface_of(what) matches Some(m) ==> peripheral_for(m) == what,
{
}

/// Which Multiface a peripheral is, if it is one.
pub fn multiface_model(what: Peripheral) -> (r: Option<MultifaceModel>)
    ensures
        r == multiface_of(what),
{
    match what {
        Peripheral::MultifaceOne => Some(MultifaceModel::One),
        Peripheral::Multiface128 => Some(MultifaceModel::OneTwentyEight),
        Peripheral::Multiface3 => Some(MultifaceModel::Three),
        _ => None,
    }
}

/// Which peripheral a Multiface model is, so the red button can tell whether
/// the box is still plugged in.
pub fn peripheral_of(model: MultifaceModel) -> (r: Peripheral)
    ensures
        r == peripheral_for(model),
{
    match model {
        MultifaceModel::One => Peripheral::MultifaceOne,
        MultifaceModel::OneTwentyEight => Peripheral::Multiface128,
        MultifaceModel::Three => Peripheral::Multiface3,
    }
}

/// Where a Multiface model comes in the order they came out.
pub open spec fn multiface_rank(m: MultifaceModel) -> nat {
    match m {
        MultifaceModel::One => 0,
        MultifaceModel::OneTwentyEight => 1,
        MultifaceModel::Three => 2,
    }
}

fn rank_of(m: MultifaceModel) -> (r: u8)
    ensures
        r == multiface_rank(m),
{
    match m {
        MultifaceModel::One => 0,
        MultifaceModel::OneTwentyEight => 1,
        MultifaceModel::Three => 2,
    }
}

/// The boxes on the back are one of each model at most, in the order the
/// models came out, so one red button reaching the last reaches the newest.
pub open spec fn in_order<T>(boxes: Seq<(MultifaceModel, T)>) -> bool {
    forall|i: int, j: int|
        0 <= i < j < boxes.len() ==> multiface_rank(#[trigger] boxes[i].0) < multiface_rank(
            #[trigger] boxes[j].0,
        )
}

fn model_ranked(r: u8) -> (m: MultifaceModel)
    requires
        r < 3,
    ensures
        multiface_rank(m) == r,
{
    if r == 0 {
        MultifaceModel::One
    } else if r == 1 {
        MultifaceModel::OneTwentyEight
    } else {
        MultifaceModel::Three
    }
}

/// Plug a Multiface in, or take one out: `fitted` is the box going in, or
/// nothing where the model is being taken out. Taking one out throws its box
/// away, RAM and all; putting one in replaces any of the same model; and the
/// boxes stay in the order the models came out.
pub fn fit_multiface<T>(boxes: &mut Vec<(MultifaceModel, T)>, model: MultifaceModel, fitted: Option<T>)
    requires
        in_order(old(boxes)@),
    ensures
        in_order(final(boxes)@),
        forall|e: (MultifaceModel, T)|
            final(boxes)@.contains(e) <==> ((e.0 != model && old(boxes)@.contains(e)) || (
            fitted == Some(e.1) && e.0 == model)),
{
    let ghost before = old(boxes)@;
    let ghost going_in = fitted;
    let mut fitted = fitted;
    let mut out: Vec<(MultifaceModel, T)> = Vec::new();
    let mut r: u8 = 0;
    let ghost mut c: int = 0;
    while r < 3
        invariant
            r <= 3,
            0 <= c <= before.len(),
            in_order(before),
            boxes@ == before.skip(c),
            forall|i: int| 0 <= i < c ==> multiface_rank(#[trigger] before[i].0) < r,
            forall|i: int| c <= i < before.len() ==> multiface_rank(#[trigger] before[i].0) >= r,
            in_order(out@),
            forall|i: int| 0 <= i < out@.len() ==> multiface_rank(#[trigger] out@[i].0) < r,
            multiface_rank(model) >= r ==> fitted == going_in,
            forall|e: (MultifaceModel, T)|
                out@.contains(e) <==> ((e.0 != model && before.take(c).contains(e)) || (going_in
                    == Some(e.1) && e.0 == model && multiface_rank(model) < r)),
        decreases 3 - r,
    {
        let m = model_ranked(r);
        let ghost out0 = out@;
        let ghost c0 = c;
        let ghost mut dropped: bool = false;
        if boxes.len() > 0 && rank_of(boxes[0].0) == r {
            let e = boxes.remove(0);
            proof {
                assert(e == before[c]);
                c = c + 1;
                assert(before.take(c) =~= before.take(c0).push(e));
                assert(boxes@ =~= before.skip(c));
            }
            if rank_of(e.0) != rank_of(model) {
                out.push(e);
            } else {
                proof {
                    dropped = true;
                }
            }
        }
        proof {
            assert forall|i: int| c <= i < before.len() implies multiface_rank(
                #[trigger] before[i].0,
            ) >= r + 1 by {
                if multiface_rank(before[i].0) == r {
                    if i > c {
                        assert(multiface_rank(before[c].0) < multiface_rank(before[i].0));
                    } else {
                        assert(i == c);
                        assert(boxes@[0] == before[c]);
                    }
                }
            }
        }
        let ghost out1 = out@;
        if rank_of(m) == rank_of(model) {
            match fitted.take() {
                Some(t) => {
                    out.push((model, t));
                },
                None => {},
            }
        }
        proof {
            assert forall|k: int| 0 <= k < out0.len() implies out@[k] == out0[k] by {
                assert(out1[k] == out0[k]);
            }
            assert forall|e: (MultifaceModel, T)|
                out@.contains(e) implies ((e.0 != model && before.take(c).contains(e)) || (going_in
                    == Some(e.1) && e.0 == model && multiface_rank(model) < r + 1)) by {
                let k = choose|k: int| 0 <= k < out@.len() && out@[k] == e;
                if k < out0.len() {
                    assert(out0[k] == e);
                    assert(out0.contains(e));
                    if e.0 != model && before.take(c0).contains(e) {
                        let j = choose|j: int| 0 <= j < before.take(c0).len() && before.take(c0)[j]
                            == e;
                        assert(before.take(c)[j] == e);
                    }
                } else if k < out1.len() {
                    assert(out1[k] == before[c0]);
                    assert(before.take(c)[c0] == e);
                }
            }
            assert forall|e: (MultifaceModel, T)|
                ((e.0 != model && before.take(c).contains(e)) || (going_in == Some(e.1) && e.0
                    == model && multiface_rank(model) < r + 1)) implies out@.contains(e) by {
                if e.0 != model && before.take(c).contains(e) {
                    let j = choose|j: int| 0 <= j < before.take(c).len() && before.take(c)[j] == e;
                    if j < c0 {
                        assert(before.take(c0)[j] == e);
                        assert(before.take(c0).contains(e));
                        assert(out0.contains(e));
                        let k = choose|k: int| 0 <= k < out0.len() && out0[k] == e;
                        assert(out@[k] == e);
                    } else {
                        assert(j == c0);
                        assert(!dropped);
                        assert(out1[out0.len() as int] == e);
                        assert(out@[out0.len() as int] == e);
                    }
                } else {
                    if multiface_rank(model) < r {
                        assert(out0.contains(e));
                        let k = choose|k: int| 0 <= k < out0.len() && out0[k] == e;
                        assert(out@[k] == e);
                    } else {
                        assert(out@[out@.len() - 1] == e);
                    }
                }
            }
        }
        r = r + 1;
    }
    proof {
        if c < before.len() {
            assert(multiface_rank(before[c].0) >= 3);
        }
        assert(c == before.len());
        assert(before.take(c) =~= before);
    }
    *boxes = out;
}

/// What a printer prints on.
#[derive(Clone, Copy, Debug, PartialEq, Eq, Structural)]
pub enum Paper {
    /// The ZX Printer's aluminium-coated roll.
    Metallised,
    /// The Alphacom 32's thermal roll.
    Thermal,
}

/// Both printers are the same device to the machine, on the same port, so
/// fitting one takes the other off: for a printer, the other one and the
/// paper the fitted one prints on.
pub open spec fn printer_swap_of(what: Peripheral) -> Option<(Peripheral, Paper)> {
    match what {
        Peripheral::ZxPrinter => Some((Peripheral::Alphacom32, Paper::Metallised)),
        Peripheral::Alphacom32 => Some((Peripheral::ZxPrinter, Paper::Thermal)),
        _ => None,
    }
}

pub fn printer_swap(what: Peripheral) -> (r: Option<(Peripheral, Paper)>)
    ensures
        r == printer_swap_of(what),
{
    match what {
        Peripheral::ZxPrinter => Some((Peripheral::Alphacom32, Paper::Metallised)),
        Peripheral::Alphacom32 => Some((Peripheral::ZxPrinter, Paper::Thermal)),
        _ => None,
    }
}

} // verus!
