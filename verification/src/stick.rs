//! The stick as the desk and the pads work it, and a binding taking the next
//! thing pressed.
use vstd::prelude::*;
use crate::bindings::{Binding, BindingView, Does, From, Pads, Way, binding_views, holding, worked};

verus! {

/// Whether one of the bindings for a switch of the stick is being worked.
pub open spec fn switch_over(bindings: Seq<Binding>, keys_down: Seq<String>, pads: Pads, way: Way) -> bool {
    exists|i: int|
        0 <= i < bindings.len() && bindings[i].does == Does::Way(way) && worked(
            bindings[i]@.from,
            keys_down,
            pads,
        )
}

/// Whether a switch of the stick is over this frame: any of its bindings
/// being worked puts it over.
pub fn way_over(bindings: &Vec<Binding>, keys_down: &Vec<String>, pads: &Pads, way: Way) -> (r: bool)
    ensures
        r == switch_over(bindings@, keys_down@, *pads, way),
{
    let mut i: usize = 0;
    while i < bindings.len()
        invariant
            i <= bindings.len(),
            forall|j: int|
                0 <= j < i ==> !(bindings@[j].does == Does::Way(way) && worked(
                    bindings@[j]@.from,
                    keys_down@,
                    *pads,
                )),
        decreases bindings.len() - i,
    {
        let b = &bindings[i];
        if b.does == Does::Way(way) && holding(&b.from, keys_down, pads) {
            return true;
        }
        i = i + 1;
    }
    false
}

/// The line waiting for a key takes what was pressed as its source; a line
/// that is not there leaves the bindings as they are.
pub fn rebind(bindings: &mut Vec<Binding>, line: usize, from: From)
    ensures
        line < old(bindings)@.len() ==> binding_views(final(bindings)@) == binding_views(
            old(bindings)@,
        ).update(line as int, BindingView { from: from@, does: old(bindings)@[line as int].does }),
        line >= old(bindings)@.len() ==> final(bindings)@ == old(bindings)@,
{
    if line < bindings.len() {
        let does = bindings[line].does;
        bindings.set(line, Binding { from, does });
        assert(binding_views(bindings@) =~= binding_views(old(bindings)@).update(
            line as int,
            BindingView { from: from@, does: old(bindings)@[line as int].does },
        ));
    }
}

} // verus!
