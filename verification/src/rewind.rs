//! Stepping back over instructions stepped by hand.
//!
//! Each instruction stepped by hand leaves what is needed to undo it. A
//! few are kept — enough to see how the machine got where it is — and the
//! oldest goes when another comes. Letting the machine run throws them all
//! away, since what they describe no longer exists.
use vstd::prelude::*;
use std::collections::VecDeque;
use crate::text::{decimal, hex4, push_decimal, push_hex4, push_str};

verus! {

/// How many hand-stepped instructions can be stepped back over.
pub const REWIND: usize = 20;

/// The undo entries kept, oldest first.
pub struct Rewind<T> {
    kept: VecDeque<T>,
}

impl<T> Rewind<T> {
    /// What is kept, oldest first.
    pub closed spec fn entries(self) -> Seq<T> {
        self.kept@
    }

    /// No more than `REWIND` are kept.
    pub closed spec fn wf(self) -> bool {
        self.kept@.len() <= REWIND
    }

    /// Well-formed, no more than `REWIND` entries are kept.
    pub proof fn kept_at_most_rewind(self)
        requires
            self.wf(),
        ensures
            self.entries().len() <= REWIND,
    {
    }

    /// Nothing to step back over.
    pub fn new() -> (r: Self)
        ensures
            r.wf(),
            r.entries() == Seq::<T>::empty(),
    {
        Rewind { kept: VecDeque::new() }
    }

    /// Keep what undoes the instruction just stepped: the oldest goes to make
    /// room when `REWIND` are kept already.
    pub fn keep(&mut self, undo: T)
        requires
            old(self).wf(),
        ensures
            final(self).wf(),
            final(self).entries().len() <= REWIND,
            final(self).entries() == (if old(self).entries().len() == REWIND {
                old(self).entries().drop_first().push(undo)
            } else {
                old(self).entries().push(undo)
            }),
    {
        if self.kept.len() == REWIND {
            let _ = self.kept.pop_front();
            assert(self.kept@ =~= old(self).kept@.drop_first());
        }
        self.kept.push_back(undo);
    }

    /// Whether there is anything to step back over.
    pub fn can_step_back(&self) -> (r: bool)
        ensures
            r == (self.entries().len() > 0),
    {
        self.kept.len() > 0
    }

    /// How many instructions can be stepped back over.
    pub fn len(&self) -> (r: usize)
        ensures
            r == self.entries().len(),
    {
        self.kept.len()
    }

    /// The last instruction's undo, taken off to be applied.
    pub fn take_last(&mut self) -> (r: Option<T>)
        requires
            old(self).wf(),
        ensures
            final(self).wf(),
            final(self).entries().len() < REWIND,
            old(self).entries().len() == 0 ==> r is None && final(self).entries() == old(
                self,
            ).entries(),
            old(self).entries().len() > 0 ==> r == Some(old(self).entries().last())
                && final(self).entries() == old(self).entries().drop_last(),
    {
        let r = self.kept.pop_back();
        assert(old(self).entries().len() > 0 ==> self.kept@ =~= old(self).entries().drop_last());
        r
    }

    /// Throw away everything that could have been stepped back over.
    pub fn forget(&mut self)
        ensures
            final(self).wf(),
            final(self).entries() == Seq::<T>::empty(),
    {
        self.kept.clear();
    }
}

/// Stepping back undoes the last step: what a step keeps is what stepping
/// back takes, and what is left is what was kept before it — less the oldest
/// entry when the list was full.
pub proof fn step_back_takes_the_last_step<T>(before: Seq<T>, undo: T)
    requires
        before.len() <= REWIND,
    ensures
        ({
            let after = if before.len() == REWIND {
                before.drop_first().push(undo)
            } else {
                before.push(undo)
            };
            &&& after.len() <= REWIND
            &&& after.last() == undo
            &&& after.drop_last() == (if before.len() == REWIND {
                before.drop_first()
            } else {
                before
            })
        }),
{
    if before.len() == REWIND {
        assert(before.drop_first().push(undo).drop_last() =~= before.drop_first());
    } else {
        assert(before.push(undo).drop_last() =~= before);
    }
}

/// What the status line says after stepping back.
pub open spec fn stepped_back_text(pc: u16, left: usize) -> Seq<char> {
    "Stepped back to $"@ + hex4(pc) + ", "@ + decimal(left as nat) + " left"@
}

pub fn stepped_back(pc: u16, left: usize) -> (r: String)
    ensures
        r@ == stepped_back_text(pc, left),
{
    let mut s = String::new();
    push_str(&mut s, "Stepped back to $");
    push_hex4(&mut s, pc);
    push_str(&mut s, ", ");
    push_decimal(&mut s, left as u64);
    push_str(&mut s, " left");
    assert(s@ =~= stepped_back_text(pc, left));
    s
}

/// What the status line says when there is nothing to step back to.
pub fn nothing_to_step_back() -> (r: &'static str)
    ensures
        r@ == "Nothing to step back to"@,
{
    "Nothing to step back to"
}

} // verus!
