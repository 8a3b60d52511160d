//! The ten quicksave slots: copies of the whole machine kept in memory until
//! the emulator is closed, and the slot Load restores.
use vstd::prelude::*;
use crate::text::{decimal, push_decimal, push_str};

verus! {

/// How many slots there are. F1 to F9 save to slots 1 to 9 and F10 to 0.
pub const SLOTS: usize = 10;

/// Ten slots, each empty or holding a machine, and the one that is chosen.
pub struct QuickSlots<T> {
    slots: Vec<Option<T>>,
    selected: usize,
}

impl<T> QuickSlots<T> {
    /// There are always ten slots, and the chosen one is one of them.
    pub closed spec fn wf(self) -> bool {
        &&& self.slots.len() == SLOTS
        &&& self.selected < SLOTS
    }

    /// Well-formed, there are `SLOTS` slots and the chosen one is among them.
    pub proof fn slots_are_ten(self)
        requires
            self.wf(),
        ensures
            self.held().len() == SLOTS,
            self.chosen() < SLOTS,
    {
    }

    /// What each slot holds.
    pub closed spec fn held(self) -> Seq<Option<T>> {
        self.slots@
    }

    /// Which slot Load restores.
    pub closed spec fn chosen(self) -> nat {
        self.selected as nat
    }

    /// Ten empty slots, the first chosen.
    pub fn new() -> (q: Self)
        ensures
            q.wf(),
            q.held() == Seq::new(SLOTS as nat, |i: int| None::<T>),
            q.chosen() == 0,
    {
        let mut slots: Vec<Option<T>> = Vec::new();
        let mut i: usize = 0;
        while i < SLOTS
            invariant
                i <= SLOTS,
                slots@ == Seq::new(i as nat, |k: int| None::<T>),
            decreases SLOTS - i,
        {
            slots.push(None);
            assert(slots@ =~= Seq::new((i + 1) as nat, |k: int| None::<T>));
            i = i + 1;
        }
        QuickSlots { slots, selected: 0 }
    }

    /// Which slot Load restores.
    pub fn selected(&self) -> (r: usize)
        requires
            self.wf(),
        ensures
            r == self.chosen(),
            r < SLOTS,
    {
        self.selected
    }

    /// Choose the slot Load restores; any number is taken round the ten.
    pub fn select(&mut self, slot: usize)
        requires
            old(self).wf(),
        ensures
            final(self).wf(),
            final(self).held().len() == SLOTS,
            final(self).chosen() == slot % SLOTS,
            final(self).held() == old(self).held(),
    {
        self.selected = slot % SLOTS;
    }

    /// Whether slot `n` has something in it, so a filled one can be found
    /// without loading each in turn.
    pub fn filled(&self, n: usize) -> (r: bool)
        requires
            self.wf(),
        ensures
            r == (n < SLOTS && self.held()[n as int] is Some),
    {
        n < SLOTS && self.slots[n].is_some()
    }

    /// Keep a machine in a slot, taken round the ten, and make that slot the
    /// one Load restores. Whatever was in it before is gone.
    pub fn save(&mut self, slot: usize, machine: T) -> (r: usize)
        requires
            old(self).wf(),
        ensures
            final(self).wf(),
            final(self).held().len() == SLOTS,
            r == slot % SLOTS,
            final(self).chosen() == r,
            final(self).held() == old(self).held().update(r as int, Some(machine)),
    {
        let slot = slot % SLOTS;
        self.selected = slot;
        self.slots.set(slot, Some(machine));
        slot
    }

    /// What is in the chosen slot, if anything.
    pub fn load(&self) -> (r: Option<&T>)
        requires
            self.wf(),
        ensures
            match self.held()[self.chosen() as int] {
                Some(m) => r == Some(&m),
                None => r is None,
            },
    {
        match &self.slots[self.selected] {
            Some(m) => Some(m),
            None => None,
        }
    }
}

/// A machine saved to a slot is the one Load gives back, until it is saved
/// over: `after` is what `save(slot, machine)` leaves of `before`, and the
/// slot it chose holds the machine while every other slot keeps what it had.
pub proof fn load_gives_back_save<T>(
    before: QuickSlots<T>,
    after: QuickSlots<T>,
    slot: usize,
    machine: T,
    other: int,
)
    requires
        before.wf(),
        after.chosen() == slot % SLOTS,
        after.held() == before.held().update((slot % SLOTS) as int, Some(machine)),
        0 <= other < SLOTS,
        other != slot % SLOTS,
    ensures
        after.held()[after.chosen() as int] == Some(machine),
        after.held()[other] == before.held()[other],
{
}

/// Why Load or Save is not offered, if it is not: a ZX81 cannot be copied
/// yet, and a recording playing or being made would stop describing the
/// machine it plays into.
pub open spec fn refusal(zx81: bool, recording: bool, loading: bool) -> Option<Seq<char>> {
    if zx81 {
        Some("Quicksaves are of a Spectrum: the ZX81 cannot be copied yet."@)
    } else if loading && recording {
        Some(
            "Not while a recording is playing or being made: it would stop describing the machine it plays into."@,
        )
    } else {
        None
    }
}

pub fn quick_refusal(zx81: bool, recording: bool, loading: bool) -> (r: Option<&'static str>)
    ensures
        match r {
            Some(t) => refusal(zx81, recording, loading) == Some(t@),
            None => refusal(zx81, recording, loading) is None,
        },
{
    if zx81 {
        Some("Quicksaves are of a Spectrum: the ZX81 cannot be copied yet.")
    } else if loading && recording {
        Some(
            "Not while a recording is playing or being made: it would stop describing the machine it plays into.",
        )
    } else {
        None
    }
}

/// What the status line says after a quicksave or a quickload.
#[derive(Clone, Copy, Debug, PartialEq, Eq, Structural)]
pub enum QuickNews {
    Saved(usize),
    Loaded(usize),
    Empty(usize),
}

pub open spec fn news_text(n: QuickNews) -> Seq<char> {
    match n {
        QuickNews::Saved(s) => "Saved to quick slot "@ + decimal(s as nat),
        QuickNews::Loaded(s) => "Loaded quick slot "@ + decimal(s as nat),
        QuickNews::Empty(s) => "Quick slot "@ + decimal(s as nat) + " is empty"@,
    }
}

pub fn quick_news(n: QuickNews) -> (r: String)
    ensures
        r@ == news_text(n),
{
    let mut s = String::new();
    match n {
        QuickNews::Saved(slot) => {
            push_str(&mut s, "Saved to quick slot ");
            push_decimal(&mut s, slot as u64);
        },
        QuickNews::Loaded(slot) => {
            push_str(&mut s, "Loaded quick slot ");
            push_decimal(&mut s, slot as u64);
        },
        QuickNews::Empty(slot) => {
            push_str(&mut s, "Quick slot ");
            push_decimal(&mut s, slot as u64);
            push_str(&mut s, " is empty");
        },
    }
    assert(s@ =~= news_text(n));
    s
}

/// The function key that saves to a slot: F1 to F9 for slots 1 to 9, F10
/// for slot 0.
pub fn function_key(slot: usize) -> (r: usize)
    requires
        slot < SLOTS,
    ensures
        r == (if slot == 0 {
            10
        } else {
            slot
        }),
{
    if slot == 0 {
        10
    } else {
        slot
    }
}

/// The slot a function key saves to: F1 to F9 save to slots 1 to 9, and F10
/// to slot 0.
pub fn slot_for_function_key(n: usize) -> (r: usize)
    requires
        1 <= n <= 10,
    ensures
        r == n % 10,
        r < SLOTS,
{
    n % 10
}

/// The function keys and the slots are one to one: each slot's key saves to
/// that slot, and each key's slot is saved to by that key.
pub proof fn keys_and_slots_match(slot: usize, key: usize)
    requires
        slot < SLOTS,
        1 <= key <= 10,
    ensures
        (if slot == 0 {
            10
        } else {
            slot
        }) % 10 == slot,
        (if key % 10 == 0 {
            10
        } else {
            key % 10
        }) == key,
{
}

} // verus!
