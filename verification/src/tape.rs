//! The tape window's decisions: how much of a hurry a tape is loaded in, where
//! the oscilloscope's sweep starts, and when the block list scrolls.
use vstd::prelude::*;
use crate::text::{chars_of, decimal, pad_left, push_decimal, push_right_aligned, push_str, same};

verus! {

/// Which edge of the EAR signal holds the scope's trace still.
#[derive(Copy, Clone, PartialEq, Eq, Structural, Debug)]
pub enum Trigger {
    Rising,
    Falling,
    Off,
}

/// The level an edge has to go to for the trigger to take it, if it takes
/// any.
pub open spec fn wanted(trigger: Trigger) -> Option<bool> {
    match trigger {
        Trigger::Rising => Some(true),
        Trigger::Falling => Some(false),
        Trigger::Off => None,
    }
}

/// How much of a hurry the tape is loaded in.
#[derive(Clone, Copy, Debug, PartialEq, Eq, Structural)]
pub enum Hurry {
    /// At the speed it was recorded at.
    Normal,
    /// The machine flat out while the tape moves.
    Max,
    /// And blocks handed to the ROM's loader rather than played at all.
    Fastload,
}

/// The two switches a hurry settles, as `(flash, boost)`: handing blocks to
/// the ROM, and running the machine flat out.
pub open spec fn switches_of(hurry: Hurry) -> (bool, bool) {
    match hurry {
        Hurry::Normal => (false, false),
        Hurry::Max => (false, true),
        Hurry::Fastload => (true, true),
    }
}

/// Which hurry the two switches amount to.
pub open spec fn hurry_from(flash: bool, boost: bool) -> Hurry {
    if flash {
        Hurry::Fastload
    } else if boost {
        Hurry::Max
    } else {
        Hurry::Normal
    }
}

/// The two switches underneath a hurry, as `(flash, boost)`. Hurrying a tape
/// means running the machine flat out as well, so the two were never
/// independent.
pub fn switches(hurry: Hurry) -> (r: (bool, bool))
    ensures
        r == switches_of(hurry),
{
    match hurry {
        Hurry::Normal => (false, false),
        Hurry::Max => (false, true),
        Hurry::Fastload => (true, true),
    }
}

/// Which of the three the switches show.
pub fn hurry_of(flash: bool, boost: bool) -> (r: Hurry)
    ensures
        r == hurry_from(flash, boost),
{
    if flash {
        Hurry::Fastload
    } else if boost {
        Hurry::Max
    } else {
        Hurry::Normal
    }
}

/// Setting a hurry and reading the switches back gives the same hurry; and
/// switches that a hurry could have set are the ones that hurry sets.
pub proof fn hurry_round_trip(hurry: Hurry, flash: bool, boost: bool)
    ensures
        hurry_from(switches_of(hurry).0, switches_of(hurry).1) == hurry,
        flash ==> boost ==> switches_of(hurry_from(flash, boost)) == (flash, boost),
        !flash ==> switches_of(hurry_from(flash, boost)) == (flash, boost),
{
}

/// How a trigger is written in the preferences.
pub open spec fn trigger_word(t: Trigger) -> Seq<char> {
    match t {
        Trigger::Rising => "rising"@,
        Trigger::Falling => "falling"@,
        Trigger::Off => "free"@,
    }
}

/// The trigger a word of the preferences stands for, if any.
pub open spec fn trigger_named(w: Seq<char>) -> Option<Trigger> {
    if w == "rising"@ {
        Some(Trigger::Rising)
    } else if w == "falling"@ {
        Some(Trigger::Falling)
    } else if w == "free"@ {
        Some(Trigger::Off)
    } else {
        None
    }
}

pub fn trigger_key(t: Trigger) -> (r: &'static str)
    ensures
        r@ == trigger_word(t),
{
    match t {
        Trigger::Rising => "rising",
        Trigger::Falling => "falling",
        Trigger::Off => "free",
    }
}

pub fn trigger_from_key(w: &str) -> (r: Option<Trigger>)
    ensures
        r == trigger_named(w@),
{
    let c = chars_of(w);
    if same(&c, &chars_of("rising")) {
        Some(Trigger::Rising)
    } else if same(&c, &chars_of("falling")) {
        Some(Trigger::Falling)
    } else if same(&c, &chars_of("free")) {
        Some(Trigger::Off)
    } else {
        None
    }
}

/// How a hurry is written in the preferences.
pub open spec fn hurry_word(h: Hurry) -> Seq<char> {
    match h {
        Hurry::Normal => "normal"@,
        Hurry::Max => "max"@,
        Hurry::Fastload => "fastload"@,
    }
}

/// The hurry a word of the preferences stands for, if any.
pub open spec fn hurry_named(w: Seq<char>) -> Option<Hurry> {
    if w == "fastload"@ {
        Some(Hurry::Fastload)
    } else if w == "max"@ {
        Some(Hurry::Max)
    } else if w == "normal"@ {
        Some(Hurry::Normal)
    } else {
        None
    }
}

pub fn hurry_key(h: Hurry) -> (r: &'static str)
    ensures
        r@ == hurry_word(h),
{
    match h {
        Hurry::Normal => "normal",
        Hurry::Max => "max",
        Hurry::Fastload => "fastload",
    }
}

pub fn hurry_from_key(w: &str) -> (r: Option<Hurry>)
    ensures
        r == hurry_named(w@),
{
    let c = chars_of(w);
    if same(&c, &chars_of("fastload")) {
        Some(Hurry::Fastload)
    } else if same(&c, &chars_of("max")) {
        Some(Hurry::Max)
    } else if same(&c, &chars_of("normal")) {
        Some(Hurry::Normal)
    } else {
        None
    }
}

/// The scope's trigger and the tape's hurry, written into the preferences
/// and read back, are what they were.
pub proof fn tape_settings_read_back(t: Trigger, h: Hurry)
    ensures
        trigger_named(trigger_word(t)) == Some(t),
        hurry_named(hurry_word(h)) == Some(h),
{
    reveal_strlit("rising");
    reveal_strlit("falling");
    reveal_strlit("free");
    reveal_strlit("normal");
    reveal_strlit("max");
    reveal_strlit("fastload");
    match t {
        Trigger::Falling => {
            assert("falling"@.len() != "rising"@.len());
        },
        Trigger::Off => {
            assert("free"@.len() != "rising"@.len());
            assert("free"@.len() != "falling"@.len());
        },
        _ => {},
    }
    match h {
        Hurry::Max => {
            assert("max"@.len() != "fastload"@.len());
        },
        Hurry::Normal => {
            assert("normal"@.len() != "fastload"@.len());
            assert("normal"@.len() != "max"@.len());
        },
        _ => {},
    }
}

/// Whether the current row should be scrolled into view: either because
/// something asked for it, or because it has gone off screen.
pub fn needs_scroll(forced: bool, row_visible: bool) -> (r: bool)
    ensures
        r == (forced || !row_visible),
{
    forced || !row_visible
}

/// Whether to say that the tape asked the deck to stop, and whether it has
/// been said: said once when the deck stops itself, and not again until it
/// has started.
pub open spec fn stop_news(said: bool, stopped: bool) -> (bool, bool) {
    if stopped && !said {
        (true, true)
    } else if !stopped {
        (false, false)
    } else {
        (said, false)
    }
}

/// `said` is whether the stop has been announced; `stopped` whether the deck
/// stands stopped by a block of the tape. Gives back whether it has been
/// announced now, and whether to announce it this time.
pub fn tape_stop_news(said: bool, stopped: bool) -> (r: (bool, bool))
    ensures
        r == stop_news(said, stopped),
{
    if stopped && !said {
        (true, true)
    } else if !stopped {
        (false, false)
    } else {
        (said, false)
    }
}

/// A stop is announced once: asked again with the deck still stopped,
/// nothing more is said; and once the deck has started, the next stop is
/// announced again.
pub proof fn stop_said_once(said: bool, stopped: bool)
    ensures
        !stop_news(stop_news(said, stopped).0, stopped).1,
        !stop_news(said, false).0 && stop_news(stop_news(said, false).0, true).1,
{
}

/// What the status line says when the tape stops the deck.
pub fn tape_stopped_text() -> (r: &'static str)
    ensures
        r@ == "The tape asked the deck to stop \u{2014} press Play for the next part"@,
{
    "The tape asked the deck to stop \u{2014} press Play for the next part"
}

/// A row of the block list: the block's number counted from one, in a column
/// three wide, then what the block is.
pub open spec fn row_text(i: nat, text: Seq<char>) -> Seq<char> {
    pad_left(decimal(i + 1), 3) + seq![' ', ' '] + text
}

/// The text of the `i`th row of the block list, for a block described as
/// `text`.
pub fn block_row(i: usize, text: &str) -> (r: String)
    requires
        i < usize::MAX,
    ensures
        r@ == row_text(i as nat, text@),
{
    let mut number = String::new();
    push_decimal(&mut number, (i + 1) as u64);
    let digits = chars_of(number.as_str());
    let mut s = String::new();
    push_right_aligned(&mut s, &digits, 3);
    push_str(&mut s, "  ");
    push_str(&mut s, text);
    proof {
        reveal_strlit("  ");
        assert(number@ =~= decimal((i + 1) as nat));
    }
    assert(s@ =~= row_text(i as nat, text@));
    s
}

/// `a + b`, or the largest `u64` where that does not fit.
pub open spec fn sat_add(a: u64, b: u64) -> u64 {
    if a + b > u64::MAX {
        u64::MAX
    } else {
        (a + b) as u64
    }
}

/// `a - b`, or nothing below zero.
pub open spec fn sat_sub(a: u64, b: u64) -> u64 {
    if a < b {
        0
    } else {
        (a - b) as u64
    }
}

/// The time of the newest of the first `n` edges that goes to `level` and
/// has a whole sweep of signal after it by `now`.
pub open spec fn trigger_before(
    edges: Seq<(u64, bool)>,
    n: nat,
    level: bool,
    now: u64,
    window: u64,
) -> Option<u64>
    decreases n,
{
    if n == 0 || n > edges.len() {
        None
    } else {
        let e = edges[n - 1];
        if e.1 == level && sat_add(e.0, window) <= now {
            Some(e.0)
        } else {
            trigger_before(edges, (n - 1) as nat, level, now, window)
        }
    }
}

/// The level of the newest of the first `n` edges at or before `t`; low
/// where there is none.
pub open spec fn level_before(edges: Seq<(u64, bool)>, n: nat, t: u64) -> bool
    decreases n,
{
    if n == 0 || n > edges.len() {
        false
    } else if edges[n - 1].0 <= t {
        edges[n - 1].1
    } else {
        level_before(edges, (n - 1) as nat, t)
    }
}

/// The edges from the `i`th on that fall in the sweep, after `start` and up to
/// `end`, taken in order until the first one past the end.
pub open spec fn steps_from(edges: Seq<(u64, bool)>, i: nat, start: u64, end: u64) -> Seq<
    (u64, bool),
>
    decreases edges.len() - i,
{
    if i >= edges.len() {
        Seq::empty()
    } else if edges[i as int].0 <= start {
        steps_from(edges, i + 1, start, end)
    } else if edges[i as int].0 > end {
        Seq::empty()
    } else {
        seq![edges[i as int]] + steps_from(edges, i + 1, start, end)
    }
}

proof fn lemma_trigger_fits(edges: Seq<(u64, bool)>, n: nat, level: bool, now: u64, window: u64)
    ensures
        trigger_before(edges, n, level, now, window) matches Some(t) ==> sat_add(t, window)
            <= now,
    decreases n,
{
    if n > 0 && n <= edges.len() {
        lemma_trigger_fits(edges, (n - 1) as nat, level, now, window);
    }
}

/// What the scope draws in one sweep.
pub struct Sweep {
    /// Where the sweep starts and ends, in machine time.
    pub start: u64,
    pub end: u64,
    /// Whether an edge of the chosen slope holds it still.
    pub triggered: bool,
    /// The signal's level at the left of the screen.
    pub level: bool,
    /// The edges within the sweep, in order.
    pub steps: Vec<(u64, bool)>,
}

/// The sweep's start: the newest edge the trigger takes, or a sweep's width
/// before `now` when it takes none.
pub open spec fn sweep_start(edges: Seq<(u64, bool)>, trigger: Trigger, now: u64, window: u64) -> (
    bool,
    u64,
) {
    match wanted(trigger) {
        Some(level) => match trigger_before(edges, edges.len(), level, now, window) {
            Some(t) => (true, t),
            None => (false, sat_sub(now, window)),
        },
        None => (false, sat_sub(now, window)),
    }
}

/// Pick the sweep for the scope: the newest edge of the chosen slope that has
/// a whole sweep of signal after it, so the trace does not slide sideways,
/// the level the signal has at its left, and the edges across it.
///
/// `edges` are the tape's edges as (time, level) in the order they came,
/// `window` is how long a sweep is, in the same time as `now`.
pub fn sweep(edges: &Vec<(u64, bool)>, trigger: Trigger, now: u64, window: u64) -> (r: Sweep)
    requires
        now < u64::MAX,
    ensures
        (r.triggered, r.start) == sweep_start(edges@, trigger, now, window),
        r.end == r.start + window,
        r.level == level_before(edges@, edges@.len(), r.start),
        r.steps@ == steps_from(edges@, 0, r.start, r.end),
{
    let mut triggered: Option<u64> = None;
    match trigger {
        Trigger::Off => {},
        _ => {
            let level = match trigger {
                Trigger::Rising => true,
                _ => false,
            };
            let mut i: usize = edges.len();
            while i > 0
                invariant
                    i <= edges.len(),
                    triggered is Some ==> i == 0,
                    triggered is None ==> trigger_before(edges@, edges@.len(), level, now, window)
                        == trigger_before(edges@, i as nat, level, now, window),
                    triggered is Some ==> triggered == trigger_before(
                        edges@,
                        edges@.len(),
                        level,
                        now,
                        window,
                    ),
                decreases i,
            {
                let (t, l) = edges[i - 1];
                let reach: u64 = if t > u64::MAX - window {
                    u64::MAX
                } else {
                    t + window
                };
                assert(edges@[i - 1] == (t, l));
                assert(reach == sat_add(t, window));
                if l == level && reach <= now {
                    assert(trigger_before(edges@, i as nat, level, now, window) == Some(t));
                    triggered = Some(t);
                    i = 0;
                } else {
                    i = i - 1;
                }
            }
            proof {
                lemma_trigger_fits(edges@, edges@.len(), level, now, window);
            }
        },
    }
    let start: u64 = match triggered {
        Some(t) => t,
        None => if now < window {
            0
        } else {
            now - window
        },
    };
    assert(start + window <= u64::MAX);
    let end: u64 = start + window;
    let mut level: bool = false;
    let mut found: bool = false;
    let mut j: usize = edges.len();
    while j > 0
        invariant
            j <= edges.len(),
            !found ==> !level,
            found ==> j == 0,
            !found ==> level_before(edges@, edges@.len(), start) == level_before(
                edges@,
                j as nat,
                start,
            ),
            found ==> level == level_before(edges@, edges@.len(), start),
        decreases j,
    {
        if edges[j - 1].0 <= start {
            assert(level_before(edges@, j as nat, start) == edges@[j - 1].1);
            level = edges[j - 1].1;
            found = true;
            j = 0;
        } else {
            j = j - 1;
        }
    }
    let mut steps: Vec<(u64, bool)> = Vec::new();
    let mut k: usize = 0;
    let mut past: bool = false;
    while k < edges.len()
        invariant
            k <= edges.len(),
            end == start + window,
            past ==> k == edges.len(),
            !past ==> steps@ + steps_from(edges@, k as nat, start, end) == steps_from(
                edges@,
                0,
                start,
                end,
            ),
            past ==> steps@ == steps_from(edges@, 0, start, end),
        decreases edges.len() - k,
    {
        let e = edges[k];
        assert(e == edges@[k as int]);
        if e.0 > end {
            assert(end >= start);
            assert(steps_from(edges@, k as nat, start, end) =~= Seq::<(u64, bool)>::empty());
            assert(steps@ + Seq::<(u64, bool)>::empty() =~= steps@);
            past = true;
            k = edges.len();
        } else {
            if e.0 > start {
                let ghost before = steps@;
                steps.push(e);
                assert(before + (seq![e] + steps_from(edges@, (k + 1) as nat, start, end))
                    =~= steps@ + steps_from(edges@, (k + 1) as nat, start, end));
            }
            k = k + 1;
        }
    }
    if !past {
        assert(steps@ + Seq::<(u64, bool)>::empty() =~= steps@);
    }
    Sweep { start, end, triggered: triggered.is_some(), level, steps }
}

} // verus!
