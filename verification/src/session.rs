//! What the front end keeps from one run to the next: which windows were
//! open, and the names files are offered under.
use vstd::prelude::*;
use crate::paths::{path_with_extension, with_extension};
use crate::text::{chars_of, same};

verus! {

/// How many debug windows there are.
pub const WINDOWS: usize = 12;

/// The names the debug windows' places are saved under, in the order they
/// are saved.
pub open spec fn window_names() -> Seq<Seq<char>> {
    seq![
        "ram_map"@,
        "debugger"@,
        "tape"@,
        "back_buffer"@,
        "sprites"@,
        "callflow"@,
        "profiler"@,
        "keyboard"@,
        "disk"@,
        "hardware"@,
        "joystick"@,
        "microdrive"@,
    ]
}

/// The name of the `i`th debug window.
pub fn window_name(i: usize) -> (r: &'static str)
    requires
        i < WINDOWS,
    ensures
        r@ == window_names()[i as int],
{
    if i == 0 {
        "ram_map"
    } else if i == 1 {
        "debugger"
    } else if i == 2 {
        "tape"
    } else if i == 3 {
        "back_buffer"
    } else if i == 4 {
        "sprites"
    } else if i == 5 {
        "callflow"
    } else if i == 6 {
        "profiler"
    } else if i == 7 {
        "keyboard"
    } else if i == 8 {
        "disk"
    } else if i == 9 {
        "hardware"
    } else if i == 10 {
        "joystick"
    } else {
        "microdrive"
    }
}

/// The names of the first `n` windows that are shown, in order.
pub open spec fn opened_upto(shown: Seq<bool>, n: int) -> Seq<Seq<char>>
    decreases n,
{
    if n <= 0 {
        Seq::empty()
    } else {
        opened_upto(shown, n - 1) + (if shown[n - 1] {
            seq![window_names()[n - 1]]
        } else {
            Seq::<Seq<char>>::empty()
        })
    }
}

/// The names of the windows that are shown, in order.
pub open spec fn opened(shown: Seq<bool>) -> Seq<Seq<char>> {
    opened_upto(shown, WINDOWS as int)
}

/// Which windows a list of names opens: each window whose name is there.
pub open spec fn reopened(names: Seq<Seq<char>>) -> Seq<bool> {
    Seq::new(WINDOWS as nat, |i: int| names.contains(window_names()[i]))
}

/// The text of each string in a list.
pub open spec fn texts(v: Seq<String>) -> Seq<Seq<char>> {
    v.map_values(|s: String| s@)
}

/// Which debug windows are open, by the names their places are saved under,
/// so they can be opened again next time.
pub fn open_windows(shown: &Vec<bool>) -> (r: Vec<String>)
    requires
        shown.len() == WINDOWS,
    ensures
        texts(r@) == opened(shown@),
{
    let mut out: Vec<String> = Vec::new();
    let mut i: usize = 0;
    while i < WINDOWS
        invariant
            i <= WINDOWS,
            shown.len() == WINDOWS,
            texts(out@) == opened_upto(shown@, i as int),
        decreases WINDOWS - i,
    {
        if shown[i] {
            let name = window_name(i).to_owned();
            let ghost before = out@;
            out.push(name);
            assert(texts(out@) =~= texts(before).push(window_names()[i as int]));
            assert(opened_upto(shown@, i + 1) =~= opened_upto(shown@, i as int) + seq![
                window_names()[i as int],
            ]);
        } else {
            assert(opened_upto(shown@, i + 1) =~= opened_upto(shown@, i as int));
        }
        i = i + 1;
    }
    out
}

fn listed(names: &Vec<String>, name: &str) -> (r: bool)
    ensures
        r == texts(names@).contains(name@),
{
    let want = chars_of(name);
    let mut i: usize = 0;
    while i < names.len()
        invariant
            i <= names.len(),
            want@ == name@,
            forall|j: int| 0 <= j < i ==> names@[j]@ != name@,
        decreases names.len() - i,
    {
        let have = chars_of(names[i].as_str());
        if same(&have, &want) {
            assert(texts(names@)[i as int] == name@);
            return true;
        }
        i = i + 1;
    }
    proof {
        if texts(names@).contains(name@) {
            let k = choose|k: int| 0 <= k < texts(names@).len() && texts(names@)[k] == name@;
            assert(names@[k]@ == name@);
        }
    }
    false
}

/// Which debug windows a saved list of names opens.
pub fn shown_windows(names: &Vec<String>) -> (r: Vec<bool>)
    ensures
        r@ == reopened(texts(names@)),
{
    let mut out: Vec<bool> = Vec::new();
    let mut i: usize = 0;
    while i < WINDOWS
        invariant
            i <= WINDOWS,
            out.len() == i,
            forall|j: int| 0 <= j < i ==> out@[j] == texts(names@).contains(window_names()[j]),
        decreases WINDOWS - i,
    {
        out.push(listed(names, window_name(i)));
        i = i + 1;
    }
    assert(out@ =~= reopened(texts(names@)));
    out
}

proof fn lemma_names_differ()
    ensures
        forall|i: int, j: int|
            0 <= i < WINDOWS && 0 <= j < WINDOWS && i != j ==> window_names()[i]
                != window_names()[j],
{
    reveal_strlit("ram_map");
    reveal_strlit("debugger");
    reveal_strlit("tape");
    reveal_strlit("back_buffer");
    reveal_strlit("sprites");
    reveal_strlit("callflow");
    reveal_strlit("profiler");
    reveal_strlit("keyboard");
    reveal_strlit("disk");
    reveal_strlit("hardware");
    reveal_strlit("joystick");
    reveal_strlit("microdrive");
    let n = window_names();
    assert forall|i: int, j: int|
        0 <= i < WINDOWS && 0 <= j < WINDOWS && i != j implies n[i] != n[j] by {
        if n[i] == n[j] {
            assert(n[i].len() == n[j].len());
            assert(n[i][0] == n[j][0]);
            assert(n[i][1] == n[j][1]);
            assert(n[i].last() == n[j].last());
        }
    }
}

proof fn lemma_opened_contains(shown: Seq<bool>, n: int, x: Seq<char>)
    requires
        0 <= n <= WINDOWS,
        shown.len() == WINDOWS,
    ensures
        opened_upto(shown, n).contains(x) <==> exists|j: int|
            0 <= j < n && shown[j] && #[trigger] window_names()[j] == x,
    decreases n,
{
    if n > 0 {
        lemma_opened_contains(shown, n - 1, x);
        let front = opened_upto(shown, n - 1);
        let all = opened_upto(shown, n);
        if shown[n - 1] {
            assert(all == front.push(window_names()[n - 1]));
        } else {
            assert(all =~= front);
        }
        if all.contains(x) {
            if !front.contains(x) {
                let k = choose|k: int| 0 <= k < all.len() && all[k] == x;
                if k < front.len() {
                    assert(front[k] == x);
                }
                assert(window_names()[n - 1] == x);
            }
        }
        if exists|j: int| 0 <= j < n && shown[j] && #[trigger] window_names()[j] == x {
            let j = choose|j: int| 0 <= j < n && shown[j] && #[trigger] window_names()[j] == x;
            if j == n - 1 {
                assert(all[all.len() - 1] == x);
            } else {
                let k = choose|k: int| 0 <= k < front.len() && front[k] == x;
                assert(all[k] == x);
            }
        }
    }
}

/// The windows saved as open are the ones opened again: writing the list
/// and reading it back gives every window the state it had.
pub proof fn saved_windows_reopen(shown: Seq<bool>)
    requires
        shown.len() == WINDOWS,
    ensures
        reopened(opened(shown)) == shown,
{
    lemma_names_differ();
    assert forall|i: int| 0 <= i < WINDOWS implies #[trigger] reopened(opened(shown))[i]
        == shown[i] by {
        lemma_opened_contains(shown, WINDOWS as int, window_names()[i]);
        if opened(shown).contains(window_names()[i]) {
            let j = choose|j: int|
                0 <= j < WINDOWS && shown[j] && #[trigger] window_names()[j] == window_names()[i];
            assert(j == i);
        }
    }
    assert(reopened(opened(shown)) =~= shown);
}

/// Whether `name` is the name of a debug window that is not shown.
pub open spec fn closed_window(shown: Seq<bool>, name: Seq<char>) -> bool {
    exists|i: int| 0 <= i < WINDOWS && !shown[i] && #[trigger] window_names()[i] == name
}

/// The first `n` names with those of closed windows taken out.
pub open spec fn still_placed(shown: Seq<bool>, placed: Seq<Seq<char>>, n: int) -> Seq<Seq<char>>
    decreases n,
{
    if n <= 0 {
        Seq::empty()
    } else {
        still_placed(shown, placed, n - 1) + (if closed_window(shown, placed[n - 1]) {
            Seq::<Seq<char>>::empty()
        } else {
            seq![placed[n - 1]]
        })
    }
}

fn is_closed(shown: &Vec<bool>, name: &String) -> (r: bool)
    requires
        shown.len() == WINDOWS,
    ensures
        r == closed_window(shown@, name@),
{
    let mut i: usize = 0;
    while i < WINDOWS
        invariant
            i <= WINDOWS,
            shown.len() == WINDOWS,
            forall|j: int| 0 <= j < i ==> shown@[j] || #[trigger] window_names()[j] != name@,
        decreases WINDOWS - i,
    {
        let n = chars_of(window_name(i));
        let have = chars_of(name.as_str());
        if !shown[i] && same(&n, &have) {
            assert(window_names()[i as int] == name@);
            return true;
        }
        i = i + 1;
    }
    false
}

/// A window that has been closed is forgotten as placed, so that when it is
/// opened again it is put back where it was left rather than wherever the
/// system puts a new one. `placed` names the windows that have been put back.
pub fn forget_closed(placed: &mut Vec<String>, shown: &Vec<bool>)
    requires
        shown.len() == WINDOWS,
    ensures
        texts(final(placed)@) == still_placed(shown@, texts(old(placed)@), old(placed)@.len() as int),
{
    let mut kept: Vec<String> = Vec::new();
    let mut i: usize = 0;
    while i < placed.len()
        invariant
            i <= placed.len(),
            shown.len() == WINDOWS,
            placed@ == old(placed)@,
            texts(kept@) == still_placed(shown@, texts(placed@), i as int),
        decreases placed.len() - i,
    {
        let name = placed[i].clone();
        assert(texts(placed@)[i as int] == placed@[i as int]@);
        if !is_closed(shown, &placed[i]) {
            let ghost before = kept@;
            assert(name@ == placed@[i as int]@);
            kept.push(name);
            assert(texts(kept@) =~= texts(before).push(texts(placed@)[i as int]));
            assert(still_placed(shown@, texts(placed@), i + 1) =~= still_placed(
                shown@,
                texts(placed@),
                i as int,
            ) + seq![texts(placed@)[i as int]]);
        } else {
            assert(still_placed(shown@, texts(placed@), i + 1) =~= still_placed(
                shown@,
                texts(placed@),
                i as int,
            ));
        }
        i = i + 1;
    }
    *placed = kept;
}

/// The windows whose width is fixed: the tape window is built round the
/// cassette and the disk window round the drive, and the RAM map and the
/// microdrive window share their width so they sit together.
pub open spec fn fixed_width(name: Seq<char>) -> bool {
    name == "tape"@ || name == "ram_map"@ || name == "disk"@ || name == "microdrive"@
}

/// Whether a window's width is not up for negotiation.
pub fn has_fixed_width(name: &str) -> (r: bool)
    ensures
        r == fixed_width(name@),
{
    let n = chars_of(name);
    same(&n, &chars_of("tape")) || same(&n, &chars_of("ram_map")) || same(&n, &chars_of("disk"))
        || same(&n, &chars_of("microdrive"))
}

/// Where a file goes by default: beside the tape in the deck, under the same
/// name with `extension`, or under `plain` when there is no tape.
pub open spec fn beside_tape(tape: Option<Seq<char>>, extension: Seq<char>, plain: Seq<char>) -> Seq<
    char,
> {
    match tape {
        Some(path) => path_with_extension(path, extension),
        None => plain,
    }
}

/// Where a recording should go by default.
pub fn recording_path(tape: Option<&str>) -> (r: String)
    ensures
        r@ == beside_tape(
            match tape {
                Some(t) => Some(t@),
                None => None,
            },
            "rzx"@,
            "recording.rzx"@,
        ),
{
    match tape {
        Some(path) => {
            proof {
                reveal_strlit("rzx");
            }
            with_extension(path, "rzx")
        },
        None => "recording.rzx".to_owned(),
    }
}

/// Where a snapshot should go by default.
pub fn snapshot_path(tape: Option<&str>) -> (r: String)
    ensures
        r@ == beside_tape(
            match tape {
                Some(t) => Some(t@),
                None => None,
            },
            "sna"@,
            "snapshot.sna"@,
        ),
{
    match tape {
        Some(path) => {
            proof {
                reveal_strlit("sna");
            }
            with_extension(path, "sna")
        },
        None => "snapshot.sna".to_owned(),
    }
}

/// Where a video is offered to go: beside the tape, or `recording`, as an
/// `.mp4`.
pub fn video_path(tape: Option<&str>) -> (r: String)
    ensures
        r@ == path_with_extension(
            match tape {
                Some(t) => t@,
                None => "recording"@,
            },
            "mp4"@,
        ),
{
    proof {
        reveal_strlit("mp4");
    }
    match tape {
        Some(path) => with_extension(path, "mp4"),
        None => with_extension("recording", "mp4"),
    }
}

/// Why the processor is not running at the speed the dropdown says, if it is
/// wound up and is not: a recording plays back frame by frame in machine
/// time, and a loader counts against pulses in machine time.
pub open spec fn held_because(wound_up: bool, recording_playing: bool, tape_playing: bool) -> Option<
    Seq<char>,
> {
    if !wound_up {
        None
    } else if recording_playing {
        Some("a recording is playing"@)
    } else if tape_playing {
        Some("a tape is loading"@)
    } else {
        None
    }
}

pub fn turbo_held_because(wound_up: bool, recording_playing: bool, tape_playing: bool) -> (r:
    Option<&'static str>)
    ensures
        match r {
            Some(t) => held_because(wound_up, recording_playing, tape_playing) == Some(t@),
            None => held_because(wound_up, recording_playing, tape_playing) is None,
        },
{
    if !wound_up {
        None
    } else if recording_playing {
        Some("a recording is playing")
    } else if tape_playing {
        Some("a tape is loading")
    } else {
        None
    }
}

} // verus!
