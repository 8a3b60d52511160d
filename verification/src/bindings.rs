//! The Input window's bindings: what on the desk or on a gamepad works the
//! stick, a key of the machine or a mouse button, and how a list of them is
//! written down in the preferences and read back.
//!
//! A binding is a source and an action. The source is a key of the desk,
//! named as egui names it, or a control on a gamepad; the action is one of the
//! stick's five switches, a key of the machine's own keyboard or a button of
//! one of the two mice. A list is kept as `source:action` pieces separated by
//! commas, so the file can be read and edited by hand.
use vstd::prelude::*;
use vstd::string::*;
use crate::hardware::Peripheral;
use crate::paths::opt_text;
use crate::text::{
    all_digits, chars_of, decimal, digit_char, digits_value, eq_ignore_case, has_char, join,
    parse_number, parse_within, parse_unsigned, push_char, push_chars, push_decimal, push_str,
    same, same_ignoring_case, split, split_on, split_once, split_once_at, string_of, strip_prefix,
    is_space, lacks, lemma_lacks, lemma_trim_clean, lemma_index_after, lemma_decimal_reads_back,
    lemma_has_char_concat, lemma_split_join, is_digit, lemma_differ_at, lemma_differ_len,
    lemma_strip_suffix_char, lemma_not_same,
    strip_prefix_of, strip_suffix, strip_suffix_of, trim, trimmed, seqs,
};

verus! {

// ---------------------------------------------------------------------------
// The stick, the mice and the pads
// ---------------------------------------------------------------------------

/// The five switches of a joystick.
#[derive(Clone, Copy, Debug, PartialEq, Eq, Structural)]
pub enum Way {
    Left,
    Right,
    Up,
    Down,
    Fire,
}

/// How a switch is named, on the window and in the preferences.
pub open spec fn way_name(way: Way) -> Seq<char> {
    match way {
        Way::Left => seq!['l', 'e', 'f', 't'],
        Way::Right => seq!['r', 'i', 'g', 'h', 't'],
        Way::Up => seq!['u', 'p'],
        Way::Down => seq!['d', 'o', 'w', 'n'],
        Way::Fire => seq!['f', 'i', 'r', 'e'],
    }
}

impl Way {
    pub const ALL: [Way; 5] = [Way::Left, Way::Right, Way::Up, Way::Down, Way::Fire];

    pub fn name(self) -> (r: &'static str)
        ensures
            r@ == way_name(self),
    {
        proof {
            reveal_strlit("left");
            reveal_strlit("right");
            reveal_strlit("up");
            reveal_strlit("down");
            reveal_strlit("fire");
        }
        match self {
            Way::Left => {
                assert("left"@ =~= seq!['l', 'e', 'f', 't']);
                "left"
            },
            Way::Right => {
                assert("right"@ =~= seq!['r', 'i', 'g', 'h', 't']);
                "right"
            },
            Way::Up => {
                assert("up"@ =~= seq!['u', 'p']);
                "up"
            },
            Way::Down => {
                assert("down"@ =~= seq!['d', 'o', 'w', 'n']);
                "down"
            },
            Way::Fire => {
                assert("fire"@ =~= seq!['f', 'i', 'r', 'e']);
                "fire"
            },
        }
    }
}

/// The buttons of the two mice: a binding can hold one down as the host's
/// mouse button would, which is how a pad plays a game written for a mouse.
#[derive(Clone, Copy, Debug, PartialEq, Eq, Structural)]
pub enum MouseButton {
    KempstonLeft,
    KempstonRight,
    AmxLeft,
    AmxMiddle,
    AmxRight,
}

/// What a mouse button is called on the window.
pub open spec fn mouse_name(b: MouseButton) -> Seq<char> {
    match b {
        MouseButton::KempstonLeft => seq!['K', 'e', 'm', 'p', 's', 't', 'o', 'n', ' ', 'l', 'e', 'f', 't'],
        MouseButton::KempstonRight => seq!['K', 'e', 'm', 'p', 's', 't', 'o', 'n', ' ', 'r', 'i', 'g', 'h', 't'],
        MouseButton::AmxLeft => seq!['A', 'M', 'X', ' ', 'l', 'e', 'f', 't'],
        MouseButton::AmxMiddle => seq!['A', 'M', 'X', ' ', 'm', 'i', 'd', 'd', 'l', 'e'],
        MouseButton::AmxRight => seq!['A', 'M', 'X', ' ', 'r', 'i', 'g', 'h', 't'],
    }
}

/// How a mouse button is written in the preferences.
pub open spec fn mouse_key(b: MouseButton) -> Seq<char> {
    match b {
        MouseButton::KempstonLeft => seq!['k', 'm', 'o', 'u', 's', 'e', '.', 'l', 'e', 'f', 't'],
        MouseButton::KempstonRight => seq!['k', 'm', 'o', 'u', 's', 'e', '.', 'r', 'i', 'g', 'h', 't'],
        MouseButton::AmxLeft => seq!['a', 'm', 'x', '.', 'l', 'e', 'f', 't'],
        MouseButton::AmxMiddle => seq!['a', 'm', 'x', '.', 'm', 'i', 'd', 'd', 'l', 'e'],
        MouseButton::AmxRight => seq!['a', 'm', 'x', '.', 'r', 'i', 'g', 'h', 't'],
    }
}

/// The interface a mouse button is on.
pub open spec fn mouse_on(b: MouseButton) -> Peripheral {
    match b {
        MouseButton::KempstonLeft | MouseButton::KempstonRight => Peripheral::KempstonMouse,
        _ => Peripheral::AmxMouse,
    }
}

impl MouseButton {
    pub const ALL: [MouseButton; 5] = [
        MouseButton::KempstonLeft,
        MouseButton::KempstonRight,
        MouseButton::AmxLeft,
        MouseButton::AmxMiddle,
        MouseButton::AmxRight,
    ];

    pub fn name(self) -> (r: &'static str)
        ensures
            r@ == mouse_name(self),
    {
        proof {
            reveal_strlit("Kempston left");
            reveal_strlit("Kempston right");
            reveal_strlit("AMX left");
            reveal_strlit("AMX middle");
            reveal_strlit("AMX right");
        }
        match self {
            MouseButton::KempstonLeft => {
                assert("Kempston left"@ =~= seq!['K', 'e', 'm', 'p', 's', 't', 'o', 'n', ' ', 'l', 'e', 'f', 't']);
                "Kempston left"
            },
            MouseButton::KempstonRight => {
                assert("Kempston right"@ =~= seq!['K', 'e', 'm', 'p', 's', 't', 'o', 'n', ' ', 'r', 'i', 'g', 'h', 't']);
                "Kempston right"
            },
            MouseButton::AmxLeft => {
                assert("AMX left"@ =~= seq!['A', 'M', 'X', ' ', 'l', 'e', 'f', 't']);
                "AMX left"
            },
            MouseButton::AmxMiddle => {
                assert("AMX middle"@ =~= seq!['A', 'M', 'X', ' ', 'm', 'i', 'd', 'd', 'l', 'e']);
                "AMX middle"
            },
            MouseButton::AmxRight => {
                assert("AMX right"@ =~= seq!['A', 'M', 'X', ' ', 'r', 'i', 'g', 'h', 't']);
                "AMX right"
            },
        }
    }

    /// How it is written in the preferences.
    pub fn key(self) -> (r: &'static str)
        ensures
            r@ == mouse_key(self),
    {
        proof {
            reveal_strlit("kmouse.left");
            reveal_strlit("kmouse.right");
            reveal_strlit("amx.left");
            reveal_strlit("amx.middle");
            reveal_strlit("amx.right");
        }
        match self {
            MouseButton::KempstonLeft => {
                assert("kmouse.left"@ =~= seq!['k', 'm', 'o', 'u', 's', 'e', '.', 'l', 'e', 'f', 't']);
                "kmouse.left"
            },
            MouseButton::KempstonRight => {
                assert("kmouse.right"@ =~= seq!['k', 'm', 'o', 'u', 's', 'e', '.', 'r', 'i', 'g', 'h', 't']);
                "kmouse.right"
            },
            MouseButton::AmxLeft => {
                assert("amx.left"@ =~= seq!['a', 'm', 'x', '.', 'l', 'e', 'f', 't']);
                "amx.left"
            },
            MouseButton::AmxMiddle => {
                assert("amx.middle"@ =~= seq!['a', 'm', 'x', '.', 'm', 'i', 'd', 'd', 'l', 'e']);
                "amx.middle"
            },
            MouseButton::AmxRight => {
                assert("amx.right"@ =~= seq!['a', 'm', 'x', '.', 'r', 'i', 'g', 'h', 't']);
                "amx.right"
            },
        }
    }

    /// The interface the button is on.
    pub fn on(self) -> (r: Peripheral)
        ensures
            r == mouse_on(self),
    {
        match self {
            MouseButton::KempstonLeft | MouseButton::KempstonRight => Peripheral::KempstonMouse,
            _ => Peripheral::AmxMouse,
        }
    }
}

/// A button on a gamepad, as the gamepad crate reports it.
#[derive(Clone, Copy, Debug, PartialEq, Eq, Structural)]
pub enum PadButton {
    South,
    East,
    North,
    West,
    C,
    Z,
    LeftTrigger,
    LeftTrigger2,
    RightTrigger,
    RightTrigger2,
    Select,
    Start,
    Mode,
    LeftThumb,
    RightThumb,
    DPadUp,
    DPadDown,
    DPadLeft,
    DPadRight,
    Unknown,
}

/// An axis of a gamepad, as the gamepad crate reports it.
#[derive(Clone, Copy, Debug, PartialEq, Eq, Structural)]
pub enum PadAxis {
    LeftStickX,
    LeftStickY,
    LeftZ,
    RightStickX,
    RightStickY,
    RightZ,
    DPadX,
    DPadY,
    Unknown,
}

/// A control on a gamepad: a button, or a stick pushed one way.
#[derive(Clone, Copy, Debug, PartialEq, Eq, Structural)]
pub enum Pad {
    Button(PadButton),
    /// An axis and which way along it: a stick has two directions per axis.
    Axis(PadAxis, bool),
}

/// The pad buttons that can be named, and what they are called in a
/// preferences file and in the window.
pub open spec fn button_name(b: PadButton) -> Option<Seq<char>> {
    match b {
        PadButton::South => Some(seq!['A']),
        PadButton::East => Some(seq!['B']),
        PadButton::North => Some(seq!['Y']),
        PadButton::West => Some(seq!['X']),
        PadButton::LeftTrigger => Some(seq!['L', '1']),
        PadButton::LeftTrigger2 => Some(seq!['L', '2']),
        PadButton::RightTrigger => Some(seq!['R', '1']),
        PadButton::RightTrigger2 => Some(seq!['R', '2']),
        PadButton::Select => Some(seq!['S', 'e', 'l', 'e', 'c', 't']),
        PadButton::Start => Some(seq!['S', 't', 'a', 'r', 't']),
        PadButton::Mode => Some(seq!['M', 'o', 'd', 'e']),
        PadButton::LeftThumb => Some(seq!['L', '3']),
        PadButton::RightThumb => Some(seq!['R', '3']),
        PadButton::DPadUp => Some(seq!['D', 'P', 'a', 'd', 'U', 'p']),
        PadButton::DPadDown => Some(seq!['D', 'P', 'a', 'd', 'D', 'o', 'w', 'n']),
        PadButton::DPadLeft => Some(seq!['D', 'P', 'a', 'd', 'L', 'e', 'f', 't']),
        PadButton::DPadRight => Some(seq!['D', 'P', 'a', 'd', 'R', 'i', 'g', 'h', 't']),
        _ => None,
    }
}

/// What the gamepad crate's own name for a button is, which is what an
/// unnamed one is shown as.
pub open spec fn button_debug_name(b: PadButton) -> Seq<char> {
    match b {
        PadButton::South => seq!['S', 'o', 'u', 't', 'h'],
        PadButton::East => seq!['E', 'a', 's', 't'],
        PadButton::North => seq!['N', 'o', 'r', 't', 'h'],
        PadButton::West => seq!['W', 'e', 's', 't'],
        PadButton::C => seq!['C'],
        PadButton::Z => seq!['Z'],
        PadButton::LeftTrigger => seq!['L', 'e', 'f', 't', 'T', 'r', 'i', 'g', 'g', 'e', 'r'],
        PadButton::LeftTrigger2 => seq!['L', 'e', 'f', 't', 'T', 'r', 'i', 'g', 'g', 'e', 'r', '2'],
        PadButton::RightTrigger => seq!['R', 'i', 'g', 'h', 't', 'T', 'r', 'i', 'g', 'g', 'e', 'r'],
        PadButton::RightTrigger2 => seq!['R', 'i', 'g', 'h', 't', 'T', 'r', 'i', 'g', 'g', 'e', 'r', '2'],
        PadButton::Select => seq!['S', 'e', 'l', 'e', 'c', 't'],
        PadButton::Start => seq!['S', 't', 'a', 'r', 't'],
        PadButton::Mode => seq!['M', 'o', 'd', 'e'],
        PadButton::LeftThumb => seq!['L', 'e', 'f', 't', 'T', 'h', 'u', 'm', 'b'],
        PadButton::RightThumb => seq!['R', 'i', 'g', 'h', 't', 'T', 'h', 'u', 'm', 'b'],
        PadButton::DPadUp => seq!['D', 'P', 'a', 'd', 'U', 'p'],
        PadButton::DPadDown => seq!['D', 'P', 'a', 'd', 'D', 'o', 'w', 'n'],
        PadButton::DPadLeft => seq!['D', 'P', 'a', 'd', 'L', 'e', 'f', 't'],
        PadButton::DPadRight => seq!['D', 'P', 'a', 'd', 'R', 'i', 'g', 'h', 't'],
        PadButton::Unknown => seq!['U', 'n', 'k', 'n', 'o', 'w', 'n'],
    }
}

/// The axes that can be named.
pub open spec fn axis_name(a: PadAxis) -> Option<Seq<char>> {
    match a {
        PadAxis::LeftStickX => Some(seq!['L', 'e', 'f', 't', 'X']),
        PadAxis::LeftStickY => Some(seq!['L', 'e', 'f', 't', 'Y']),
        PadAxis::RightStickX => Some(seq!['R', 'i', 'g', 'h', 't', 'X']),
        PadAxis::RightStickY => Some(seq!['R', 'i', 'g', 'h', 't', 'Y']),
        _ => None,
    }
}

/// The button a name stands for, ignoring case, looked for in the order the
/// names are listed.
pub open spec fn button_named(name: Seq<char>) -> Option<PadButton> {
    if eq_ignore_case(name, seq!['A']) {
        Some(PadButton::South)
    }     else if eq_ignore_case(name, seq!['B']) {
        Some(PadButton::East)
    }     else if eq_ignore_case(name, seq!['Y']) {
        Some(PadButton::North)
    }     else if eq_ignore_case(name, seq!['X']) {
        Some(PadButton::West)
    }     else if eq_ignore_case(name, seq!['L', '1']) {
        Some(PadButton::LeftTrigger)
    }     else if eq_ignore_case(name, seq!['L', '2']) {
        Some(PadButton::LeftTrigger2)
    }     else if eq_ignore_case(name, seq!['R', '1']) {
        Some(PadButton::RightTrigger)
    }     else if eq_ignore_case(name, seq!['R', '2']) {
        Some(PadButton::RightTrigger2)
    }     else if eq_ignore_case(name, seq!['S', 'e', 'l', 'e', 'c', 't']) {
        Some(PadButton::Select)
    }     else if eq_ignore_case(name, seq!['S', 't', 'a', 'r', 't']) {
        Some(PadButton::Start)
    }     else if eq_ignore_case(name, seq!['M', 'o', 'd', 'e']) {
        Some(PadButton::Mode)
    }     else if eq_ignore_case(name, seq!['L', '3']) {
        Some(PadButton::LeftThumb)
    }     else if eq_ignore_case(name, seq!['R', '3']) {
        Some(PadButton::RightThumb)
    }     else if eq_ignore_case(name, seq!['D', 'P', 'a', 'd', 'U', 'p']) {
        Some(PadButton::DPadUp)
    }     else if eq_ignore_case(name, seq!['D', 'P', 'a', 'd', 'D', 'o', 'w', 'n']) {
        Some(PadButton::DPadDown)
    }     else if eq_ignore_case(name, seq!['D', 'P', 'a', 'd', 'L', 'e', 'f', 't']) {
        Some(PadButton::DPadLeft)
    }     else if eq_ignore_case(name, seq!['D', 'P', 'a', 'd', 'R', 'i', 'g', 'h', 't']) {
        Some(PadButton::DPadRight)
    } else {
        None
    }
}

/// The axis a name stands for, ignoring case.
pub open spec fn axis_named(name: Seq<char>) -> Option<PadAxis> {
    if eq_ignore_case(name, seq!['L', 'e', 'f', 't', 'X']) {
        Some(PadAxis::LeftStickX)
    }     else if eq_ignore_case(name, seq!['L', 'e', 'f', 't', 'Y']) {
        Some(PadAxis::LeftStickY)
    }     else if eq_ignore_case(name, seq!['R', 'i', 'g', 'h', 't', 'X']) {
        Some(PadAxis::RightStickX)
    }     else if eq_ignore_case(name, seq!['R', 'i', 'g', 'h', 't', 'Y']) {
        Some(PadAxis::RightStickY)
    } else {
        None
    }
}

/// What follows `pad ` in a pad control's name.
pub open spec fn pad_label(pad: Pad) -> Seq<char> {
    match pad {
        Pad::Button(b) => match button_name(b) {
            Some(n) => n,
            None => button_debug_name(b),
        },
        Pad::Axis(a, positive) => match axis_name(a) {
            Some(n) => n,
            None => seq!['a', 'x', 'i', 's'],
        }.push(if positive { '+' } else { '-' }),
    }
}

/// What a pad control is called, which is also how it is written down.
pub open spec fn pad_title(pad: Pad) -> Seq<char> {
    seq!['p', 'a', 'd', ' '] + pad_label(pad)
}

/// The pad control a name stands for: an axis with `+` or `-` after it, or a
/// button, ignoring case and the white space round it.
pub open spec fn pad_named(name: Seq<char>) -> Option<Pad> {
    let name = trim(name);
    let axis = match strip_suffix(name, seq!['+']) {
        Some(a) => Some((a, true)),
        None => match strip_suffix(name, seq!['-']) {
            Some(a) => Some((a, false)),
            None => None,
        },
    };
    match axis {
        Some((a, way)) => match axis_named(a) {
            Some(found) => Some(Pad::Axis(found, way)),
            None => match button_named(name) {
                Some(b) => Some(Pad::Button(b)),
                None => None,
            },
        },
        None => match button_named(name) {
            Some(b) => Some(Pad::Button(b)),
            None => None,
        },
    }
}

fn button_label(b: PadButton) -> (r: &'static str)
    ensures
        r@ == (match button_name(b) {
            Some(n) => n,
            None => button_debug_name(b),
        }),
{
    proof {
        reveal_strlit("A");
        reveal_strlit("B");
        reveal_strlit("Y");
        reveal_strlit("X");
        reveal_strlit("C");
        reveal_strlit("Z");
        reveal_strlit("L1");
        reveal_strlit("L2");
        reveal_strlit("R1");
        reveal_strlit("R2");
        reveal_strlit("Select");
        reveal_strlit("Start");
        reveal_strlit("Mode");
        reveal_strlit("L3");
        reveal_strlit("R3");
        reveal_strlit("DPadUp");
        reveal_strlit("DPadDown");
        reveal_strlit("DPadLeft");
        reveal_strlit("DPadRight");
        reveal_strlit("Unknown");
    }
    match b {
        PadButton::South => {
            assert("A"@ =~= seq!['A']);
            "A"
        },
        PadButton::East => {
            assert("B"@ =~= seq!['B']);
            "B"
        },
        PadButton::North => {
            assert("Y"@ =~= seq!['Y']);
            "Y"
        },
        PadButton::West => {
            assert("X"@ =~= seq!['X']);
            "X"
        },
        PadButton::C => {
            assert("C"@ =~= seq!['C']);
            "C"
        },
        PadButton::Z => {
            assert("Z"@ =~= seq!['Z']);
            "Z"
        },
        PadButton::LeftTrigger => {
            assert("L1"@ =~= seq!['L', '1']);
            "L1"
        },
        PadButton::LeftTrigger2 => {
            assert("L2"@ =~= seq!['L', '2']);
            "L2"
        },
        PadButton::RightTrigger => {
            assert("R1"@ =~= seq!['R', '1']);
            "R1"
        },
        PadButton::RightTrigger2 => {
            assert("R2"@ =~= seq!['R', '2']);
            "R2"
        },
        PadButton::Select => {
            assert("Select"@ =~= seq!['S', 'e', 'l', 'e', 'c', 't']);
            "Select"
        },
        PadButton::Start => {
            assert("Start"@ =~= seq!['S', 't', 'a', 'r', 't']);
            "Start"
        },
        PadButton::Mode => {
            assert("Mode"@ =~= seq!['M', 'o', 'd', 'e']);
            "Mode"
        },
        PadButton::LeftThumb => {
            assert("L3"@ =~= seq!['L', '3']);
            "L3"
        },
        PadButton::RightThumb => {
            assert("R3"@ =~= seq!['R', '3']);
            "R3"
        },
        PadButton::DPadUp => {
            assert("DPadUp"@ =~= seq!['D', 'P', 'a', 'd', 'U', 'p']);
            "DPadUp"
        },
        PadButton::DPadDown => {
            assert("DPadDown"@ =~= seq!['D', 'P', 'a', 'd', 'D', 'o', 'w', 'n']);
            "DPadDown"
        },
        PadButton::DPadLeft => {
            assert("DPadLeft"@ =~= seq!['D', 'P', 'a', 'd', 'L', 'e', 'f', 't']);
            "DPadLeft"
        },
        PadButton::DPadRight => {
            assert("DPadRight"@ =~= seq!['D', 'P', 'a', 'd', 'R', 'i', 'g', 'h', 't']);
            "DPadRight"
        },
        PadButton::Unknown => {
            assert("Unknown"@ =~= seq!['U', 'n', 'k', 'n', 'o', 'w', 'n']);
            "Unknown"
        },
    }
}

fn axis_label(a: PadAxis) -> (r: &'static str)
    ensures
        r@ == (match axis_name(a) {
            Some(n) => n,
            None => seq!['a', 'x', 'i', 's'],
        }),
{
    proof {
        reveal_strlit("axis");
        reveal_strlit("LeftX");
        reveal_strlit("LeftY");
        reveal_strlit("RightX");
        reveal_strlit("RightY");
    }
    match a {
        PadAxis::LeftStickX => {
            assert("LeftX"@ =~= seq!['L', 'e', 'f', 't', 'X']);
            "LeftX"
        },
        PadAxis::LeftStickY => {
            assert("LeftY"@ =~= seq!['L', 'e', 'f', 't', 'Y']);
            "LeftY"
        },
        PadAxis::RightStickX => {
            assert("RightX"@ =~= seq!['R', 'i', 'g', 'h', 't', 'X']);
            "RightX"
        },
        PadAxis::RightStickY => {
            assert("RightY"@ =~= seq!['R', 'i', 'g', 'h', 't', 'Y']);
            "RightY"
        },
        _ => {
            assert("axis"@ =~= seq!['a', 'x', 'i', 's']);
            "axis"
        },
    }
}

fn button_by_name(name: &Vec<char>) -> (r: Option<PadButton>)
    ensures
        r == button_named(name@),
{
    proof {
        reveal_strlit("A");
        reveal_strlit("B");
        reveal_strlit("Y");
        reveal_strlit("X");
        reveal_strlit("L1");
        reveal_strlit("L2");
        reveal_strlit("R1");
        reveal_strlit("R2");
        reveal_strlit("Select");
        reveal_strlit("Start");
        reveal_strlit("Mode");
        reveal_strlit("L3");
        reveal_strlit("R3");
        reveal_strlit("DPadUp");
        reveal_strlit("DPadDown");
        reveal_strlit("DPadLeft");
        reveal_strlit("DPadRight");
    }
    let candidate = chars_of("A");
    assert(candidate@ =~= seq!['A']);
    if same_ignoring_case(name, &candidate) {
        return Some(PadButton::South);
    }
    let candidate = chars_of("B");
    assert(candidate@ =~= seq!['B']);
    if same_ignoring_case(name, &candidate) {
        return Some(PadButton::East);
    }
    let candidate = chars_of("Y");
    assert(candidate@ =~= seq!['Y']);
    if same_ignoring_case(name, &candidate) {
        return Some(PadButton::North);
    }
    let candidate = chars_of("X");
    assert(candidate@ =~= seq!['X']);
    if same_ignoring_case(name, &candidate) {
        return Some(PadButton::West);
    }
    let candidate = chars_of("L1");
    assert(candidate@ =~= seq!['L', '1']);
    if same_ignoring_case(name, &candidate) {
        return Some(PadButton::LeftTrigger);
    }
    let candidate = chars_of("L2");
    assert(candidate@ =~= seq!['L', '2']);
    if same_ignoring_case(name, &candidate) {
        return Some(PadButton::LeftTrigger2);
    }
    let candidate = chars_of("R1");
    assert(candidate@ =~= seq!['R', '1']);
    if same_ignoring_case(name, &candidate) {
        return Some(PadButton::RightTrigger);
    }
    let candidate = chars_of("R2");
    assert(candidate@ =~= seq!['R', '2']);
    if same_ignoring_case(name, &candidate) {
        return Some(PadButton::RightTrigger2);
    }
    let candidate = chars_of("Select");
    assert(candidate@ =~= seq!['S', 'e', 'l', 'e', 'c', 't']);
    if same_ignoring_case(name, &candidate) {
        return Some(PadButton::Select);
    }
    let candidate = chars_of("Start");
    assert(candidate@ =~= seq!['S', 't', 'a', 'r', 't']);
    if same_ignoring_case(name, &candidate) {
        return Some(PadButton::Start);
    }
    let candidate = chars_of("Mode");
    assert(candidate@ =~= seq!['M', 'o', 'd', 'e']);
    if same_ignoring_case(name, &candidate) {
        return Some(PadButton::Mode);
    }
    let candidate = chars_of("L3");
    assert(candidate@ =~= seq!['L', '3']);
    if same_ignoring_case(name, &candidate) {
        return Some(PadButton::LeftThumb);
    }
    let candidate = chars_of("R3");
    assert(candidate@ =~= seq!['R', '3']);
    if same_ignoring_case(name, &candidate) {
        return Some(PadButton::RightThumb);
    }
    let candidate = chars_of("DPadUp");
    assert(candidate@ =~= seq!['D', 'P', 'a', 'd', 'U', 'p']);
    if same_ignoring_case(name, &candidate) {
        return Some(PadButton::DPadUp);
    }
    let candidate = chars_of("DPadDown");
    assert(candidate@ =~= seq!['D', 'P', 'a', 'd', 'D', 'o', 'w', 'n']);
    if same_ignoring_case(name, &candidate) {
        return Some(PadButton::DPadDown);
    }
    let candidate = chars_of("DPadLeft");
    assert(candidate@ =~= seq!['D', 'P', 'a', 'd', 'L', 'e', 'f', 't']);
    if same_ignoring_case(name, &candidate) {
        return Some(PadButton::DPadLeft);
    }
    let candidate = chars_of("DPadRight");
    assert(candidate@ =~= seq!['D', 'P', 'a', 'd', 'R', 'i', 'g', 'h', 't']);
    if same_ignoring_case(name, &candidate) {
        return Some(PadButton::DPadRight);
    }
    None
}

fn axis_by_name(name: &Vec<char>) -> (r: Option<PadAxis>)
    ensures
        r == axis_named(name@),
{
    proof {
        reveal_strlit("LeftX");
        reveal_strlit("LeftY");
        reveal_strlit("RightX");
        reveal_strlit("RightY");
    }
    let candidate = chars_of("LeftX");
    assert(candidate@ =~= seq!['L', 'e', 'f', 't', 'X']);
    if same_ignoring_case(name, &candidate) {
        return Some(PadAxis::LeftStickX);
    }
    let candidate = chars_of("LeftY");
    assert(candidate@ =~= seq!['L', 'e', 'f', 't', 'Y']);
    if same_ignoring_case(name, &candidate) {
        return Some(PadAxis::LeftStickY);
    }
    let candidate = chars_of("RightX");
    assert(candidate@ =~= seq!['R', 'i', 'g', 'h', 't', 'X']);
    if same_ignoring_case(name, &candidate) {
        return Some(PadAxis::RightStickX);
    }
    let candidate = chars_of("RightY");
    assert(candidate@ =~= seq!['R', 'i', 'g', 'h', 't', 'Y']);
    if same_ignoring_case(name, &candidate) {
        return Some(PadAxis::RightStickY);
    }
    None
}

// ---------------------------------------------------------------------------
// The machine's keyboard
// ---------------------------------------------------------------------------

/// The main legend on the key of the machine's keyboard that a single line of
/// the matrix works, by row and bit.
pub open spec fn legend(row: nat, bit: nat) -> Option<Seq<char>> {
    if row == 0 && bit == 0 {
        Some(seq!['C', 'A', 'P', 'S', ' ', 'S', 'H', 'I', 'F', 'T'])
    }     else if row == 0 && bit == 1 {
        Some(seq!['Z'])
    }     else if row == 0 && bit == 2 {
        Some(seq!['X'])
    }     else if row == 0 && bit == 3 {
        Some(seq!['C'])
    }     else if row == 0 && bit == 4 {
        Some(seq!['V'])
    }     else if row == 1 && bit == 0 {
        Some(seq!['A'])
    }     else if row == 1 && bit == 1 {
        Some(seq!['S'])
    }     else if row == 1 && bit == 2 {
        Some(seq!['D'])
    }     else if row == 1 && bit == 3 {
        Some(seq!['F'])
    }     else if row == 1 && bit == 4 {
        Some(seq!['G'])
    }     else if row == 2 && bit == 0 {
        Some(seq!['Q'])
    }     else if row == 2 && bit == 1 {
        Some(seq!['W'])
    }     else if row == 2 && bit == 2 {
        Some(seq!['E'])
    }     else if row == 2 && bit == 3 {
        Some(seq!['R'])
    }     else if row == 2 && bit == 4 {
        Some(seq!['T'])
    }     else if row == 3 && bit == 0 {
        Some(seq!['1'])
    }     else if row == 3 && bit == 1 {
        Some(seq!['2'])
    }     else if row == 3 && bit == 2 {
        Some(seq!['3'])
    }     else if row == 3 && bit == 3 {
        Some(seq!['4'])
    }     else if row == 3 && bit == 4 {
        Some(seq!['5'])
    }     else if row == 4 && bit == 0 {
        Some(seq!['0'])
    }     else if row == 4 && bit == 1 {
        Some(seq!['9'])
    }     else if row == 4 && bit == 2 {
        Some(seq!['8'])
    }     else if row == 4 && bit == 3 {
        Some(seq!['7'])
    }     else if row == 4 && bit == 4 {
        Some(seq!['6'])
    }     else if row == 5 && bit == 0 {
        Some(seq!['P'])
    }     else if row == 5 && bit == 1 {
        Some(seq!['O'])
    }     else if row == 5 && bit == 2 {
        Some(seq!['I'])
    }     else if row == 5 && bit == 3 {
        Some(seq!['U'])
    }     else if row == 5 && bit == 4 {
        Some(seq!['Y'])
    }     else if row == 6 && bit == 0 {
        Some(seq!['E', 'N', 'T', 'E', 'R'])
    }     else if row == 6 && bit == 1 {
        Some(seq!['L'])
    }     else if row == 6 && bit == 2 {
        Some(seq!['K'])
    }     else if row == 6 && bit == 3 {
        Some(seq!['J'])
    }     else if row == 6 && bit == 4 {
        Some(seq!['H'])
    }     else if row == 7 && bit == 0 {
        Some(seq!['S', 'P', 'A', 'C', 'E'])
    }     else if row == 7 && bit == 1 {
        Some(seq!['S', 'Y', 'M', 'B', 'O', 'L', ' ', 'S', 'H', 'I', 'F', 'T'])
    }     else if row == 7 && bit == 2 {
        Some(seq!['M'])
    }     else if row == 7 && bit == 3 {
        Some(seq!['N'])
    }     else if row == 7 && bit == 4 {
        Some(seq!['B'])
    } else {
        None
    }
}

fn legend_of(row: usize, bit: u8) -> (r: Option<&'static str>)
    ensures
        match legend(row as nat, bit as nat) {
            Some(l) => r matches Some(x) && x@ == l,
            None => r is None,
        },
{
    proof {
        reveal_strlit("CAPS SHIFT");
        reveal_strlit("Z");
        reveal_strlit("X");
        reveal_strlit("C");
        reveal_strlit("V");
        reveal_strlit("A");
        reveal_strlit("S");
        reveal_strlit("D");
        reveal_strlit("F");
        reveal_strlit("G");
        reveal_strlit("Q");
        reveal_strlit("W");
        reveal_strlit("E");
        reveal_strlit("R");
        reveal_strlit("T");
        reveal_strlit("1");
        reveal_strlit("2");
        reveal_strlit("3");
        reveal_strlit("4");
        reveal_strlit("5");
        reveal_strlit("0");
        reveal_strlit("9");
        reveal_strlit("8");
        reveal_strlit("7");
        reveal_strlit("6");
        reveal_strlit("P");
        reveal_strlit("O");
        reveal_strlit("I");
        reveal_strlit("U");
        reveal_strlit("Y");
        reveal_strlit("ENTER");
        reveal_strlit("L");
        reveal_strlit("K");
        reveal_strlit("J");
        reveal_strlit("H");
        reveal_strlit("SPACE");
        reveal_strlit("SYMBOL SHIFT");
        reveal_strlit("M");
        reveal_strlit("N");
        reveal_strlit("B");
    }
    if row == 0 && bit == 0 {
        assert("CAPS SHIFT"@ =~= seq!['C', 'A', 'P', 'S', ' ', 'S', 'H', 'I', 'F', 'T']);
        return Some("CAPS SHIFT");
    }
    if row == 0 && bit == 1 {
        assert("Z"@ =~= seq!['Z']);
        return Some("Z");
    }
    if row == 0 && bit == 2 {
        assert("X"@ =~= seq!['X']);
        return Some("X");
    }
    if row == 0 && bit == 3 {
        assert("C"@ =~= seq!['C']);
        return Some("C");
    }
    if row == 0 && bit == 4 {
        assert("V"@ =~= seq!['V']);
        return Some("V");
    }
    if row == 1 && bit == 0 {
        assert("A"@ =~= seq!['A']);
        return Some("A");
    }
    if row == 1 && bit == 1 {
        assert("S"@ =~= seq!['S']);
        return Some("S");
    }
    if row == 1 && bit == 2 {
        assert("D"@ =~= seq!['D']);
        return Some("D");
    }
    if row == 1 && bit == 3 {
        assert("F"@ =~= seq!['F']);
        return Some("F");
    }
    if row == 1 && bit == 4 {
        assert("G"@ =~= seq!['G']);
        return Some("G");
    }
    if row == 2 && bit == 0 {
        assert("Q"@ =~= seq!['Q']);
        return Some("Q");
    }
    if row == 2 && bit == 1 {
        assert("W"@ =~= seq!['W']);
        return Some("W");
    }
    if row == 2 && bit == 2 {
        assert("E"@ =~= seq!['E']);
        return Some("E");
    }
    if row == 2 && bit == 3 {
        assert("R"@ =~= seq!['R']);
        return Some("R");
    }
    if row == 2 && bit == 4 {
        assert("T"@ =~= seq!['T']);
        return Some("T");
    }
    if row == 3 && bit == 0 {
        assert("1"@ =~= seq!['1']);
        return Some("1");
    }
    if row == 3 && bit == 1 {
        assert("2"@ =~= seq!['2']);
        return Some("2");
    }
    if row == 3 && bit == 2 {
        assert("3"@ =~= seq!['3']);
        return Some("3");
    }
    if row == 3 && bit == 3 {
        assert("4"@ =~= seq!['4']);
        return Some("4");
    }
    if row == 3 && bit == 4 {
        assert("5"@ =~= seq!['5']);
        return Some("5");
    }
    if row == 4 && bit == 0 {
        assert("0"@ =~= seq!['0']);
        return Some("0");
    }
    if row == 4 && bit == 1 {
        assert("9"@ =~= seq!['9']);
        return Some("9");
    }
    if row == 4 && bit == 2 {
        assert("8"@ =~= seq!['8']);
        return Some("8");
    }
    if row == 4 && bit == 3 {
        assert("7"@ =~= seq!['7']);
        return Some("7");
    }
    if row == 4 && bit == 4 {
        assert("6"@ =~= seq!['6']);
        return Some("6");
    }
    if row == 5 && bit == 0 {
        assert("P"@ =~= seq!['P']);
        return Some("P");
    }
    if row == 5 && bit == 1 {
        assert("O"@ =~= seq!['O']);
        return Some("O");
    }
    if row == 5 && bit == 2 {
        assert("I"@ =~= seq!['I']);
        return Some("I");
    }
    if row == 5 && bit == 3 {
        assert("U"@ =~= seq!['U']);
        return Some("U");
    }
    if row == 5 && bit == 4 {
        assert("Y"@ =~= seq!['Y']);
        return Some("Y");
    }
    if row == 6 && bit == 0 {
        assert("ENTER"@ =~= seq!['E', 'N', 'T', 'E', 'R']);
        return Some("ENTER");
    }
    if row == 6 && bit == 1 {
        assert("L"@ =~= seq!['L']);
        return Some("L");
    }
    if row == 6 && bit == 2 {
        assert("K"@ =~= seq!['K']);
        return Some("K");
    }
    if row == 6 && bit == 3 {
        assert("J"@ =~= seq!['J']);
        return Some("J");
    }
    if row == 6 && bit == 4 {
        assert("H"@ =~= seq!['H']);
        return Some("H");
    }
    if row == 7 && bit == 0 {
        assert("SPACE"@ =~= seq!['S', 'P', 'A', 'C', 'E']);
        return Some("SPACE");
    }
    if row == 7 && bit == 1 {
        assert("SYMBOL SHIFT"@ =~= seq!['S', 'Y', 'M', 'B', 'O', 'L', ' ', 'S', 'H', 'I', 'F', 'T']);
        return Some("SYMBOL SHIFT");
    }
    if row == 7 && bit == 2 {
        assert("M"@ =~= seq!['M']);
        return Some("M");
    }
    if row == 7 && bit == 3 {
        assert("N"@ =~= seq!['N']);
        return Some("N");
    }
    if row == 7 && bit == 4 {
        assert("B"@ =~= seq!['B']);
        return Some("B");
    }
    None
}

// ---------------------------------------------------------------------------
// Bindings
// ---------------------------------------------------------------------------

/// Where a binding comes from: a key of the desk, by egui's name for it, or a
/// control on a gamepad.
#[derive(Clone, Debug, PartialEq, Eq)]
pub enum From {
    Key(String),
    Pad(Pad),
}

/// A binding's source, as text and values.
pub enum FromView {
    Key(Seq<char>),
    Pad(Pad),
}

impl View for From {
    type V = FromView;

    open spec fn view(&self) -> FromView {
        match self {
            From::Key(k) => FromView::Key(k@),
            From::Pad(p) => FromView::Pad(*p),
        }
    }
}

/// What a binding does when its source goes down.
#[derive(Clone, Copy, Debug, PartialEq, Eq, Structural)]
pub enum Does {
    /// One of the stick's five switches.
    Way(Way),
    /// A key of the machine's own keyboard, by where it is in the matrix.
    Key(usize, u8),
    /// A button on one of the mice.
    Mouse(MouseButton),
}

/// One line of the mapping: something to press, and what it works.
#[derive(Clone, Debug, PartialEq, Eq)]
pub struct Binding {
    pub from: From,
    pub does: Does,
}

/// A binding, as text and values.
pub struct BindingView {
    pub from: FromView,
    pub does: Does,
}

impl View for Binding {
    type V = BindingView;

    open spec fn view(&self) -> BindingView {
        BindingView { from: self.from@, does: self.does }
    }
}

/// A list of bindings, as text and values.
pub open spec fn binding_views(bs: Seq<Binding>) -> Seq<BindingView> {
    bs.map_values(|b: Binding| b@)
}

/// How an action is written down.
pub open spec fn does_text(d: Does) -> Seq<char> {
    match d {
        Does::Way(way) => way_name(way),
        Does::Key(row, bit) => seq!['k', 'e', 'y'] + decimal(row as nat) + seq!['.'] + decimal(
            bit as nat,
        ),
        Does::Mouse(button) => mouse_key(button),
    }
}

/// How a source is written down.
pub open spec fn from_text_of(f: FromView) -> Seq<char> {
    match f {
        FromView::Key(k) => k,
        FromView::Pad(p) => seq!['p', 'a', 'd', '.'] + pad_label(p),
    }
}

/// One binding written down: `source:action`.
pub open spec fn binding_text(b: BindingView) -> Seq<char> {
    from_text_of(b.from) + seq![':'] + does_text(b.does)
}

/// A list of bindings written down, separated by commas.
pub open spec fn bindings_text(bs: Seq<BindingView>) -> Seq<char> {
    join(bs.map_values(|b: BindingView| binding_text(b)), ',')
}

// ---------------------------------------------------------------------------
// The desk's keys, as egui names them
// ---------------------------------------------------------------------------

/// How many keys egui knows.
pub const EGUI_KEYS: usize = 145;

/// egui's name for the key at a place in its list of every key.
pub uninterp spec fn egui_key_at(index: usize) -> Option<Seq<char>>;

/// `egui::Key::name` of the key at `index` in `egui::Key::ALL`, which holds
/// every key egui knows, 145 of them. The contract names the answer and says
/// how many there are; the names themselves are egui's.
#[verifier::external_body]
fn egui_key_name(index: usize) -> (r: Option<String>)
    ensures
        opt_text(r) == egui_key_at(index),
        r is Some <==> index < EGUI_KEYS,
{
    egui::Key::ALL.get(index).map(|k| k.name().to_string())
}

/// The first of egui's keys from `i` on whose name is `name` but for case.
pub open spec fn key_lookup_from(name: Seq<char>, i: nat) -> Option<Seq<char>>
    decreases EGUI_KEYS - i,
{
    if i >= EGUI_KEYS {
        None
    } else {
        match egui_key_at(i as usize) {
            Some(k) => if eq_ignore_case(k, name) {
                Some(k)
            } else {
                key_lookup_from(name, i + 1)
            },
            None => None,
        }
    }
}

/// The key of the desk a name stands for, ignoring case: egui's own name for
/// it.
pub open spec fn key_lookup(name: Seq<char>) -> Option<Seq<char>> {
    key_lookup_from(name, 0)
}

/// The key a name stands for, ignoring case, as egui names it.
pub fn key_from_name(name: &Vec<char>) -> (r: Option<String>)
    ensures
        opt_text(r) == key_lookup(name@),
{
    let mut i: usize = 0;
    while i < EGUI_KEYS
        invariant
            i <= EGUI_KEYS,
            key_lookup(name@) == key_lookup_from(name@, i as nat),
        decreases EGUI_KEYS - i,
    {
        match egui_key_name(i) {
            Some(k) => {
                let chars = chars_of(k.as_str());
                if same_ignoring_case(&chars, name) {
                    return Some(k);
                }
            },
            None => {
                return None;
            },
        }
        i = i + 1;
    }
    None
}

// ---------------------------------------------------------------------------
// Reading a list back
// ---------------------------------------------------------------------------

/// The action a piece of text names: a switch, a mouse button, or `key` with
/// a row below eight and a bit below five after it, as `row.bit`.
pub open spec fn does_named(t: Seq<char>) -> Option<Does> {
    if t == way_name(Way::Left) {
        Some(Does::Way(Way::Left))
    } else if t == way_name(Way::Right) {
        Some(Does::Way(Way::Right))
    } else if t == way_name(Way::Up) {
        Some(Does::Way(Way::Up))
    } else if t == way_name(Way::Down) {
        Some(Does::Way(Way::Down))
    } else if t == way_name(Way::Fire) {
        Some(Does::Way(Way::Fire))
    } else if t == mouse_key(MouseButton::KempstonLeft) {
        Some(Does::Mouse(MouseButton::KempstonLeft))
    } else if t == mouse_key(MouseButton::KempstonRight) {
        Some(Does::Mouse(MouseButton::KempstonRight))
    } else if t == mouse_key(MouseButton::AmxLeft) {
        Some(Does::Mouse(MouseButton::AmxLeft))
    } else if t == mouse_key(MouseButton::AmxMiddle) {
        Some(Does::Mouse(MouseButton::AmxMiddle))
    } else if t == mouse_key(MouseButton::AmxRight) {
        Some(Does::Mouse(MouseButton::AmxRight))
    } else {
        match strip_prefix(t, seq!['k', 'e', 'y']) {
            Some(r) => match split_once(r, '.') {
                Some((row, bit)) => match (
                    parse_within(row, usize::MAX as nat),
                    parse_within(bit, u8::MAX as nat),
                ) {
                    (Some(x), Some(y)) => if x < 8 && y < 5 {
                        Some(Does::Key(x as usize, y as u8))
                    } else {
                        None
                    },
                    _ => None,
                },
                None => None,
            },
            None => None,
        }
    }
}

/// The source a piece of text names: `pad.` and a pad control, or a key.
pub open spec fn source_named(f: Seq<char>) -> Option<FromView> {
    let f = trim(f);
    match strip_prefix(f, seq!['p', 'a', 'd', '.']) {
        Some(p) => match pad_named(p) {
            Some(pad) => Some(FromView::Pad(pad)),
            None => None,
        },
        None => match key_lookup(f) {
            Some(k) => Some(FromView::Key(k)),
            None => None,
        },
    }
}

/// The binding one piece of a list stands for, if it stands for one.
pub open spec fn piece_binding(piece: Seq<char>) -> Option<BindingView> {
    match split_once(piece, ':') {
        Some((f, d)) => match source_named(f) {
            Some(from) => match does_named(trim(d)) {
                Some(does) => Some(BindingView { from, does }),
                None => None,
            },
            None => None,
        },
        None => None,
    }
}

/// The bindings a list of pieces stands for: blank pieces and pieces that do
/// not make sense are passed over.
pub open spec fn pieces_bindings(pieces: Seq<Seq<char>>) -> Seq<BindingView>
    decreases pieces.len(),
{
    if pieces.len() == 0 {
        Seq::empty()
    } else {
        let prev = pieces_bindings(pieces.drop_last());
        let p = pieces.last();
        if trim(p).len() == 0 {
            prev
        } else {
            match piece_binding(p) {
                Some(b) => prev.push(b),
                None => prev,
            }
        }
    }
}

/// What a written-down list reads back as.
pub open spec fn read_bindings(text: Seq<char>) -> Seq<BindingView> {
    pieces_bindings(split_on(text, ','))
}

// ---------------------------------------------------------------------------
// Writing things down
// ---------------------------------------------------------------------------

fn push_pad_label(s: &mut String, pad: Pad)
    ensures
        final(s)@ == old(s)@ + pad_label(pad),
{
    match pad {
        Pad::Button(b) => push_str(s, button_label(b)),
        Pad::Axis(a, positive) => {
            push_str(s, axis_label(a));
            push_char(
                s,
                if positive {
                    '+'
                } else {
                    '-'
                },
            );
            assert(final(s)@ =~= old(s)@ + pad_label(pad));
        },
    }
}

/// What a pad control is called, which is also how it is written down.
pub fn pad_name(pad: Pad) -> (r: String)
    ensures
        r@ == pad_title(pad),
{
    let mut s = String::new();
    proof {
        reveal_strlit("pad ");
    }
    push_str(&mut s, "pad ");
    push_pad_label(&mut s, pad);
    assert(s@ =~= pad_title(pad));
    s
}

/// What a binding is worked by, as a line of text.
pub fn from_name(from: &From) -> (r: String)
    ensures
        r@ == match from@ {
            FromView::Key(k) => k,
            FromView::Pad(p) => pad_title(p),
        },
{
    match from {
        From::Key(k) => k.clone(),
        From::Pad(p) => pad_name(*p),
    }
}

fn push_does(s: &mut String, does: Does)
    ensures
        final(s)@ == old(s)@ + does_text(does),
{
    match does {
        Does::Way(way) => push_str(s, way.name()),
        Does::Key(row, bit) => {
            proof {
                reveal_strlit("key");
            }
            push_str(s, "key");
            push_decimal(s, row as u64);
            push_char(s, '.');
            push_decimal(s, bit as u64);
            assert(final(s)@ =~= old(s)@ + does_text(does));
        },
        Does::Mouse(button) => push_str(s, button.key()),
    }
}

fn push_binding(s: &mut String, b: &Binding)
    ensures
        final(s)@ == old(s)@ + binding_text(b@),
{
    match &b.from {
        From::Key(k) => push_str(s, k.as_str()),
        From::Pad(p) => {
            proof {
                reveal_strlit("pad.");
            }
            push_str(s, "pad.");
            push_pad_label(s, *p);
        },
    }
    push_char(s, ':');
    push_does(s, b.does);
    assert(final(s)@ =~= old(s)@ + binding_text(b@));
}

/// Saved as `source:action`, comma after comma, so the file can be read and
/// edited.
pub fn to_text(bindings: &Vec<Binding>) -> (r: String)
    ensures
        r@ == bindings_text(binding_views(bindings@)),
{
    let ghost texts = binding_views(bindings@).map_values(|b: BindingView| binding_text(b));
    let mut s = String::new();
    let mut i: usize = 0;
    while i < bindings.len()
        invariant
            i <= bindings.len(),
            texts == binding_views(bindings@).map_values(|b: BindingView| binding_text(b)),
            s@ == join(texts.take(i as int), ','),
        decreases bindings.len() - i,
    {
        let ghost before = s@;
        if i > 0 {
            push_char(&mut s, ',');
        }
        push_binding(&mut s, &bindings[i]);
        proof {
            let t = texts.take(i + 1);
            assert(t.drop_last() =~= texts.take(i as int));
            assert(t.last() == binding_text(bindings@[i as int]@));
            if i == 0 {
                assert(s@ =~= join(t, ','));
            } else {
                assert(s@ =~= join(t, ','));
            }
        }
        i = i + 1;
    }
    assert(texts.take(bindings.len() as int) =~= texts);
    s
}

// ---------------------------------------------------------------------------
// Reading things back
// ---------------------------------------------------------------------------

/// The pad control a name stands for, as the preferences write it.
pub fn pad_from_name(name: &Vec<char>) -> (r: Option<Pad>)
    ensures
        r == pad_named(name@),
{
    let name = trimmed(name);
    let mut plus_sign: Vec<char> = Vec::new();
    plus_sign.push('+');
    let mut minus_sign: Vec<char> = Vec::new();
    minus_sign.push('-');
    assert(plus_sign@ =~= seq!['+']);
    assert(minus_sign@ =~= seq!['-']);
    let plus = strip_suffix_of(&name, &plus_sign);
    let axis = match plus {
        Some(a) => Some((a, true)),
        None => match strip_suffix_of(&name, &minus_sign) {
            Some(a) => Some((a, false)),
            None => None,
        },
    };
    match axis {
        Some((a, way)) => {
            match axis_by_name(&a) {
                Some(found) => {
                    return Some(Pad::Axis(found, way));
                },
                None => {},
            }
        },
        None => {},
    }
    match button_by_name(&name) {
        Some(b) => Some(Pad::Button(b)),
        None => None,
    }
}

fn key(name: &str) -> (s: String)
    ensures
        s@ == name@,
{
    let mut s = String::new();
    push_str(&mut s, name);
    s
}

fn same_as(t: &Vec<char>, lit: &str) -> (r: bool)
    ensures
        r == (t@ == lit@),
{
    let l = chars_of(lit);
    same(t, &l)
}

/// The action a piece of text names.
pub fn does_from_text(t: &Vec<char>) -> (r: Option<Does>)
    ensures
        r == does_named(t@),
{
    proof {
        reveal_strlit("left");
        reveal_strlit("right");
        reveal_strlit("up");
        reveal_strlit("down");
        reveal_strlit("fire");
        reveal_strlit("kmouse.left");
        reveal_strlit("kmouse.right");
        reveal_strlit("amx.left");
        reveal_strlit("amx.middle");
        reveal_strlit("amx.right");
        reveal_strlit("key");
        assert("left"@ =~= way_name(Way::Left));
        assert("right"@ =~= way_name(Way::Right));
        assert("up"@ =~= way_name(Way::Up));
        assert("down"@ =~= way_name(Way::Down));
        assert("fire"@ =~= way_name(Way::Fire));
        assert("kmouse.left"@ =~= mouse_key(MouseButton::KempstonLeft));
        assert("kmouse.right"@ =~= mouse_key(MouseButton::KempstonRight));
        assert("amx.left"@ =~= mouse_key(MouseButton::AmxLeft));
        assert("amx.middle"@ =~= mouse_key(MouseButton::AmxMiddle));
        assert("amx.right"@ =~= mouse_key(MouseButton::AmxRight));
        assert("key"@ =~= seq!['k', 'e', 'y']);
    }
    if same_as(t, "left") {
        return Some(Does::Way(Way::Left));
    }
    if same_as(t, "right") {
        return Some(Does::Way(Way::Right));
    }
    if same_as(t, "up") {
        return Some(Does::Way(Way::Up));
    }
    if same_as(t, "down") {
        return Some(Does::Way(Way::Down));
    }
    if same_as(t, "fire") {
        return Some(Does::Way(Way::Fire));
    }
    if same_as(t, "kmouse.left") {
        return Some(Does::Mouse(MouseButton::KempstonLeft));
    }
    if same_as(t, "kmouse.right") {
        return Some(Does::Mouse(MouseButton::KempstonRight));
    }
    if same_as(t, "amx.left") {
        return Some(Does::Mouse(MouseButton::AmxLeft));
    }
    if same_as(t, "amx.middle") {
        return Some(Does::Mouse(MouseButton::AmxMiddle));
    }
    if same_as(t, "amx.right") {
        return Some(Does::Mouse(MouseButton::AmxRight));
    }
    let key = chars_of("key");
    match strip_prefix_of(t, &key) {
        Some(rest) => match split_once_at(&rest, '.') {
            Some((row, bit)) => {
                let x = parse_number(&row, usize::MAX as u64);
                let y = parse_number(&bit, u8::MAX as u64);
                match (x, y) {
                    (Some(x), Some(y)) => {
                        if x < 8 && y < 5 {
                            Some(Does::Key(x as usize, y as u8))
                        } else {
                            None
                        }
                    },
                    _ => None,
                }
            },
            None => None,
        },
        None => None,
    }
}

/// The source a piece of text names.
fn source_from_text(f: &Vec<char>) -> (r: Option<From>)
    ensures
        match source_named(f@) {
            Some(v) => r matches Some(x) && x@ == v,
            None => r is None,
        },
{
    let f = trimmed(f);
    proof {
        reveal_strlit("pad.");
    }
    let prefix = chars_of("pad.");
    assert(prefix@ =~= seq!['p', 'a', 'd', '.']);
    match strip_prefix_of(&f, &prefix) {
        Some(p) => match pad_from_name(&p) {
            Some(pad) => Some(From::Pad(pad)),
            None => None,
        },
        None => match key_from_name(&f) {
            Some(k) => Some(From::Key(k)),
            None => None,
        },
    }
}

/// The binding one piece of a list stands for, if any.
fn binding_from_piece(piece: &Vec<char>) -> (r: Option<Binding>)
    ensures
        match piece_binding(piece@) {
            Some(v) => r matches Some(x) && x@ == v,
            None => r is None,
        },
{
    match split_once_at(piece, ':') {
        Some((f, d)) => match source_from_text(&f) {
            Some(from) => {
                let d = trimmed(&d);
                match does_from_text(&d) {
                    Some(does) => Some(Binding { from, does }),
                    None => None,
                }
            },
            None => None,
        },
        None => None,
    }
}

/// Read a list back. Pieces that make no sense — a key egui does not know, a
/// row or bit out of range — are passed over rather than refused.
pub fn from_text(text: &str) -> (r: Vec<Binding>)
    ensures
        binding_views(r@) == read_bindings(text@),
{
    let chars = chars_of(text);
    let pieces = split(&chars, ',');
    let ghost all = seqs(pieces@);
    let mut out: Vec<Binding> = Vec::new();
    let mut i: usize = 0;
    while i < pieces.len()
        invariant
            i <= pieces.len(),
            all == seqs(pieces@),
            binding_views(out@) == pieces_bindings(all.take(i as int)),
        decreases pieces.len() - i,
    {
        let ghost prev = binding_views(out@);
        assert(all.take(i + 1).drop_last() =~= all.take(i as int));
        assert(all.take(i + 1).last() == pieces@[i as int]@);
        let t = trimmed(&pieces[i]);
        if t.len() != 0 {
            match binding_from_piece(&pieces[i]) {
                Some(b) => {
                    out.push(b);
                    assert(binding_views(out@) =~= prev.push(b@));
                },
                None => {},
            }
        }
        i = i + 1;
    }
    assert(all.take(pieces.len() as int) =~= all);
    out
}

// ---------------------------------------------------------------------------
// Saying what a binding does
// ---------------------------------------------------------------------------

/// What a binding does, as a line of text.
pub open spec fn description(does: Does) -> Seq<char> {
    match does {
        Does::Way(way) => way_name(way),
        Does::Key(row, bit) => match legend(row as nat, bit as nat) {
            Some(l) => seq!['t', 'h', 'e', ' '] + l + seq![' ', 'k', 'e', 'y'],
            None => seq!['k', 'e', 'y', ' ', 'a', 't', ' ', 'r', 'o', 'w', ' '] + decimal(
                row as nat,
            ) + seq![' ', 'b', 'i', 't', ' '] + decimal(bit as nat),
        },
        Does::Mouse(button) => seq!['t', 'h', 'e', ' '] + mouse_name(button) + seq![
            ' ',
            'm',
            'o',
            'u',
            's',
            'e',
            ' ',
            'b',
            'u',
            't',
            't',
            'o',
            'n',
        ],
    }
}

/// What a binding does, as a line of text.
pub fn describes(does: Does) -> (r: String)
    ensures
        r@ == description(does),
{
    let mut s = String::new();
    proof {
        reveal_strlit("the ");
        reveal_strlit(" key");
        reveal_strlit("key at row ");
        reveal_strlit(" bit ");
        reveal_strlit(" mouse button");
    }
    match does {
        Does::Way(way) => {
            push_str(&mut s, way.name());
        },
        Does::Key(row, bit) => match legend_of(row, bit) {
            Some(l) => {
                push_str(&mut s, "the ");
                push_str(&mut s, l);
                push_str(&mut s, " key");
            },
            None => {
                push_str(&mut s, "key at row ");
                push_decimal(&mut s, row as u64);
                push_str(&mut s, " bit ");
                push_decimal(&mut s, bit as u64);
            },
        },
        Does::Mouse(button) => {
            push_str(&mut s, "the ");
            push_str(&mut s, button.name());
            push_str(&mut s, " mouse button");
        },
    }
    assert(s@ =~= description(does));
    s
}

/// The name on a key of the matrix, for saying what the programmable
/// interface has been taught: a dash for nothing, a question mark for a line
/// no single key works.
pub fn key_named(key: Option<(usize, u8)>) -> (r: &'static str)
    ensures
        r@ == match key {
            None => seq!['\u{2014}'],
            Some((row, bit)) => match legend(row as nat, bit as nat) {
                Some(l) => l,
                None => seq!['?'],
            },
        },
{
    proof {
        reveal_strlit("\u{2014}");
        reveal_strlit("?");
    }
    match key {
        None => {
            assert("\u{2014}"@ =~= seq!['\u{2014}']);
            "\u{2014}"
        },
        Some((row, bit)) => match legend_of(row, bit) {
            Some(l) => l,
            None => {
                assert("?"@ =~= seq!['?']);
                "?"
            },
        },
    }
}

/// Whether a line of the matrix is one of the two shifts.
pub fn is_shift(at: (usize, u8)) -> (r: bool)
    ensures
        r == (at == (0usize, 0u8) || at == (7usize, 1u8)),
{
    (at.0 == 0 && at.1 == 0) || (at.0 == 7 && at.1 == 1)
}

// ---------------------------------------------------------------------------
// What is being pressed
// ---------------------------------------------------------------------------

/// What the pads are doing this frame: every button down, and every stick
/// pushed past the dead zone with which way it is pushed.
#[derive(Clone, Debug, Default)]
pub struct Pads {
    pub buttons: Vec<PadButton>,
    /// An axis, and whether it is pushed the positive way.
    pub axes: Vec<(PadAxis, bool)>,
    /// How many are plugged in, for the window to say.
    pub count: usize,
}

impl Pads {
    /// Whether a control is over.
    pub fn holding(&self, pad: Pad) -> (r: bool)
        ensures
            r == match pad {
                Pad::Button(b) => self.buttons@.contains(b),
                Pad::Axis(a, positive) => self.axes@.contains((a, positive)),
            },
    {
        match pad {
            Pad::Button(b) => {
                let mut i: usize = 0;
                while i < self.buttons.len()
                    invariant
                        pad == Pad::Button(b),
                        i <= self.buttons.len(),
                        forall|j: int| 0 <= j < i ==> self.buttons@[j] != b,
                    decreases self.buttons.len() - i,
                {
                    if self.buttons[i] == b {
                        assert(self.buttons@[i as int] == b);
                        assert(self.buttons@.contains(b));
                        return true;
                    }
                    i = i + 1;
                }
                false
            },
            Pad::Axis(a, positive) => {
                let mut i: usize = 0;
                while i < self.axes.len()
                    invariant
                        pad == Pad::Axis(a, positive),
                        i <= self.axes.len(),
                        forall|j: int| 0 <= j < i ==> self.axes@[j] != (a, positive),
                    decreases self.axes.len() - i,
                {
                    if self.axes[i].0 == a && self.axes[i].1 == positive {
                        assert(self.axes@[i as int] == (a, positive));
                        assert(self.axes@.contains((a, positive)));
                        return true;
                    }
                    i = i + 1;
                }
                false
            },
        }
    }
}

/// Whether a pad button has a name, which is what makes it one a binding can
/// be worked by.
pub fn is_named_button(b: PadButton) -> (r: bool)
    ensures
        r == (button_name(b) is Some),
{
    match b {
        PadButton::C | PadButton::Z | PadButton::Unknown => false,
        _ => true,
    }
}

/// Whether a pad axis has a name.
pub fn is_named_axis(a: PadAxis) -> (r: bool)
    ensures
        r == (axis_name(a) is Some),
{
    match a {
        PadAxis::LeftStickX | PadAxis::LeftStickY | PadAxis::RightStickX | PadAxis::RightStickY => true,
        _ => false,
    }
}

/// The pad buttons that have names, in the order they are looked at.
pub open spec fn named_button_list() -> Seq<PadButton> {
    seq![
        PadButton::South,
        PadButton::East,
        PadButton::North,
        PadButton::West,
        PadButton::LeftTrigger,
        PadButton::LeftTrigger2,
        PadButton::RightTrigger,
        PadButton::RightTrigger2,
        PadButton::Select,
        PadButton::Start,
        PadButton::Mode,
        PadButton::LeftThumb,
        PadButton::RightThumb,
        PadButton::DPadUp,
        PadButton::DPadDown,
        PadButton::DPadLeft,
        PadButton::DPadRight,
    ]
}

/// The pad axes that have names, in the order they are looked at.
pub open spec fn named_axis_list() -> Seq<PadAxis> {
    seq![PadAxis::LeftStickX, PadAxis::LeftStickY, PadAxis::RightStickX, PadAxis::RightStickY]
}

pub fn named_buttons() -> (r: Vec<PadButton>)
    ensures
        r@ == named_button_list(),
        forall|i: int| 0 <= i < r@.len() ==> button_name(#[trigger] r@[i]) is Some,
{
    let v = vec![
        PadButton::South,
        PadButton::East,
        PadButton::North,
        PadButton::West,
        PadButton::LeftTrigger,
        PadButton::LeftTrigger2,
        PadButton::RightTrigger,
        PadButton::RightTrigger2,
        PadButton::Select,
        PadButton::Start,
        PadButton::Mode,
        PadButton::LeftThumb,
        PadButton::RightThumb,
        PadButton::DPadUp,
        PadButton::DPadDown,
        PadButton::DPadLeft,
        PadButton::DPadRight,
    ];
    assert(v@ =~= named_button_list());
    v
}

pub fn named_axes() -> (r: Vec<PadAxis>)
    ensures
        r@ == named_axis_list(),
        forall|i: int| 0 <= i < r@.len() ==> axis_name(#[trigger] r@[i]) is Some,
{
    let v = vec![PadAxis::LeftStickX, PadAxis::LeftStickY, PadAxis::RightStickX, PadAxis::RightStickY];
    assert(v@ =~= named_axis_list());
    v
}

impl Pads {
    /// A button found down on one of the pads: listed once, however many
    /// pads have it down.
    pub fn press(&mut self, b: PadButton)
        ensures
            old(self).buttons@.contains(b) ==> final(self).buttons@ == old(self).buttons@,
            !old(self).buttons@.contains(b) ==> final(self).buttons@ == old(self).buttons@.push(b),
            final(self).axes@ == old(self).axes@,
            final(self).count == old(self).count,
    {
        if !self.holding(Pad::Button(b)) {
            self.buttons.push(b);
        }
    }
}

/// Whether a source is over, given the keys of the desk that are down, by
/// egui's names for them, and what the pads are doing.
pub open spec fn worked(from: FromView, keys_down: Seq<String>, pads: Pads) -> bool {
    match from {
        FromView::Key(k) => exists|i: int| 0 <= i < keys_down.len() && keys_down[i]@ == k,
        FromView::Pad(p) => match p {
            Pad::Button(b) => pads.buttons@.contains(b),
            Pad::Axis(a, positive) => pads.axes@.contains((a, positive)),
        },
    }
}

/// Whether a binding is being worked, given the keys of the desk that are
/// down, by egui's names for them, and what the pads are doing.
pub fn holding(from: &From, keys_down: &Vec<String>, pads: &Pads) -> (r: bool)
    ensures
        r == worked(from@, keys_down@, *pads),
{
    match from {
        From::Key(k) => {
            let mut i: usize = 0;
            while i < keys_down.len()
                invariant
                    from@ == FromView::Key(k@),
                    i <= keys_down.len(),
                    forall|j: int| 0 <= j < i ==> keys_down@[j]@ != k@,
                decreases keys_down.len() - i,
            {
                if keys_down[i] == *k {
                    assert(keys_down@[i as int]@ == k@);
                    return true;
                }
                i = i + 1;
            }
            false
        },
        From::Pad(p) => pads.holding(*p),
    }
}

/// What a machine with nothing set up gets: the arrow keys and the space bar,
/// which is what a game expects a stick to be; and a pad's d-pad and left
/// stick to steer with, and its bottom face button to fire.
pub fn defaults() -> (r: Vec<Binding>)
    ensures
        binding_views(r@) == seq![
            BindingView { from: FromView::Key(seq!['L', 'e', 'f', 't']), does: Does::Way(Way::Left) },
            BindingView { from: FromView::Key(seq!['R', 'i', 'g', 'h', 't']), does: Does::Way(Way::Right) },
            BindingView { from: FromView::Key(seq!['U', 'p']), does: Does::Way(Way::Up) },
            BindingView { from: FromView::Key(seq!['D', 'o', 'w', 'n']), does: Does::Way(Way::Down) },
            BindingView { from: FromView::Key(seq!['S', 'p', 'a', 'c', 'e']), does: Does::Way(Way::Fire) },
            BindingView { from: FromView::Pad(Pad::Button(PadButton::DPadLeft)), does: Does::Way(Way::Left) },
            BindingView { from: FromView::Pad(Pad::Button(PadButton::DPadRight)), does: Does::Way(Way::Right) },
            BindingView { from: FromView::Pad(Pad::Button(PadButton::DPadUp)), does: Does::Way(Way::Up) },
            BindingView { from: FromView::Pad(Pad::Button(PadButton::DPadDown)), does: Does::Way(Way::Down) },
            BindingView { from: FromView::Pad(Pad::Axis(PadAxis::LeftStickX, false)), does: Does::Way(Way::Left) },
            BindingView { from: FromView::Pad(Pad::Axis(PadAxis::LeftStickX, true)), does: Does::Way(Way::Right) },
            BindingView { from: FromView::Pad(Pad::Axis(PadAxis::LeftStickY, true)), does: Does::Way(Way::Up) },
            BindingView { from: FromView::Pad(Pad::Axis(PadAxis::LeftStickY, false)), does: Does::Way(Way::Down) },
            BindingView { from: FromView::Pad(Pad::Button(PadButton::South)), does: Does::Way(Way::Fire) },
        ],
{
    proof {
        reveal_strlit("Left");
        reveal_strlit("Right");
        reveal_strlit("Up");
        reveal_strlit("Down");
        reveal_strlit("Space");
    }
    assert("Left"@ =~= seq!['L', 'e', 'f', 't']);
    assert("Right"@ =~= seq!['R', 'i', 'g', 'h', 't']);
    assert("Up"@ =~= seq!['U', 'p']);
    assert("Down"@ =~= seq!['D', 'o', 'w', 'n']);
    assert("Space"@ =~= seq!['S', 'p', 'a', 'c', 'e']);
    let mut v: Vec<Binding> = Vec::new();
    v.push(Binding { from: From::Key(key("Left")), does: Does::Way(Way::Left) });
    v.push(Binding { from: From::Key(key("Right")), does: Does::Way(Way::Right) });
    v.push(Binding { from: From::Key(key("Up")), does: Does::Way(Way::Up) });
    v.push(Binding { from: From::Key(key("Down")), does: Does::Way(Way::Down) });
    v.push(Binding { from: From::Key(key("Space")), does: Does::Way(Way::Fire) });
    v.push(Binding { from: From::Pad(Pad::Button(PadButton::DPadLeft)), does: Does::Way(Way::Left) });
    v.push(Binding { from: From::Pad(Pad::Button(PadButton::DPadRight)), does: Does::Way(Way::Right) });
    v.push(Binding { from: From::Pad(Pad::Button(PadButton::DPadUp)), does: Does::Way(Way::Up) });
    v.push(Binding { from: From::Pad(Pad::Button(PadButton::DPadDown)), does: Does::Way(Way::Down) });
    v.push(Binding { from: From::Pad(Pad::Axis(PadAxis::LeftStickX, false)), does: Does::Way(Way::Left) });
    v.push(Binding { from: From::Pad(Pad::Axis(PadAxis::LeftStickX, true)), does: Does::Way(Way::Right) });
    v.push(Binding { from: From::Pad(Pad::Axis(PadAxis::LeftStickY, true)), does: Does::Way(Way::Up) });
    v.push(Binding { from: From::Pad(Pad::Axis(PadAxis::LeftStickY, false)), does: Does::Way(Way::Down) });
    v.push(Binding { from: From::Pad(Pad::Button(PadButton::South)), does: Does::Way(Way::Fire) });
    assert(binding_views(v@) =~= seq![
        BindingView { from: FromView::Key(seq!['L', 'e', 'f', 't']), does: Does::Way(Way::Left) },
        BindingView { from: FromView::Key(seq!['R', 'i', 'g', 'h', 't']), does: Does::Way(Way::Right) },
        BindingView { from: FromView::Key(seq!['U', 'p']), does: Does::Way(Way::Up) },
        BindingView { from: FromView::Key(seq!['D', 'o', 'w', 'n']), does: Does::Way(Way::Down) },
        BindingView { from: FromView::Key(seq!['S', 'p', 'a', 'c', 'e']), does: Does::Way(Way::Fire) },
        BindingView { from: FromView::Pad(Pad::Button(PadButton::DPadLeft)), does: Does::Way(Way::Left) },
        BindingView { from: FromView::Pad(Pad::Button(PadButton::DPadRight)), does: Does::Way(Way::Right) },
        BindingView { from: FromView::Pad(Pad::Button(PadButton::DPadUp)), does: Does::Way(Way::Up) },
        BindingView { from: FromView::Pad(Pad::Button(PadButton::DPadDown)), does: Does::Way(Way::Down) },
        BindingView { from: FromView::Pad(Pad::Axis(PadAxis::LeftStickX, false)), does: Does::Way(Way::Left) },
        BindingView { from: FromView::Pad(Pad::Axis(PadAxis::LeftStickX, true)), does: Does::Way(Way::Right) },
        BindingView { from: FromView::Pad(Pad::Axis(PadAxis::LeftStickY, true)), does: Does::Way(Way::Up) },
        BindingView { from: FromView::Pad(Pad::Axis(PadAxis::LeftStickY, false)), does: Does::Way(Way::Down) },
        BindingView { from: FromView::Pad(Pad::Button(PadButton::South)), does: Does::Way(Way::Fire) },
    ]);
    v
}


// ---------------------------------------------------------------------------
// What is written down reads back
// ---------------------------------------------------------------------------

/// A pad control with a name of its own, rather than the gamepad crate's.
pub open spec fn pad_is_named(p: Pad) -> bool {
    match p {
        Pad::Button(b) => button_name(b) is Some,
        Pad::Axis(a, _) => axis_name(a) is Some,
    }
}

/// A binding whose written form is unambiguous: a key that egui knows by
/// exactly that name, with no commas, colons or white space round it and not
/// starting `pad.`; a pad control with a name of its own; and a key of the
/// machine inside the matrix.
pub open spec fn writable(b: BindingView) -> bool {
    &&& match b.from {
        FromView::Key(k) => {
            &&& key_lookup(k) == Some(k)
            &&& k.len() > 0
            &&& !is_space(k[0])
            &&& !is_space(k.last())
            &&& !has_char(k, ',')
            &&& !has_char(k, ':')
            &&& strip_prefix(k, seq!['p', 'a', 'd', '.']) is None
        },
        FromView::Pad(p) => pad_is_named(p),
    }
    &&& match b.does {
        Does::Key(row, bit) => row < 8 && bit < 5,
        _ => true,
    }
}

/// Text that is safe inside a written list: something at both ends that is
/// not white space, and no comma or colon anywhere.
pub open spec fn clean(t: Seq<char>) -> bool {
    &&& t.len() > 0
    &&& !is_space(t[0])
    &&& !is_space(t.last())
    &&& !has_char(t, ',')
    &&& !has_char(t, ':')
}

proof fn lemma_clean_literal(t: Seq<char>)
    requires
        t.len() > 0,
        !is_space(t[0]),
        !is_space(t.last()),
        lacks(t, ','),
        lacks(t, ':'),
    ensures
        clean(t),
{
    lemma_lacks(t, ',');
    lemma_lacks(t, ':');
}

/// A named pad control's label is clean and names it again.
proof fn lemma_pad_label(p: Pad)
    requires
        pad_is_named(p),
    ensures
        clean(pad_label(p)),
        pad_named(pad_label(p)) == Some(p),
{
    reveal_with_fuel(lacks, 12);
    let t = pad_label(p);
    lemma_strip_suffix_char(t, '+');
    lemma_strip_suffix_char(t, '-');
    match p {
        Pad::Button(PadButton::South) => {
            assert(t == seq!['A']);
            lemma_clean_literal(t);
            lemma_trim_clean(t);
            assert(eq_ignore_case(t, t));
            assert(button_named(t) == Some(PadButton::South));
        },
        Pad::Button(PadButton::East) => {
            assert(t == seq!['B']);
            lemma_clean_literal(t);
            lemma_trim_clean(t);
            lemma_differ_at(t, seq!['A'], 0);
            assert(eq_ignore_case(t, t));
            assert(button_named(t) == Some(PadButton::East));
        },
        Pad::Button(PadButton::North) => {
            assert(t == seq!['Y']);
            lemma_clean_literal(t);
            lemma_trim_clean(t);
            lemma_differ_at(t, seq!['A'], 0);
            lemma_differ_at(t, seq!['B'], 0);
            assert(eq_ignore_case(t, t));
            assert(button_named(t) == Some(PadButton::North));
        },
        Pad::Button(PadButton::West) => {
            assert(t == seq!['X']);
            lemma_clean_literal(t);
            lemma_trim_clean(t);
            lemma_differ_at(t, seq!['A'], 0);
            lemma_differ_at(t, seq!['B'], 0);
            lemma_differ_at(t, seq!['Y'], 0);
            assert(eq_ignore_case(t, t));
            assert(button_named(t) == Some(PadButton::West));
        },
        Pad::Button(PadButton::LeftTrigger) => {
            assert(t == seq!['L', '1']);
            lemma_clean_literal(t);
            lemma_trim_clean(t);
            lemma_differ_len(t, seq!['A']);
            lemma_differ_len(t, seq!['B']);
            lemma_differ_len(t, seq!['Y']);
            lemma_differ_len(t, seq!['X']);
            assert(eq_ignore_case(t, t));
            assert(button_named(t) == Some(PadButton::LeftTrigger));
        },
        Pad::Button(PadButton::LeftTrigger2) => {
            assert(t == seq!['L', '2']);
            lemma_clean_literal(t);
            lemma_trim_clean(t);
            lemma_differ_len(t, seq!['A']);
            lemma_differ_len(t, seq!['B']);
            lemma_differ_len(t, seq!['Y']);
            lemma_differ_len(t, seq!['X']);
            lemma_differ_at(t, seq!['L', '1'], 1);
            assert(eq_ignore_case(t, t));
            assert(button_named(t) == Some(PadButton::LeftTrigger2));
        },
        Pad::Button(PadButton::RightTrigger) => {
            assert(t == seq!['R', '1']);
            lemma_clean_literal(t);
            lemma_trim_clean(t);
            lemma_differ_len(t, seq!['A']);
            lemma_differ_len(t, seq!['B']);
            lemma_differ_len(t, seq!['Y']);
            lemma_differ_len(t, seq!['X']);
            lemma_differ_at(t, seq!['L', '1'], 0);
            lemma_differ_at(t, seq!['L', '2'], 0);
            assert(eq_ignore_case(t, t));
            assert(button_named(t) == Some(PadButton::RightTrigger));
        },
        Pad::Button(PadButton::RightTrigger2) => {
            assert(t == seq!['R', '2']);
            lemma_clean_literal(t);
            lemma_trim_clean(t);
            lemma_differ_len(t, seq!['A']);
            lemma_differ_len(t, seq!['B']);
            lemma_differ_len(t, seq!['Y']);
            lemma_differ_len(t, seq!['X']);
            lemma_differ_at(t, seq!['L', '1'], 0);
            lemma_differ_at(t, seq!['L', '2'], 0);
            lemma_differ_at(t, seq!['R', '1'], 1);
            assert(eq_ignore_case(t, t));
            assert(button_named(t) == Some(PadButton::RightTrigger2));
        },
        Pad::Button(PadButton::Select) => {
            assert(t == seq!['S', 'e', 'l', 'e', 'c', 't']);
            lemma_clean_literal(t);
            lemma_trim_clean(t);
            lemma_differ_len(t, seq!['A']);
            lemma_differ_len(t, seq!['B']);
            lemma_differ_len(t, seq!['Y']);
            lemma_differ_len(t, seq!['X']);
            lemma_differ_len(t, seq!['L', '1']);
            lemma_differ_len(t, seq!['L', '2']);
            lemma_differ_len(t, seq!['R', '1']);
            lemma_differ_len(t, seq!['R', '2']);
            assert(eq_ignore_case(t, t));
            assert(button_named(t) == Some(PadButton::Select));
        },
        Pad::Button(PadButton::Start) => {
            assert(t == seq!['S', 't', 'a', 'r', 't']);
            lemma_clean_literal(t);
            lemma_trim_clean(t);
            lemma_differ_len(t, seq!['A']);
            lemma_differ_len(t, seq!['B']);
            lemma_differ_len(t, seq!['Y']);
            lemma_differ_len(t, seq!['X']);
            lemma_differ_len(t, seq!['L', '1']);
            lemma_differ_len(t, seq!['L', '2']);
            lemma_differ_len(t, seq!['R', '1']);
            lemma_differ_len(t, seq!['R', '2']);
            lemma_differ_len(t, seq!['S', 'e', 'l', 'e', 'c', 't']);
            assert(eq_ignore_case(t, t));
            assert(button_named(t) == Some(PadButton::Start));
        },
        Pad::Button(PadButton::Mode) => {
            assert(t == seq!['M', 'o', 'd', 'e']);
            lemma_clean_literal(t);
            lemma_trim_clean(t);
            lemma_differ_len(t, seq!['A']);
            lemma_differ_len(t, seq!['B']);
            lemma_differ_len(t, seq!['Y']);
            lemma_differ_len(t, seq!['X']);
            lemma_differ_len(t, seq!['L', '1']);
            lemma_differ_len(t, seq!['L', '2']);
            lemma_differ_len(t, seq!['R', '1']);
            lemma_differ_len(t, seq!['R', '2']);
            lemma_differ_len(t, seq!['S', 'e', 'l', 'e', 'c', 't']);
            lemma_differ_len(t, seq!['S', 't', 'a', 'r', 't']);
            assert(eq_ignore_case(t, t));
            assert(button_named(t) == Some(PadButton::Mode));
        },
        Pad::Button(PadButton::LeftThumb) => {
            assert(t == seq!['L', '3']);
            lemma_clean_literal(t);
            lemma_trim_clean(t);
            lemma_differ_len(t, seq!['A']);
            lemma_differ_len(t, seq!['B']);
            lemma_differ_len(t, seq!['Y']);
            lemma_differ_len(t, seq!['X']);
            lemma_differ_at(t, seq!['L', '1'], 1);
            lemma_differ_at(t, seq!['L', '2'], 1);
            lemma_differ_at(t, seq!['R', '1'], 0);
            lemma_differ_at(t, seq!['R', '2'], 0);
            lemma_differ_len(t, seq!['S', 'e', 'l', 'e', 'c', 't']);
            lemma_differ_len(t, seq!['S', 't', 'a', 'r', 't']);
            lemma_differ_len(t, seq!['M', 'o', 'd', 'e']);
            assert(eq_ignore_case(t, t));
            assert(button_named(t) == Some(PadButton::LeftThumb));
        },
        Pad::Button(PadButton::RightThumb) => {
            assert(t == seq!['R', '3']);
            lemma_clean_literal(t);
            lemma_trim_clean(t);
            lemma_differ_len(t, seq!['A']);
            lemma_differ_len(t, seq!['B']);
            lemma_differ_len(t, seq!['Y']);
            lemma_differ_len(t, seq!['X']);
            lemma_differ_at(t, seq!['L', '1'], 0);
            lemma_differ_at(t, seq!['L', '2'], 0);
            lemma_differ_at(t, seq!['R', '1'], 1);
            lemma_differ_at(t, seq!['R', '2'], 1);
            lemma_differ_len(t, seq!['S', 'e', 'l', 'e', 'c', 't']);
            lemma_differ_len(t, seq!['S', 't', 'a', 'r', 't']);
            lemma_differ_len(t, seq!['M', 'o', 'd', 'e']);
            lemma_differ_at(t, seq!['L', '3'], 0);
            assert(eq_ignore_case(t, t));
            assert(button_named(t) == Some(PadButton::RightThumb));
        },
        Pad::Button(PadButton::DPadUp) => {
            assert(t == seq!['D', 'P', 'a', 'd', 'U', 'p']);
            lemma_clean_literal(t);
            lemma_trim_clean(t);
            lemma_differ_len(t, seq!['A']);
            lemma_differ_len(t, seq!['B']);
            lemma_differ_len(t, seq!['Y']);
            lemma_differ_len(t, seq!['X']);
            lemma_differ_len(t, seq!['L', '1']);
            lemma_differ_len(t, seq!['L', '2']);
            lemma_differ_len(t, seq!['R', '1']);
            lemma_differ_len(t, seq!['R', '2']);
            lemma_differ_at(t, seq!['S', 'e', 'l', 'e', 'c', 't'], 0);
            lemma_differ_len(t, seq!['S', 't', 'a', 'r', 't']);
            lemma_differ_len(t, seq!['M', 'o', 'd', 'e']);
            lemma_differ_len(t, seq!['L', '3']);
            lemma_differ_len(t, seq!['R', '3']);
            assert(eq_ignore_case(t, t));
            assert(button_named(t) == Some(PadButton::DPadUp));
        },
        Pad::Button(PadButton::DPadDown) => {
            assert(t == seq!['D', 'P', 'a', 'd', 'D', 'o', 'w', 'n']);
            lemma_clean_literal(t);
            lemma_trim_clean(t);
            lemma_differ_len(t, seq!['A']);
            lemma_differ_len(t, seq!['B']);
            lemma_differ_len(t, seq!['Y']);
            lemma_differ_len(t, seq!['X']);
            lemma_differ_len(t, seq!['L', '1']);
            lemma_differ_len(t, seq!['L', '2']);
            lemma_differ_len(t, seq!['R', '1']);
            lemma_differ_len(t, seq!['R', '2']);
            lemma_differ_len(t, seq!['S', 'e', 'l', 'e', 'c', 't']);
            lemma_differ_len(t, seq!['S', 't', 'a', 'r', 't']);
            lemma_differ_len(t, seq!['M', 'o', 'd', 'e']);
            lemma_differ_len(t, seq!['L', '3']);
            lemma_differ_len(t, seq!['R', '3']);
            lemma_differ_len(t, seq!['D', 'P', 'a', 'd', 'U', 'p']);
            assert(eq_ignore_case(t, t));
            assert(button_named(t) == Some(PadButton::DPadDown));
        },
        Pad::Button(PadButton::DPadLeft) => {
            assert(t == seq!['D', 'P', 'a', 'd', 'L', 'e', 'f', 't']);
            lemma_clean_literal(t);
            lemma_trim_clean(t);
            lemma_differ_len(t, seq!['A']);
            lemma_differ_len(t, seq!['B']);
            lemma_differ_len(t, seq!['Y']);
            lemma_differ_len(t, seq!['X']);
            lemma_differ_len(t, seq!['L', '1']);
            lemma_differ_len(t, seq!['L', '2']);
            lemma_differ_len(t, seq!['R', '1']);
            lemma_differ_len(t, seq!['R', '2']);
            lemma_differ_len(t, seq!['S', 'e', 'l', 'e', 'c', 't']);
            lemma_differ_len(t, seq!['S', 't', 'a', 'r', 't']);
            lemma_differ_len(t, seq!['M', 'o', 'd', 'e']);
            lemma_differ_len(t, seq!['L', '3']);
            lemma_differ_len(t, seq!['R', '3']);
            lemma_differ_len(t, seq!['D', 'P', 'a', 'd', 'U', 'p']);
            lemma_differ_at(t, seq!['D', 'P', 'a', 'd', 'D', 'o', 'w', 'n'], 4);
            assert(eq_ignore_case(t, t));
            assert(button_named(t) == Some(PadButton::DPadLeft));
        },
        Pad::Button(PadButton::DPadRight) => {
            assert(t == seq!['D', 'P', 'a', 'd', 'R', 'i', 'g', 'h', 't']);
            lemma_clean_literal(t);
            lemma_trim_clean(t);
            lemma_differ_len(t, seq!['A']);
            lemma_differ_len(t, seq!['B']);
            lemma_differ_len(t, seq!['Y']);
            lemma_differ_len(t, seq!['X']);
            lemma_differ_len(t, seq!['L', '1']);
            lemma_differ_len(t, seq!['L', '2']);
            lemma_differ_len(t, seq!['R', '1']);
            lemma_differ_len(t, seq!['R', '2']);
            lemma_differ_len(t, seq!['S', 'e', 'l', 'e', 'c', 't']);
            lemma_differ_len(t, seq!['S', 't', 'a', 'r', 't']);
            lemma_differ_len(t, seq!['M', 'o', 'd', 'e']);
            lemma_differ_len(t, seq!['L', '3']);
            lemma_differ_len(t, seq!['R', '3']);
            lemma_differ_len(t, seq!['D', 'P', 'a', 'd', 'U', 'p']);
            lemma_differ_len(t, seq!['D', 'P', 'a', 'd', 'D', 'o', 'w', 'n']);
            lemma_differ_len(t, seq!['D', 'P', 'a', 'd', 'L', 'e', 'f', 't']);
            assert(eq_ignore_case(t, t));
            assert(button_named(t) == Some(PadButton::DPadRight));
        },
        Pad::Axis(PadAxis::LeftStickX, true) => {
            assert(t == seq!['L', 'e', 'f', 't', 'X', '+']);
            lemma_clean_literal(t);
            lemma_trim_clean(t);
            let name = seq!['L', 'e', 'f', 't', 'X'];
            assert(t.drop_last() =~= name);
            assert(eq_ignore_case(name, name));
            assert(axis_named(name) == Some(PadAxis::LeftStickX));
        },
        Pad::Axis(PadAxis::LeftStickX, false) => {
            assert(t == seq!['L', 'e', 'f', 't', 'X', '-']);
            lemma_clean_literal(t);
            lemma_trim_clean(t);
            let name = seq!['L', 'e', 'f', 't', 'X'];
            assert(t.drop_last() =~= name);
            assert(eq_ignore_case(name, name));
            assert(axis_named(name) == Some(PadAxis::LeftStickX));
        },
        Pad::Axis(PadAxis::LeftStickY, true) => {
            assert(t == seq!['L', 'e', 'f', 't', 'Y', '+']);
            lemma_clean_literal(t);
            lemma_trim_clean(t);
            let name = seq!['L', 'e', 'f', 't', 'Y'];
            assert(t.drop_last() =~= name);
            lemma_differ_at(name, seq!['L', 'e', 'f', 't', 'X'], 4);
            assert(eq_ignore_case(name, name));
            assert(axis_named(name) == Some(PadAxis::LeftStickY));
        },
        Pad::Axis(PadAxis::LeftStickY, false) => {
            assert(t == seq!['L', 'e', 'f', 't', 'Y', '-']);
            lemma_clean_literal(t);
            lemma_trim_clean(t);
            let name = seq!['L', 'e', 'f', 't', 'Y'];
            assert(t.drop_last() =~= name);
            lemma_differ_at(name, seq!['L', 'e', 'f', 't', 'X'], 4);
            assert(eq_ignore_case(name, name));
            assert(axis_named(name) == Some(PadAxis::LeftStickY));
        },
        Pad::Axis(PadAxis::RightStickX, true) => {
            assert(t == seq!['R', 'i', 'g', 'h', 't', 'X', '+']);
            lemma_clean_literal(t);
            lemma_trim_clean(t);
            let name = seq!['R', 'i', 'g', 'h', 't', 'X'];
            assert(t.drop_last() =~= name);
            lemma_differ_len(name, seq!['L', 'e', 'f', 't', 'X']);
            lemma_differ_len(name, seq!['L', 'e', 'f', 't', 'Y']);
            assert(eq_ignore_case(name, name));
            assert(axis_named(name) == Some(PadAxis::RightStickX));
        },
        Pad::Axis(PadAxis::RightStickX, false) => {
            assert(t == seq!['R', 'i', 'g', 'h', 't', 'X', '-']);
            lemma_clean_literal(t);
            lemma_trim_clean(t);
            let name = seq!['R', 'i', 'g', 'h', 't', 'X'];
            assert(t.drop_last() =~= name);
            lemma_differ_len(name, seq!['L', 'e', 'f', 't', 'X']);
            lemma_differ_len(name, seq!['L', 'e', 'f', 't', 'Y']);
            assert(eq_ignore_case(name, name));
            assert(axis_named(name) == Some(PadAxis::RightStickX));
        },
        Pad::Axis(PadAxis::RightStickY, true) => {
            assert(t == seq!['R', 'i', 'g', 'h', 't', 'Y', '+']);
            lemma_clean_literal(t);
            lemma_trim_clean(t);
            let name = seq!['R', 'i', 'g', 'h', 't', 'Y'];
            assert(t.drop_last() =~= name);
            lemma_differ_len(name, seq!['L', 'e', 'f', 't', 'X']);
            lemma_differ_len(name, seq!['L', 'e', 'f', 't', 'Y']);
            lemma_differ_at(name, seq!['R', 'i', 'g', 'h', 't', 'X'], 5);
            assert(eq_ignore_case(name, name));
            assert(axis_named(name) == Some(PadAxis::RightStickY));
        },
        Pad::Axis(PadAxis::RightStickY, false) => {
            assert(t == seq!['R', 'i', 'g', 'h', 't', 'Y', '-']);
            lemma_clean_literal(t);
            lemma_trim_clean(t);
            let name = seq!['R', 'i', 'g', 'h', 't', 'Y'];
            assert(t.drop_last() =~= name);
            lemma_differ_len(name, seq!['L', 'e', 'f', 't', 'X']);
            lemma_differ_len(name, seq!['L', 'e', 'f', 't', 'Y']);
            lemma_differ_at(name, seq!['R', 'i', 'g', 'h', 't', 'X'], 5);
            assert(eq_ignore_case(name, name));
            assert(axis_named(name) == Some(PadAxis::RightStickY));
        },
        _ => {},
    }
}

/// A writable action's written form is clean and names it again.
proof fn lemma_does_text(d: Does)
    requires
        match d {
            Does::Key(row, bit) => row < 8 && bit < 5,
            _ => true,
        },
    ensures
        clean(does_text(d)),
        does_named(does_text(d)) == Some(d),
{
    reveal_with_fuel(lacks, 13);
    let t = does_text(d);
    match d {
        Does::Way(Way::Left) => {
            assert(t == seq!['l', 'e', 'f', 't']);
            lemma_clean_literal(t);
        },
        Does::Way(Way::Right) => {
            assert(t == seq!['r', 'i', 'g', 'h', 't']);
            lemma_clean_literal(t);
            lemma_differ_len(t, seq!['l', 'e', 'f', 't']);
        },
        Does::Way(Way::Up) => {
            assert(t == seq!['u', 'p']);
            lemma_clean_literal(t);
            lemma_differ_len(t, seq!['l', 'e', 'f', 't']);
            lemma_differ_len(t, seq!['r', 'i', 'g', 'h', 't']);
        },
        Does::Way(Way::Down) => {
            assert(t == seq!['d', 'o', 'w', 'n']);
            lemma_clean_literal(t);
            lemma_not_same(t, seq!['l', 'e', 'f', 't'], 0);
            lemma_differ_len(t, seq!['r', 'i', 'g', 'h', 't']);
            lemma_differ_len(t, seq!['u', 'p']);
        },
        Does::Way(Way::Fire) => {
            assert(t == seq!['f', 'i', 'r', 'e']);
            lemma_clean_literal(t);
            lemma_not_same(t, seq!['l', 'e', 'f', 't'], 0);
            lemma_differ_len(t, seq!['r', 'i', 'g', 'h', 't']);
            lemma_differ_len(t, seq!['u', 'p']);
            lemma_not_same(t, seq!['d', 'o', 'w', 'n'], 0);
        },
        Does::Mouse(MouseButton::KempstonLeft) => {
            assert(t == seq!['k', 'm', 'o', 'u', 's', 'e', '.', 'l', 'e', 'f', 't']);
            lemma_clean_literal(t);
            lemma_differ_len(t, seq!['l', 'e', 'f', 't']);
            lemma_differ_len(t, seq!['r', 'i', 'g', 'h', 't']);
            lemma_differ_len(t, seq!['u', 'p']);
            lemma_differ_len(t, seq!['d', 'o', 'w', 'n']);
            lemma_differ_len(t, seq!['f', 'i', 'r', 'e']);
        },
        Does::Mouse(MouseButton::KempstonRight) => {
            assert(t == seq!['k', 'm', 'o', 'u', 's', 'e', '.', 'r', 'i', 'g', 'h', 't']);
            lemma_clean_literal(t);
            lemma_differ_len(t, seq!['l', 'e', 'f', 't']);
            lemma_differ_len(t, seq!['r', 'i', 'g', 'h', 't']);
            lemma_differ_len(t, seq!['u', 'p']);
            lemma_differ_len(t, seq!['d', 'o', 'w', 'n']);
            lemma_differ_len(t, seq!['f', 'i', 'r', 'e']);
            lemma_differ_len(t, seq!['k', 'm', 'o', 'u', 's', 'e', '.', 'l', 'e', 'f', 't']);
        },
        Does::Mouse(MouseButton::AmxLeft) => {
            assert(t == seq!['a', 'm', 'x', '.', 'l', 'e', 'f', 't']);
            lemma_clean_literal(t);
            lemma_differ_len(t, seq!['l', 'e', 'f', 't']);
            lemma_differ_len(t, seq!['r', 'i', 'g', 'h', 't']);
            lemma_differ_len(t, seq!['u', 'p']);
            lemma_differ_len(t, seq!['d', 'o', 'w', 'n']);
            lemma_differ_len(t, seq!['f', 'i', 'r', 'e']);
            lemma_differ_len(t, seq!['k', 'm', 'o', 'u', 's', 'e', '.', 'l', 'e', 'f', 't']);
            lemma_differ_len(t, seq!['k', 'm', 'o', 'u', 's', 'e', '.', 'r', 'i', 'g', 'h', 't']);
        },
        Does::Mouse(MouseButton::AmxMiddle) => {
            assert(t == seq!['a', 'm', 'x', '.', 'm', 'i', 'd', 'd', 'l', 'e']);
            lemma_clean_literal(t);
            lemma_differ_len(t, seq!['l', 'e', 'f', 't']);
            lemma_differ_len(t, seq!['r', 'i', 'g', 'h', 't']);
            lemma_differ_len(t, seq!['u', 'p']);
            lemma_differ_len(t, seq!['d', 'o', 'w', 'n']);
            lemma_differ_len(t, seq!['f', 'i', 'r', 'e']);
            lemma_differ_len(t, seq!['k', 'm', 'o', 'u', 's', 'e', '.', 'l', 'e', 'f', 't']);
            lemma_differ_len(t, seq!['k', 'm', 'o', 'u', 's', 'e', '.', 'r', 'i', 'g', 'h', 't']);
            lemma_differ_len(t, seq!['a', 'm', 'x', '.', 'l', 'e', 'f', 't']);
        },
        Does::Mouse(MouseButton::AmxRight) => {
            assert(t == seq!['a', 'm', 'x', '.', 'r', 'i', 'g', 'h', 't']);
            lemma_clean_literal(t);
            lemma_differ_len(t, seq!['l', 'e', 'f', 't']);
            lemma_differ_len(t, seq!['r', 'i', 'g', 'h', 't']);
            lemma_differ_len(t, seq!['u', 'p']);
            lemma_differ_len(t, seq!['d', 'o', 'w', 'n']);
            lemma_differ_len(t, seq!['f', 'i', 'r', 'e']);
            lemma_differ_len(t, seq!['k', 'm', 'o', 'u', 's', 'e', '.', 'l', 'e', 'f', 't']);
            lemma_differ_len(t, seq!['k', 'm', 'o', 'u', 's', 'e', '.', 'r', 'i', 'g', 'h', 't']);
            lemma_differ_len(t, seq!['a', 'm', 'x', '.', 'l', 'e', 'f', 't']);
            lemma_differ_len(t, seq!['a', 'm', 'x', '.', 'm', 'i', 'd', 'd', 'l', 'e']);
        },
        Does::Key(row, bit) => {
            lemma_decimal_reads_back(row as nat);
            lemma_decimal_reads_back(bit as nat);
            let dr = decimal(row as nat);
            let db = decimal(bit as nat);
            assert(dr == seq![digit_char(row as nat)]);
            assert(db == seq![digit_char(bit as nat)]);
            assert(t =~= seq!['k', 'e', 'y', digit_char(row as nat), '.', digit_char(bit as nat)]);
            lemma_clean_literal(t);
            lemma_differ_len(t, seq!['l', 'e', 'f', 't']);
            lemma_differ_len(t, seq!['r', 'i', 'g', 'h', 't']);
            lemma_differ_len(t, seq!['u', 'p']);
            lemma_differ_len(t, seq!['d', 'o', 'w', 'n']);
            lemma_differ_len(t, seq!['f', 'i', 'r', 'e']);
            lemma_differ_len(t, seq!['k', 'm', 'o', 'u', 's', 'e', '.', 'l', 'e', 'f', 't']);
            lemma_differ_len(t, seq!['k', 'm', 'o', 'u', 's', 'e', '.', 'r', 'i', 'g', 'h', 't']);
            lemma_differ_len(t, seq!['a', 'm', 'x', '.', 'l', 'e', 'f', 't']);
            lemma_differ_len(t, seq!['a', 'm', 'x', '.', 'm', 'i', 'd', 'd', 'l', 'e']);
            lemma_differ_len(t, seq!['a', 'm', 'x', '.', 'r', 'i', 'g', 'h', 't']);
            let rest = dr + seq!['.'] + db;
            assert(t.take(3) =~= seq!['k', 'e', 'y']);
            assert(t.skip(3) =~= rest);
            assert(strip_prefix(t, seq!['k', 'e', 'y']) == Some(rest));
            assert(!is_digit('.'));
            lemma_index_after(dr, db, '.');
            assert(parse_within(dr, usize::MAX as nat) == Some(row as nat));
            assert(parse_within(db, u8::MAX as nat) == Some(bit as nat));
        },
    }
}

/// A writable source's written form is clean and names it again.
proof fn lemma_from_text(f: FromView)
    requires
        match f {
            FromView::Key(k) => {
                &&& key_lookup(k) == Some(k)
                &&& k.len() > 0
                &&& !is_space(k[0])
                &&& !is_space(k.last())
                &&& !has_char(k, ',')
                &&& !has_char(k, ':')
                &&& strip_prefix(k, seq!['p', 'a', 'd', '.']) is None
            },
            FromView::Pad(p) => pad_is_named(p),
        },
    ensures
        clean(from_text_of(f)),
        source_named(from_text_of(f)) == Some(f),
{
    match f {
        FromView::Key(k) => {
            lemma_trim_clean(k);
        },
        FromView::Pad(p) => {
            lemma_pad_label(p);
            let label = pad_label(p);
            let prefix = seq!['p', 'a', 'd', '.'];
            let t = prefix + label;
            reveal_with_fuel(lacks, 5);
            lemma_clean_literal(prefix);
            lemma_has_char_concat(prefix, label, ',');
            lemma_has_char_concat(prefix, label, ':');
            assert(t[0] == 'p');
            assert(t.last() == label.last());
            lemma_trim_clean(t);
            assert(t.take(4) =~= prefix);
            assert(t.skip(4) =~= label);
        },
    }
}

/// A writable binding's written form has no comma in it and reads back as
/// the binding.
proof fn lemma_binding_text(b: BindingView)
    requires
        writable(b),
    ensures
        !has_char(binding_text(b), ','),
        trim(binding_text(b)).len() > 0,
        piece_binding(binding_text(b)) == Some(b),
{
    lemma_from_text(b.from);
    lemma_does_text(b.does);
    let f = from_text_of(b.from);
    let d = does_text(b.does);
    let t = binding_text(b);
    assert(t == f + seq![':'] + d);
    lemma_index_after(f, d, ':');
    lemma_trim_clean(d);
    lemma_has_char_concat(f, seq![':'], ',');
    lemma_has_char_concat(f + seq![':'], d, ',');
    assert(!has_char(seq![':'], ',')) by {
        reveal_with_fuel(lacks, 2);
        lemma_lacks(seq![':'], ',');
    }
    assert(t[0] == f[0]);
    assert(t.last() == d.last());
    lemma_trim_clean(t);
}

proof fn lemma_pieces_read_back(bs: Seq<BindingView>)
    requires
        forall|i: int| 0 <= i < bs.len() ==> writable(#[trigger] bs[i]),
    ensures
        pieces_bindings(bs.map_values(|b: BindingView| binding_text(b))) == bs,
    decreases bs.len(),
{
    if bs.len() > 0 {
        let front = bs.drop_last();
        assert forall|i: int| 0 <= i < front.len() implies writable(#[trigger] front[i]) by {
            assert(front[i] == bs[i]);
        }
        lemma_pieces_read_back(front);
        let texts = bs.map_values(|b: BindingView| binding_text(b));
        assert(texts.drop_last() =~= front.map_values(|b: BindingView| binding_text(b)));
        assert(writable(bs[bs.len() - 1]));
        lemma_binding_text(bs.last());
        assert(texts.last() == binding_text(bs.last()));
        assert(front.push(bs.last()) =~= bs);
    }
}

/// A list of bindings written down reads back as the same list, as long as
/// each binding's written form is unambiguous.
pub proof fn written_bindings_read_back(bs: Seq<BindingView>)
    requires
        forall|i: int| 0 <= i < bs.len() ==> writable(#[trigger] bs[i]),
    ensures
        read_bindings(bindings_text(bs)) == bs,
{
    let texts = bs.map_values(|b: BindingView| binding_text(b));
    if bs.len() == 0 {
        assert(texts.len() == 0);
        assert(bindings_text(bs) == Seq::<char>::empty());
        assert(split_on(Seq::<char>::empty(), ',') =~= seq![Seq::<char>::empty()]);
        assert(seq![Seq::<char>::empty()].drop_last() =~= Seq::<Seq<char>>::empty());
        assert(trim(Seq::<char>::empty()).len() == 0);
        let one = seq![Seq::<char>::empty()];
        assert(one.len() == 1);
        assert(one.drop_last() =~= Seq::<Seq<char>>::empty());
        assert(one.last() == Seq::<char>::empty());
        assert(pieces_bindings(one.drop_last()) =~= Seq::<BindingView>::empty());
        assert(pieces_bindings(one) =~= Seq::<BindingView>::empty());
        assert(bs =~= Seq::<BindingView>::empty());
    } else {
        assert forall|i: int| 0 <= i < texts.len() implies !has_char(#[trigger] texts[i], ',') by {
            lemma_binding_text(bs[i]);
        }
        lemma_split_join(texts, ',');
        lemma_pieces_read_back(bs);
        assert(bindings_text(bs) == join(texts, ','));
        assert(split_on(bindings_text(bs), ',') == texts);
    }
}

/// How many of a list's pieces are not blank.
pub open spec fn filled_pieces(pieces: Seq<Seq<char>>) -> nat
    decreases pieces.len(),
{
    if pieces.len() == 0 {
        0
    } else {
        filled_pieces(pieces.drop_last()) + if trim(pieces.last()).len() == 0 {
            0nat
        } else {
            1nat
        }
    }
}

/// The keys of the machine a binding read back works are in the matrix.
pub open spec fn key_in_matrix(b: BindingView) -> bool {
    match b.does {
        Does::Key(row, bit) => row < 8 && bit < 5,
        _ => true,
    }
}

proof fn lemma_pieces_bounded(pieces: Seq<Seq<char>>)
    ensures
        pieces_bindings(pieces).len() <= filled_pieces(pieces),
        forall|i: int|
            0 <= i < pieces_bindings(pieces).len() ==> key_in_matrix(#[trigger] pieces_bindings(pieces)[i]),
    decreases pieces.len(),
{
    if pieces.len() > 0 {
        lemma_pieces_bounded(pieces.drop_last());
    }
}

/// Whatever a list reads back as, it holds no more bindings than the list
/// has pieces that are not blank, and every key of the machine a binding
/// works is one of the matrix's, a row below eight and a bit below five.
pub proof fn read_lists_stay_in_bounds(text: Seq<char>)
    ensures
        read_bindings(text).len() <= filled_pieces(split_on(text, ',')),
        forall|i: int| 0 <= i < read_bindings(text).len() ==> key_in_matrix(#[trigger] read_bindings(text)[i]),
{
    lemma_pieces_bounded(split_on(text, ','));
}

} // verus!
