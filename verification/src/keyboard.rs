//! The machine's keyboard as the desk works it.
//!
//! The Spectrum reads its keys as eight half-rows of five, one byte a row,
//! with a bit clear for each key that is down. Letters, digits, Enter and the
//! space bar stand for the key with the same legend; Shift is CAPS SHIFT and
//! Alt or Ctrl is SYMBOL SHIFT; Backspace and the arrows are the keys that the
//! machine types them with, CAPS SHIFT and 0, 5, 6, 7 or 8. A key of the desk
//! that works the stick does not type as well. What the stick's bindings hold
//! on the machine's keys, and what the on-screen keyboard holds down, are
//! pressed too.
use vstd::prelude::*;
use vstd::string::*;
use crate::bindings::{Binding, Does, FromView, Pads, holding, legend, worked};
use crate::text::{chars_of, same};

verus! {

/// Whether a bit of a keyboard row reads as a key down.
pub open spec fn is_down(row: u8, bit: u8) -> bool {
    row & (1u8 << bit) == 0u8
}

/// The key of the machine that a single letter or digit of the desk stands
/// for, as a row of the matrix and a bit of it.
pub open spec fn legend_spot(c: char) -> Option<(int, u8)> {
    match c {
        'Z' => Some((0, 1u8)),
        'X' => Some((0, 2u8)),
        'C' => Some((0, 3u8)),
        'V' => Some((0, 4u8)),
        'A' => Some((1, 0u8)),
        'S' => Some((1, 1u8)),
        'D' => Some((1, 2u8)),
        'F' => Some((1, 3u8)),
        'G' => Some((1, 4u8)),
        'Q' => Some((2, 0u8)),
        'W' => Some((2, 1u8)),
        'E' => Some((2, 2u8)),
        'R' => Some((2, 3u8)),
        'T' => Some((2, 4u8)),
        '1' => Some((3, 0u8)),
        '2' => Some((3, 1u8)),
        '3' => Some((3, 2u8)),
        '4' => Some((3, 3u8)),
        '5' => Some((3, 4u8)),
        '0' => Some((4, 0u8)),
        '9' => Some((4, 1u8)),
        '8' => Some((4, 2u8)),
        '7' => Some((4, 3u8)),
        '6' => Some((4, 4u8)),
        'P' => Some((5, 0u8)),
        'O' => Some((5, 1u8)),
        'I' => Some((5, 2u8)),
        'U' => Some((5, 3u8)),
        'Y' => Some((5, 4u8)),
        'L' => Some((6, 1u8)),
        'K' => Some((6, 2u8)),
        'J' => Some((6, 3u8)),
        'H' => Some((6, 4u8)),
        'M' => Some((7, 2u8)),
        'N' => Some((7, 3u8)),
        'B' => Some((7, 4u8)),
        _ => None,
    }
}

/// What a key of the desk, by egui's name for it, types on the machine: the
/// key it stands for, and whether CAPS SHIFT goes down with it.
pub open spec fn host_key(name: Seq<char>) -> Option<(int, u8, bool)> {
    if name.len() == 1 {
        match legend_spot(name[0]) {
            Some((row, bit)) => Some((row, bit, false)),
            None => None,
        }
    } else if name == seq!['E', 'n', 't', 'e', 'r'] {
        Some((6, 0u8, false))
    } else if name == seq!['S', 'p', 'a', 'c', 'e'] {
        Some((7, 0u8, false))
    } else if name == seq!['B', 'a', 'c', 'k', 's', 'p', 'a', 'c', 'e'] {
        Some((4, 0u8, true))
    } else if name == seq!['L', 'e', 'f', 't'] {
        Some((3, 4u8, true))
    } else if name == seq!['D', 'o', 'w', 'n'] {
        Some((4, 4u8, true))
    } else if name == seq!['U', 'p'] {
        Some((4, 3u8, true))
    } else if name == seq!['R', 'i', 'g', 'h', 't'] {
        Some((4, 2u8, true))
    } else {
        None
    }
}

/// Whether a key of the desk presses the machine's key at `row` and `bit`.
pub open spec fn types_at(name: Seq<char>, row: int, bit: u8) -> bool {
    match host_key(name) {
        Some((r, b, caps)) => (r == row && b == bit) || (caps && row == 0 && bit == 0u8),
        None => false,
    }
}

/// Whether a key of the desk works the stick, and so types nothing.
pub open spec fn is_bound(bindings: Seq<Binding>, name: Seq<char>) -> bool {
    exists|i: int| 0 <= i < bindings.len() && bindings[i]@.from == FromView::Key(name)
}

/// Whether a binding is for the machine's key at `row` and `bit`.
pub open spec fn binds_key(b: Binding, row: int, bit: u8) -> bool {
    match b.does {
        Does::Key(r, x) => r as int == row && x == bit,
        _ => false,
    }
}

/// Whether a binding is being worked and holds the machine's key at `row` and
/// `bit`.
pub open spec fn held_by(b: Binding, keys_down: Seq<String>, pads: Pads, row: int, bit: u8) -> bool {
    binds_key(b, row, bit) && worked(b@.from, keys_down, pads)
}

/// Whether a stick binding holds the machine's key at `row` and `bit`.
pub open spec fn held_by_stick(
    bindings: Seq<Binding>,
    keys_down: Seq<String>,
    pads: Pads,
    row: int,
    bit: u8,
) -> bool {
    exists|i: int| 0 <= i < bindings.len() && held_by(bindings[i], keys_down, pads, row, bit)
}

/// Whether a key of the desk that does not work the stick types the
/// machine's key at `row` and `bit`.
pub open spec fn typed(bindings: Seq<Binding>, keys_down: Seq<String>, row: int, bit: u8) -> bool {
    exists|i: int|
        0 <= i < keys_down.len() && !is_bound(bindings, keys_down[i]@) && types_at(
            keys_down[i]@,
            row,
            bit,
        )
}

/// Whether the machine's key at `row` and `bit` is pressed from the desk:
/// through the stick's bindings, by a key of the desk, or by Shift (CAPS
/// SHIFT) or Alt and Ctrl (SYMBOL SHIFT).
pub open spec fn pressed(
    bindings: Seq<Binding>,
    keys_down: Seq<String>,
    pads: Pads,
    shift: bool,
    symbol: bool,
    row: int,
    bit: u8,
) -> bool {
    held_by_stick(bindings, keys_down, pads, row, bit) || typed(bindings, keys_down, row, bit) || (
    shift && row == 0 && bit == 0u8) || (symbol && row == 7 && bit == 1u8)
}

/// The bindings hold only keys that are in the matrix.
pub open spec fn keys_in_matrix(bindings: Seq<Binding>) -> bool {
    forall|i: int|
        0 <= i < bindings.len() ==> match #[trigger] bindings[i].does {
            Does::Key(r, b) => r < 8 && b < 8,
            _ => true,
        }
}

proof fn lemma_clear(x: u8, i: u8, j: u8)
    requires
        i < 8,
        j < 8,
    ensures
        (x & !(1u8 << i)) & (1u8 << j) == 0u8 <==> (x & (1u8 << j) == 0u8 || i == j),
{
    assert((x & !(1u8 << i)) & (1u8 << j) == 0u8 <==> (x & (1u8 << j) == 0u8 || i == j))
        by (bit_vector)
        requires
            i < 8,
            j < 8,
    ;
}

proof fn lemma_both(x: u8, y: u8, j: u8)
    requires
        j < 8,
    ensures
        (x & y) & (1u8 << j) == 0u8 <==> (x & (1u8 << j) == 0u8 || y & (1u8 << j) == 0u8),
{
    assert((x & y) & (1u8 << j) == 0u8 <==> (x & (1u8 << j) == 0u8 || y & (1u8 << j) == 0u8))
        by (bit_vector)
        requires
            j < 8,
    ;
}

proof fn lemma_all_up(j: u8)
    requires
        j < 8,
    ensures
        !is_down(0xffu8, j),
{
    assert(0xffu8 & (1u8 << j) != 0u8) by (bit_vector)
        requires
            j < 8,
    ;
}

/// Puts a key of the machine down.
fn press(matrix: &mut [u8; 8], row: usize, bit: u8)
    requires
        row < 8,
        bit < 8,
    ensures
        forall|r: int, b: u8|
            0 <= r < 8 && b < 8 ==> (#[trigger] is_down(final(matrix)@[r], b) <==> (is_down(
                old(matrix)@[r],
                b,
            ) || (r == row && b == bit))),
{
    let old_row: u8 = matrix[row];
    matrix[row] = old_row & !(1u8 << bit);
    assert forall|r: int, b: u8|
        0 <= r < 8 && b < 8 implies (#[trigger] is_down(matrix@[r], b) <==> (is_down(
            old(matrix)@[r],
            b,
        ) || (r == row && b == bit))) by {
        if r == row {
            lemma_clear(old_row, bit, b);
        }
    }
}

/// Whether a key of the desk is one of those that work the stick.
fn bound_key(bindings: &Vec<Binding>, name: &String) -> (r: bool)
    ensures
        r == is_bound(bindings@, name@),
{
    let mut i: usize = 0;
    while i < bindings.len()
        invariant
            i <= bindings.len(),
            forall|j: int| 0 <= j < i ==> bindings@[j]@.from != FromView::Key(name@),
        decreases bindings.len() - i,
    {
        match &bindings[i].from {
            crate::bindings::From::Key(k) => {
                if *k == *name {
                    assert(bindings@[i as int]@.from == FromView::Key(name@));
                    return true;
                }
            },
            crate::bindings::From::Pad(_) => {},
        }
        i = i + 1;
    }
    false
}

/// The key of the machine that a letter or digit of the desk stands for.
fn legend_spot_of(c: char) -> (r: Option<(usize, u8)>)
    ensures
        match legend_spot(c) {
            Some((row, bit)) => r == Some((row as usize, bit)) && 0 <= row < 8 && bit < 5,
            None => r is None,
        },
{
    match c {
        'Z' => Some((0, 1)),
        'X' => Some((0, 2)),
        'C' => Some((0, 3)),
        'V' => Some((0, 4)),
        'A' => Some((1, 0)),
        'S' => Some((1, 1)),
        'D' => Some((1, 2)),
        'F' => Some((1, 3)),
        'G' => Some((1, 4)),
        'Q' => Some((2, 0)),
        'W' => Some((2, 1)),
        'E' => Some((2, 2)),
        'R' => Some((2, 3)),
        'T' => Some((2, 4)),
        '1' => Some((3, 0)),
        '2' => Some((3, 1)),
        '3' => Some((3, 2)),
        '4' => Some((3, 3)),
        '5' => Some((3, 4)),
        '0' => Some((4, 0)),
        '9' => Some((4, 1)),
        '8' => Some((4, 2)),
        '7' => Some((4, 3)),
        '6' => Some((4, 4)),
        'P' => Some((5, 0)),
        'O' => Some((5, 1)),
        'I' => Some((5, 2)),
        'U' => Some((5, 3)),
        'Y' => Some((5, 4)),
        'L' => Some((6, 1)),
        'K' => Some((6, 2)),
        'J' => Some((6, 3)),
        'H' => Some((6, 4)),
        'M' => Some((7, 2)),
        'N' => Some((7, 3)),
        'B' => Some((7, 4)),
        _ => None,
    }
}

/// What a key of the desk types on the machine, by egui's name for it.
pub fn host_key_of(name: &String) -> (r: Option<(usize, u8, bool)>)
    ensures
        match host_key(name@) {
            Some((row, bit, caps)) => r == Some((row as usize, bit, caps)) && 0 <= row < 8 && bit
                < 5,
            None => r is None,
        },
{
    let chars = chars_of(name.as_str());
    if chars.len() == 1 {
        return match legend_spot_of(chars[0]) {
            Some((row, bit)) => Some((row, bit, false)),
            None => None,
        };
    }
    proof {
        reveal_strlit("Enter");
        reveal_strlit("Space");
        reveal_strlit("Backspace");
        reveal_strlit("Left");
        reveal_strlit("Down");
        reveal_strlit("Up");
        reveal_strlit("Right");
    }
    assert("Enter"@ =~= seq!['E', 'n', 't', 'e', 'r']);
    assert("Space"@ =~= seq!['S', 'p', 'a', 'c', 'e']);
    assert("Backspace"@ =~= seq!['B', 'a', 'c', 'k', 's', 'p', 'a', 'c', 'e']);
    assert("Left"@ =~= seq!['L', 'e', 'f', 't']);
    assert("Down"@ =~= seq!['D', 'o', 'w', 'n']);
    assert("Up"@ =~= seq!['U', 'p']);
    assert("Right"@ =~= seq!['R', 'i', 'g', 'h', 't']);
    if same(&chars, &chars_of("Enter")) {
        Some((6, 0, false))
    } else if same(&chars, &chars_of("Space")) {
        Some((7, 0, false))
    } else if same(&chars, &chars_of("Backspace")) {
        Some((4, 0, true))
    } else if same(&chars, &chars_of("Left")) {
        Some((3, 4, true))
    } else if same(&chars, &chars_of("Down")) {
        Some((4, 4, true))
    } else if same(&chars, &chars_of("Up")) {
        Some((4, 3, true))
    } else if same(&chars, &chars_of("Right")) {
        Some((4, 2, true))
    } else {
        None
    }
}

spec fn held_before(bindings: Seq<Binding>, keys_down: Seq<String>, pads: Pads, n: int, row: int, bit: u8) -> bool {
    exists|j: int| 0 <= j < n && held_by(bindings[j], keys_down, pads, row, bit)
}

spec fn typed_before(bindings: Seq<Binding>, keys_down: Seq<String>, n: int, row: int, bit: u8) -> bool {
    exists|j: int| 0 <= j < n && !is_bound(bindings, keys_down[j]@) && types_at(keys_down[j]@, row, bit)
}

/// The keyboard matrix the machine reads this frame: a bit clear for each key
/// that is held through the stick's bindings, typed from the desk, put down by
/// Shift, Alt or Ctrl, or held on the on-screen keyboard (`clicked`, a matrix
/// of the same shape).
pub fn keyboard_matrix(
    bindings: &Vec<Binding>,
    keys_down: &Vec<String>,
    pads: &Pads,
    shift: bool,
    symbol: bool,
    clicked: [u8; 8],
) -> (r: [u8; 8])
    requires
        keys_in_matrix(bindings@),
    ensures
        forall|row: int, bit: u8|
            0 <= row < 8 && bit < 8 ==> (#[trigger] is_down(r@[row], bit) <==> (pressed(
                bindings@,
                keys_down@,
                *pads,
                shift,
                symbol,
                row,
                bit,
            ) || is_down(clicked@[row], bit))),
{
    let mut matrix: [u8; 8] = [0xffu8; 8];
    proof {
        assert forall|row: int, bit: u8| 0 <= row < 8 && bit < 8 implies !#[trigger] is_down(matrix@[row], bit) by {
            lemma_all_up(bit);
        }
    }
    // The stick's bindings that hold a key of the machine.
    let mut i: usize = 0;
    while i < bindings.len()
        invariant
            keys_in_matrix(bindings@),
            i <= bindings.len(),
            forall|row: int, bit: u8|
                0 <= row < 8 && bit < 8 ==> (#[trigger] is_down(matrix@[row], bit) <==> held_before(
                    bindings@,
                    keys_down@,
                    *pads,
                    i as int,
                    row,
                    bit,
                )),
        decreases bindings.len() - i,
    {
        let ghost before = matrix@;
        assert(match bindings@[i as int].does {
            Does::Key(r, b) => r < 8 && b < 8,
            _ => true,
        });
        let worked_now = holding(&bindings[i].from, keys_down, pads);
        match bindings[i].does {
            Does::Key(row, bit) => {
                if worked_now {
                    press(&mut matrix, row, bit);
                }
            },
            _ => {},
        }
        proof {
            assert forall|r: int, b: u8| 0 <= r < 8 && b < 8 implies (#[trigger] is_down(matrix@[r], b) <==> held_before(
                bindings@,
                keys_down@,
                *pads,
                i + 1,
                r,
                b,
            )) by {
                if held_by(bindings@[i as int], keys_down@, *pads, r, b) {
                    assert(held_before(bindings@, keys_down@, *pads, i + 1, r, b));
                }
                if held_before(bindings@, keys_down@, *pads, i + 1, r, b) {
                    let j = choose|j: int| 0 <= j < i + 1 && held_by(bindings@[j], keys_down@, *pads, r, b);
                    if j < i {
                        assert(held_before(bindings@, keys_down@, *pads, i as int, r, b));
                    }
                }
            }
        }
        i = i + 1;
    }
    // The keys of the desk that type.
    let mut k: usize = 0;
    while k < keys_down.len()
        invariant
            k <= keys_down.len(),
            forall|row: int, bit: u8|
                0 <= row < 8 && bit < 8 ==> (#[trigger] is_down(matrix@[row], bit) <==> (held_before(
                    bindings@,
                    keys_down@,
                    *pads,
                    bindings@.len() as int,
                    row,
                    bit,
                ) || typed_before(bindings@, keys_down@, k as int, row, bit))),
        decreases keys_down.len() - k,
    {
        let free = !bound_key(bindings, &keys_down[k]);
        let spot = host_key_of(&keys_down[k]);
        if free {
            match spot {
                Some((row, bit, caps)) => {
                    press(&mut matrix, row, bit);
                    if caps {
                        press(&mut matrix, 0, 0);
                    }
                },
                None => {},
            }
        }
        proof {
            assert forall|r: int, b: u8| 0 <= r < 8 && b < 8 implies (#[trigger] is_down(matrix@[r], b) <==> (held_before(
                bindings@,
                keys_down@,
                *pads,
                bindings@.len() as int,
                r,
                b,
            ) || typed_before(bindings@, keys_down@, k + 1, r, b))) by {
                let name = keys_down@[k as int]@;
                if !is_bound(bindings@, name) && types_at(name, r, b) {
                    assert(typed_before(bindings@, keys_down@, k + 1, r, b));
                }
                if typed_before(bindings@, keys_down@, k + 1, r, b) {
                    let j = choose|j: int| 0 <= j < k + 1 && !is_bound(bindings@, keys_down@[j]@) && types_at(keys_down@[j]@, r, b);
                    if j < k {
                        assert(typed_before(bindings@, keys_down@, k as int, r, b));
                    }
                }
            }
        }
        k = k + 1;
    }
    // Shift is CAPS SHIFT; Alt and Ctrl are SYMBOL SHIFT.
    if shift {
        press(&mut matrix, 0, 0);
    }
    if symbol {
        press(&mut matrix, 7, 1);
    }
    // What the on-screen keyboard holds.
    let ghost typed_matrix = matrix@;
    let mut row: usize = 0;
    while row < 8
        invariant
            row <= 8,
            forall|r: int| row <= r < 8 ==> matrix@[r] == typed_matrix[r],
            forall|r: int, b: u8| 0 <= r < row && b < 8 ==> (#[trigger] is_down(matrix@[r], b) <==> (is_down(typed_matrix[r], b) || is_down(clicked@[r], b))),
        decreases 8 - row,
    {
        let here: u8 = matrix[row];
        matrix[row] = here & clicked[row];
        proof {
            assert forall|b: u8| b < 8 implies (#[trigger] is_down(matrix@[row as int], b) <==> (is_down(typed_matrix[row as int], b) || is_down(clicked@[row as int], b))) by {
                lemma_both(here, clicked@[row as int], b);
            }
        }
        row = row + 1;
    }
    proof {
        assert forall|r: int, b: u8| 0 <= r < 8 && b < 8 implies (#[trigger] is_down(matrix@[r], b) <==> (pressed(
                bindings@,
                keys_down@,
                *pads,
                shift,
                symbol,
                r,
                b,
            ) || is_down(clicked@[r], b))) by {
            assert(is_down(typed_matrix[r], b) <==> pressed(bindings@, keys_down@, *pads, shift, symbol, r, b));
        }
    }
    matrix
}

/// A key of the desk that works the stick types nothing of its own: with it
/// down as well, the same keys of the machine are typed as without it.
pub proof fn bound_keys_do_not_type(bindings: Seq<Binding>, keys_down: Seq<String>, key: String, row: int, bit: u8)
    requires
        is_bound(bindings, key@),
    ensures
        typed(bindings, keys_down.push(key), row, bit) == typed(bindings, keys_down, row, bit),
{
    let more = keys_down.push(key);
    if typed(bindings, more, row, bit) {
        let j = choose|j: int| 0 <= j < more.len() && !is_bound(bindings, more[j]@) && types_at(more[j]@, row, bit);
        assert(j < keys_down.len());
        assert(more[j] == keys_down[j]);
    }
    if typed(bindings, keys_down, row, bit) {
        let j = choose|j: int| 0 <= j < keys_down.len() && !is_bound(bindings, keys_down[j]@) && types_at(keys_down[j]@, row, bit);
        assert(more[j] == keys_down[j]);
    }
}

/// A letter or digit of the desk presses the one key of the machine whose
/// legend it is: for every key of the matrix, the desk's character `c`
/// stands for it exactly when its legend is `c`.
pub proof fn desk_characters_press_their_legends(c: char, row: nat, bit: nat)
    requires
        row < 8,
        bit < 5,
    ensures
        legend_spot(c) == Some((row as int, bit as u8)) <==> legend(row, bit) == Some(seq![c]),
        host_key(seq![c]) == Some((row as int, bit as u8, false)) <==> legend(row, bit) == Some(
            seq![c],
        ),
{
    assert(seq![c].len() == 1 && seq![c][0] == c);
    if row == 0 && bit == 0 {
    } else if row == 0 && bit == 1 {
    } else if row == 0 && bit == 2 {
    } else if row == 0 && bit == 3 {
    } else if row == 0 && bit == 4 {
    } else if row == 1 && bit == 0 {
    } else if row == 1 && bit == 1 {
    } else if row == 1 && bit == 2 {
    } else if row == 1 && bit == 3 {
    } else if row == 1 && bit == 4 {
    } else if row == 2 && bit == 0 {
    } else if row == 2 && bit == 1 {
    } else if row == 2 && bit == 2 {
    } else if row == 2 && bit == 3 {
    } else if row == 2 && bit == 4 {
    } else if row == 3 && bit == 0 {
    } else if row == 3 && bit == 1 {
    } else if row == 3 && bit == 2 {
    } else if row == 3 && bit == 3 {
    } else if row == 3 && bit == 4 {
    } else if row == 4 && bit == 0 {
    } else if row == 4 && bit == 1 {
    } else if row == 4 && bit == 2 {
    } else if row == 4 && bit == 3 {
    } else if row == 4 && bit == 4 {
    } else if row == 5 && bit == 0 {
    } else if row == 5 && bit == 1 {
    } else if row == 5 && bit == 2 {
    } else if row == 5 && bit == 3 {
    } else if row == 5 && bit == 4 {
    } else if row == 6 && bit == 0 {
    } else if row == 6 && bit == 1 {
    } else if row == 6 && bit == 2 {
    } else if row == 6 && bit == 3 {
    } else if row == 6 && bit == 4 {
    } else if row == 7 && bit == 0 {
    } else if row == 7 && bit == 1 {
    } else if row == 7 && bit == 2 {
    } else if row == 7 && bit == 3 {
    } else if row == 7 && bit == 4 {
    }
}

/// The keys of the desk that are not characters type what the machine's own
/// keyboard types them with: Enter and the space bar their own keys, and
/// Backspace and the arrows CAPS SHIFT with 0, 5, 6, 7 and 8.
pub proof fn editing_keys_are_shifted_digits()
    ensures
        host_key(seq!['E', 'n', 't', 'e', 'r']) matches Some((r, b, caps)) && !caps && legend(
            r as nat,
            b as nat,
        ) == Some(seq!['E', 'N', 'T', 'E', 'R']),
        host_key(seq!['S', 'p', 'a', 'c', 'e']) matches Some((r, b, caps)) && !caps && legend(
            r as nat,
            b as nat,
        ) == Some(seq!['S', 'P', 'A', 'C', 'E']),
        host_key(seq!['B', 'a', 'c', 'k', 's', 'p', 'a', 'c', 'e']) matches Some((r, b, caps))
            && caps && legend(r as nat, b as nat) == Some(seq!['0']),
        host_key(seq!['L', 'e', 'f', 't']) matches Some((r, b, caps)) && caps && legend(
            r as nat,
            b as nat,
        ) == Some(seq!['5']),
        host_key(seq!['D', 'o', 'w', 'n']) matches Some((r, b, caps)) && caps && legend(
            r as nat,
            b as nat,
        ) == Some(seq!['6']),
        host_key(seq!['U', 'p']) matches Some((r, b, caps)) && caps && legend(r as nat, b as nat)
            == Some(seq!['7']),
        host_key(seq!['R', 'i', 'g', 'h', 't']) matches Some((r, b, caps)) && caps && legend(
            r as nat,
            b as nat,
        ) == Some(seq!['8']),
        legend(0, 0) == Some(seq!['C', 'A', 'P', 'S', ' ', 'S', 'H', 'I', 'F', 'T']),
{
}

/// Shift puts down the key marked CAPS SHIFT and nothing else, and Alt or
/// Ctrl the key marked SYMBOL SHIFT; with nothing held, nothing is down.
pub proof fn shifts_press_the_shift_keys(pads: Pads, row: nat, bit: nat)
    requires
        row < 8,
        bit < 5,
    ensures
        pressed(Seq::empty(), Seq::empty(), pads, true, false, row as int, bit as u8) <==> legend(
            row,
            bit,
        ) == Some(seq!['C', 'A', 'P', 'S', ' ', 'S', 'H', 'I', 'F', 'T']),
        pressed(Seq::empty(), Seq::empty(), pads, false, true, row as int, bit as u8) <==> legend(
            row,
            bit,
        ) == Some(seq!['S', 'Y', 'M', 'B', 'O', 'L', ' ', 'S', 'H', 'I', 'F', 'T']),
        !pressed(Seq::empty(), Seq::empty(), pads, false, false, row as int, bit as u8),
{
    let caps = seq!['C', 'A', 'P', 'S', ' ', 'S', 'H', 'I', 'F', 'T'];
    let symbol = seq!['S', 'Y', 'M', 'B', 'O', 'L', ' ', 'S', 'H', 'I', 'F', 'T'];
    assert(caps.len() == 10 && symbol.len() == 12 && caps[0] == 'C' && symbol[0] == 'S');
    if row == 0 && bit == 0 {
    } else if row == 0 && bit == 1 {
    } else if row == 0 && bit == 2 {
    } else if row == 0 && bit == 3 {
    } else if row == 0 && bit == 4 {
    } else if row == 1 && bit == 0 {
    } else if row == 1 && bit == 1 {
    } else if row == 1 && bit == 2 {
    } else if row == 1 && bit == 3 {
    } else if row == 1 && bit == 4 {
    } else if row == 2 && bit == 0 {
    } else if row == 2 && bit == 1 {
    } else if row == 2 && bit == 2 {
    } else if row == 2 && bit == 3 {
    } else if row == 2 && bit == 4 {
    } else if row == 3 && bit == 0 {
    } else if row == 3 && bit == 1 {
    } else if row == 3 && bit == 2 {
    } else if row == 3 && bit == 3 {
    } else if row == 3 && bit == 4 {
    } else if row == 4 && bit == 0 {
    } else if row == 4 && bit == 1 {
    } else if row == 4 && bit == 2 {
    } else if row == 4 && bit == 3 {
    } else if row == 4 && bit == 4 {
    } else if row == 5 && bit == 0 {
    } else if row == 5 && bit == 1 {
    } else if row == 5 && bit == 2 {
    } else if row == 5 && bit == 3 {
    } else if row == 5 && bit == 4 {
    } else if row == 6 && bit == 0 {
    } else if row == 6 && bit == 1 {
    } else if row == 6 && bit == 2 {
    } else if row == 6 && bit == 3 {
    } else if row == 6 && bit == 4 {
    } else if row == 7 && bit == 0 {
    } else if row == 7 && bit == 1 {
    } else if row == 7 && bit == 2 {
    } else if row == 7 && bit == 3 {
    } else if row == 7 && bit == 4 {
    }
}

} // verus!
