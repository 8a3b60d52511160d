use zx_rustrum::bindings::{defaults, Binding, Does, From, Pad, PadButton, Pads};
use zx_rustrum::keyboard::{host_key_of, keyboard_matrix};

const UP: [u8; 8] = [0xff; 8];

fn down(names: &[&str]) -> Vec<String> {
    names.iter().map(|n| n.to_string()).collect()
}

#[test]
fn nothing_down_leaves_every_key_up() {
    let m = keyboard_matrix(&Vec::new(), &Vec::new(), &Pads::default(), false, false, UP);
    assert_eq!(m, UP);
}

#[test]
fn letters_and_digits_type_their_keys() {
    let m = keyboard_matrix(&Vec::new(), &down(&["Z", "1", "B"]), &Pads::default(), false, false, UP);
    assert_eq!(m, [0xfd, 0xff, 0xff, 0xfe, 0xff, 0xff, 0xff, 0xef]);
}

#[test]
fn enter_and_space() {
    let m = keyboard_matrix(&Vec::new(), &down(&["Enter", "Space"]), &Pads::default(), false, false, UP);
    assert_eq!(m, [0xff, 0xff, 0xff, 0xff, 0xff, 0xff, 0xfe, 0xfe]);
}

#[test]
fn shift_keys() {
    let m = keyboard_matrix(&Vec::new(), &Vec::new(), &Pads::default(), true, false, UP);
    assert_eq!(m, [0xfe, 0xff, 0xff, 0xff, 0xff, 0xff, 0xff, 0xff]);
    let m = keyboard_matrix(&Vec::new(), &Vec::new(), &Pads::default(), false, true, UP);
    assert_eq!(m, [0xff, 0xff, 0xff, 0xff, 0xff, 0xff, 0xff, 0xfd]);
}

#[test]
fn backspace_and_arrows_shift_the_digit_keys() {
    let m = keyboard_matrix(&Vec::new(), &down(&["Backspace"]), &Pads::default(), false, false, UP);
    assert_eq!(m, [0xfe, 0xff, 0xff, 0xff, 0xfe, 0xff, 0xff, 0xff]);
    let m = keyboard_matrix(&Vec::new(), &down(&["Left"]), &Pads::default(), false, false, UP);
    assert_eq!(m, [0xfe, 0xff, 0xff, 0xef, 0xff, 0xff, 0xff, 0xff]);
    let m = keyboard_matrix(&Vec::new(), &down(&["Down", "Up", "Right"]), &Pads::default(), false, false, UP);
    assert_eq!(m, [0xfe, 0xff, 0xff, 0xff, 0xe3, 0xff, 0xff, 0xff]);
}

#[test]
fn keys_that_steer_do_not_type() {
    let m = keyboard_matrix(&defaults(), &down(&["Left", "Space", "Q"]), &Pads::default(), false, false, UP);
    assert_eq!(m, [0xff, 0xff, 0xfe, 0xff, 0xff, 0xff, 0xff, 0xff]);
}

#[test]
fn stick_bindings_hold_machine_keys() {
    let bindings = vec![
        Binding { from: From::Key("X".to_string()), does: Does::Key(5, 0) },
        Binding { from: From::Pad(Pad::Button(PadButton::South)), does: Does::Key(7, 0) },
    ];
    let mut pads = Pads::default();
    pads.press(PadButton::South);
    let m = keyboard_matrix(&bindings, &down(&["X"]), &pads, false, false, UP);
    // X is bound, so it presses P rather than X.
    assert_eq!(m, [0xff, 0xff, 0xff, 0xff, 0xff, 0xfe, 0xff, 0xfe]);
}

#[test]
fn on_screen_keys_are_pressed_too() {
    let mut clicked = UP;
    clicked[2] = 0xf7;
    let m = keyboard_matrix(&Vec::new(), &down(&["A"]), &Pads::default(), false, false, clicked);
    assert_eq!(m, [0xff, 0xfe, 0xf7, 0xff, 0xff, 0xff, 0xff, 0xff]);
}

#[test]
fn unknown_keys_type_nothing() {
    assert_eq!(host_key_of(&"F1".to_string()), None);
    assert_eq!(host_key_of(&"a".to_string()), None);
    assert_eq!(host_key_of(&"H".to_string()), Some((6, 4, false)));
    assert_eq!(host_key_of(&"Up".to_string()), Some((4, 3, true)));
}
