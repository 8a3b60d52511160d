use zx_rustrum::bindings::{defaults, Does, From, Pad, PadButton, Pads, Way};
use zx_rustrum::stick::{rebind, way_over};

#[test]
fn a_held_key_puts_its_switch_over() {
    let keys = vec!["Left".to_string()];
    let b = defaults();
    assert!(way_over(&b, &keys, &Pads::default(), Way::Left));
    assert!(!way_over(&b, &keys, &Pads::default(), Way::Right));
    assert!(!way_over(&b, &keys, &Pads::default(), Way::Fire));
}

#[test]
fn a_pad_button_fires() {
    let mut pads = Pads::default();
    pads.press(PadButton::South);
    assert!(way_over(&defaults(), &Vec::new(), &pads, Way::Fire));
    assert!(!way_over(&defaults(), &Vec::new(), &pads, Way::Up));
}

#[test]
fn a_waiting_line_takes_what_was_pressed() {
    let mut b = defaults();
    rebind(&mut b, 4, From::Key("Q".to_string()));
    assert_eq!(b[4].from, From::Key("Q".to_string()));
    assert_eq!(b[4].does, Does::Way(Way::Fire));
    assert_eq!(b[0].from, From::Key("Left".to_string()));
    let before = b.clone();
    rebind(&mut b, 99, From::Pad(Pad::Button(PadButton::North)));
    assert_eq!(b, before);
}
