use zx_rustrum::bindings::{is_named_axis, is_named_button, named_axes, named_buttons};
use zx_rustrum::bindings::{
    defaults, describes, does_from_text, from_name, from_text, holding, is_shift, key_from_name,
    key_named, pad_from_name, pad_name, to_text, Binding, Does, From, MouseButton, Pad, PadAxis,
    PadButton, Pads, Way,
};
use zx_rustrum::hardware::Peripheral;

fn chars(s: &str) -> Vec<char> {
    s.chars().collect()
}

#[test]
fn way_names() {
    assert_eq!(Way::Left.name(), "left");
    assert_eq!(Way::Fire.name(), "fire");
}

#[test]
fn mouse_button_names_keys_and_interfaces() {
    assert_eq!(MouseButton::KempstonLeft.name(), "Kempston left");
    assert_eq!(MouseButton::AmxMiddle.name(), "AMX middle");
    assert_eq!(MouseButton::KempstonRight.key(), "kmouse.right");
    assert_eq!(MouseButton::AmxRight.key(), "amx.right");
    assert_eq!(MouseButton::KempstonRight.on(), Peripheral::KempstonMouse);
    assert_eq!(MouseButton::AmxLeft.on(), Peripheral::AmxMouse);
}

#[test]
fn pad_names() {
    assert_eq!(pad_name(Pad::Button(PadButton::South)), "pad A");
    assert_eq!(pad_name(Pad::Button(PadButton::DPadLeft)), "pad DPadLeft");
    assert_eq!(pad_name(Pad::Button(PadButton::C)), "pad C");
    assert_eq!(pad_name(Pad::Axis(PadAxis::LeftStickX, true)), "pad LeftX+");
    assert_eq!(pad_name(Pad::Axis(PadAxis::RightStickY, false)), "pad RightY-");
    assert_eq!(pad_name(Pad::Axis(PadAxis::LeftZ, true)), "pad axis+");
}

#[test]
fn pad_names_read_back_ignoring_case() {
    assert_eq!(pad_from_name(&chars("  leftx- ")), Some(Pad::Axis(PadAxis::LeftStickX, false)));
    assert_eq!(pad_from_name(&chars("r2")), Some(Pad::Button(PadButton::RightTrigger2)));
    assert_eq!(pad_from_name(&chars("dpadright")), Some(Pad::Button(PadButton::DPadRight)));
    assert_eq!(pad_from_name(&chars("Turbo")), None);
    assert_eq!(pad_from_name(&chars("A+")), None);
}

#[test]
fn keys_are_found_by_name_whatever_the_case() {
    assert_eq!(key_from_name(&chars("space")), Some("Space".to_string()));
    assert_eq!(key_from_name(&chars("LEFT")), Some("Left".to_string()));
    assert_eq!(key_from_name(&chars("no such key")), None);
}

#[test]
fn describes_actions() {
    assert_eq!(describes(Does::Way(Way::Up)), "up");
    assert_eq!(describes(Does::Key(0, 0)), "the CAPS SHIFT key");
    assert_eq!(describes(Does::Key(7, 1)), "the SYMBOL SHIFT key");
    assert_eq!(describes(Does::Key(2, 4)), "the T key");
    assert_eq!(describes(Does::Key(9, 3)), "key at row 9 bit 3");
    assert_eq!(describes(Does::Mouse(MouseButton::AmxLeft)), "the AMX left mouse button");
}

#[test]
fn key_named_on_the_programmable() {
    assert_eq!(key_named(None), "\u{2014}");
    assert_eq!(key_named(Some((6, 0))), "ENTER");
    assert_eq!(key_named(Some((8, 0))), "?");
}

#[test]
fn shifts() {
    assert!(is_shift((0, 0)));
    assert!(is_shift((7, 1)));
    assert!(!is_shift((7, 0)));
    assert!(!is_shift((0, 1)));
}

#[test]
fn sources_written_down() {
    assert_eq!(from_name(&From::Key("Space".to_string())), "Space");
    assert_eq!(from_name(&From::Pad(Pad::Button(PadButton::Start))), "pad Start");
}

#[test]
fn defaults_written_down() {
    assert_eq!(
        to_text(&defaults()),
        "Left:left,Right:right,Up:up,Down:down,Space:fire,\
         pad.DPadLeft:left,pad.DPadRight:right,pad.DPadUp:up,pad.DPadDown:down,\
         pad.LeftX-:left,pad.LeftX+:right,pad.LeftY+:up,pad.LeftY-:down,pad.A:fire"
    );
}

#[test]
fn written_bindings_read_back_as_the_same_list() {
    let list = vec![
        Binding { from: From::Key("Q".to_string()), does: Does::Key(2, 0) },
        Binding { from: From::Pad(Pad::Axis(PadAxis::RightStickX, true)), does: Does::Mouse(MouseButton::KempstonLeft) },
        Binding { from: From::Key("Enter".to_string()), does: Does::Way(Way::Fire) },
    ];
    let text = to_text(&list);
    assert_eq!(text, "Q:key2.0,pad.RightX+:kmouse.left,Enter:fire");
    assert_eq!(from_text(&text), list);
    assert_eq!(from_text(&to_text(&defaults())), defaults());
}

#[test]
fn pieces_that_make_no_sense_are_passed_over() {
    let read = from_text(" , nonsense,Space:key8.0,Space:key1.5,Nokey:left, space : left ,pad.Z:up");
    assert_eq!(read, vec![Binding { from: From::Key("Space".to_string()), does: Does::Way(Way::Left) }]);
}

#[test]
fn actions_read_back() {
    assert_eq!(does_from_text(&chars("key7.4")), Some(Does::Key(7, 4)));
    assert_eq!(does_from_text(&chars("key+3.2")), Some(Does::Key(3, 2)));
    assert_eq!(does_from_text(&chars("amx.middle")), Some(Does::Mouse(MouseButton::AmxMiddle)));
    assert_eq!(does_from_text(&chars("key3")), None);
    assert_eq!(does_from_text(&chars("Left")), None);
}

#[test]
fn holding_keys_and_pads() {
    let pads = Pads {
        buttons: vec![PadButton::South],
        axes: vec![(PadAxis::LeftStickY, false)],
        count: 1,
    };
    let down = vec!["Left".to_string()];
    assert!(holding(&From::Key("Left".to_string()), &down, &pads));
    assert!(!holding(&From::Key("Right".to_string()), &down, &pads));
    assert!(holding(&From::Pad(Pad::Button(PadButton::South)), &down, &pads));
    assert!(holding(&From::Pad(Pad::Axis(PadAxis::LeftStickY, false)), &down, &pads));
    assert!(!holding(&From::Pad(Pad::Axis(PadAxis::LeftStickY, true)), &down, &pads));
}

#[test]
fn named_pad_controls() {
    assert!(is_named_button(PadButton::DPadRight));
    assert!(!is_named_button(PadButton::C));
    assert!(!is_named_button(PadButton::Unknown));
    assert!(is_named_axis(PadAxis::RightStickY));
    assert!(!is_named_axis(PadAxis::LeftZ));
    assert_eq!(named_buttons().len(), 17);
    assert_eq!(named_buttons()[0], PadButton::South);
    assert_eq!(named_axes(), vec![PadAxis::LeftStickX, PadAxis::LeftStickY, PadAxis::RightStickX, PadAxis::RightStickY]);
}

#[test]
fn a_button_down_on_two_pads_is_listed_once() {
    let mut pads = Pads::default();
    pads.press(PadButton::South);
    pads.press(PadButton::East);
    pads.press(PadButton::South);
    assert_eq!(pads.buttons, vec![PadButton::South, PadButton::East]);
}
