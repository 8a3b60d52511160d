use zx_rustrum::rewind::{nothing_to_step_back, stepped_back, Rewind, REWIND};
use zx_rustrum::tape::{tape_stop_news, tape_stopped_text};

#[test]
fn stepping_back_takes_the_last_step() {
    let mut r: Rewind<u32> = Rewind::new();
    assert!(!r.can_step_back());
    assert_eq!(r.take_last(), None);
    r.keep(1);
    r.keep(2);
    assert_eq!(r.len(), 2);
    assert_eq!(r.take_last(), Some(2));
    assert_eq!(r.take_last(), Some(1));
    assert_eq!(r.take_last(), None);
}

#[test]
fn only_so_many_steps_are_kept() {
    let mut r: Rewind<usize> = Rewind::new();
    for i in 0..REWIND + 5 {
        r.keep(i);
    }
    assert_eq!(r.len(), REWIND);
    let mut back = Vec::new();
    while let Some(i) = r.take_last() {
        back.push(i);
    }
    assert_eq!(back.first(), Some(&(REWIND + 4)));
    assert_eq!(back.last(), Some(&5));
}

#[test]
fn running_forgets_the_steps() {
    let mut r: Rewind<u8> = Rewind::new();
    r.keep(9);
    r.forget();
    assert!(!r.can_step_back());
    assert_eq!(stepped_back(0x8004, 3), "Stepped back to $8004, 3 left");
    assert_eq!(nothing_to_step_back(), "Nothing to step back to");
}

#[test]
fn a_tape_stop_is_announced_once() {
    assert_eq!(tape_stop_news(false, true), (true, true));
    assert_eq!(tape_stop_news(true, true), (true, false));
    assert_eq!(tape_stop_news(true, false), (false, false));
    assert_eq!(tape_stop_news(false, false), (false, false));
    assert!(tape_stopped_text().starts_with("The tape asked the deck to stop"));
}
