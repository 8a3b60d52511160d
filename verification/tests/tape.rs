use zx_rustrum::tape::{block_row, hurry_of, needs_scroll, sweep, switches, Hurry, Trigger};

#[test]
fn scroll_when_asked_or_off_screen() {
    assert!(needs_scroll(true, true));
    assert!(needs_scroll(false, false));
    assert!(!needs_scroll(false, true));
}

#[test]
fn hurries_and_their_switches() {
    assert_eq!(switches(Hurry::Normal), (false, false));
    assert_eq!(switches(Hurry::Max), (false, true));
    assert_eq!(switches(Hurry::Fastload), (true, true));
    for h in [Hurry::Normal, Hurry::Max, Hurry::Fastload] {
        let (flash, boost) = switches(h);
        assert_eq!(hurry_of(flash, boost), h);
    }
    assert_eq!(hurry_of(true, false), Hurry::Fastload);
}

#[test]
fn block_rows() {
    assert_eq!(block_row(0, "Program: MANIC"), "  1  Program: MANIC");
    assert_eq!(block_row(41, "Bytes"), " 42  Bytes");
    assert_eq!(block_row(1233, "x"), "1234  x");
}

fn edges() -> Vec<(u64, bool)> {
    vec![(100, true), (200, false), (300, true), (400, false), (900, true)]
}

#[test]
fn rising_trigger_takes_the_newest_edge_with_a_whole_sweep_after_it() {
    let s = sweep(&edges(), Trigger::Rising, 1000, 500);
    assert!(s.triggered);
    assert_eq!((s.start, s.end), (300, 800));
    assert!(s.level);
    assert_eq!(s.steps, vec![(400, false)]);
}

#[test]
fn falling_trigger() {
    let s = sweep(&edges(), Trigger::Falling, 1000, 500);
    assert!(s.triggered);
    assert_eq!((s.start, s.end), (400, 900));
    assert!(!s.level);
    assert_eq!(s.steps, vec![(900, true)]);
}

#[test]
fn free_run_ends_at_now() {
    let s = sweep(&edges(), Trigger::Off, 1000, 500);
    assert!(!s.triggered);
    assert_eq!((s.start, s.end), (500, 1000));
    assert!(!s.level);
    assert_eq!(s.steps, vec![(900, true)]);
}

#[test]
fn no_edge_fits_so_the_sweep_runs_free() {
    let s = sweep(&edges(), Trigger::Rising, 120, 500);
    assert!(!s.triggered);
    assert_eq!((s.start, s.end), (0, 500));
    assert!(!s.level);
    assert_eq!(s.steps, vec![(100, true), (200, false), (300, true), (400, false)]);
}

#[test]
fn an_empty_tape_draws_low() {
    let s = sweep(&Vec::new(), Trigger::Rising, 10, 4);
    assert_eq!((s.start, s.end, s.triggered, s.level), (6, 10, false, false));
    assert!(s.steps.is_empty());
}

#[test]
fn tape_settings_written_and_read_back() {
    use_keys();
}

fn use_keys() {
    use_trigger(Trigger::Rising, "rising");
    use_trigger(Trigger::Falling, "falling");
    use_trigger(Trigger::Off, "free");
    use_hurry(Hurry::Normal, "normal");
    use_hurry(Hurry::Max, "max");
    use_hurry(Hurry::Fastload, "fastload");
    assert_eq!(zx_rustrum::tape::trigger_from_key("Rising"), None);
    assert_eq!(zx_rustrum::tape::hurry_from_key("ludicrous"), None);
}

fn use_trigger(t: Trigger, word: &str) {
    assert_eq!(zx_rustrum::tape::trigger_key(t), word);
    assert_eq!(zx_rustrum::tape::trigger_from_key(word), Some(t));
}

fn use_hurry(h: Hurry, word: &str) {
    assert_eq!(zx_rustrum::tape::hurry_key(h), word);
    assert_eq!(zx_rustrum::tape::hurry_from_key(word), Some(h));
}
