use zx_rustrum::disk::{mount_plan, mounted_status, should_save};
use zx_rustrum::back_buffer::{flash_phase, manual_region, preview_line, region_last, Region};
use zx_rustrum::beam::beam_at;
use zx_rustrum::callflow::{measured, Drawing, Measured, Observed};
use zx_rustrum::cassette::written_name;
use zx_rustrum::disk::{copy_file_name, copy_name, first_free, Mounted};
use zx_rustrum::session::{
    has_fixed_width, open_windows, recording_path, shown_windows, snapshot_path,
    turbo_held_because, video_path, window_name, WINDOWS,
};

#[test]
fn measured_row_texts() {
    let m = Measured { size: 120, wrote: 6, read: 40 };
    assert_eq!(m.short(), "120B  6w  40r");
    assert_eq!(
        m.long(),
        "120 bytes of code, and per call it writes 6 bytes and reads 40, counting what it calls"
    );
}

#[test]
fn nothing_observed_measures_zero() {
    assert_eq!(measured(None), Measured { size: 0, wrote: 0, read: 0 });
    assert_eq!(Measured::default(), Measured { size: 0, wrote: 0, read: 0 });
}

#[test]
fn figures_are_per_call_and_size_spans_the_addresses() {
    let seen = Observed { calls: 4, spans: Some((0x8000, 0x80FF)), wrote: 100, read: 9 };
    assert_eq!(measured(Some(&seen)), Measured { size: 256, wrote: 25, read: 2 });
    let never = Observed { calls: 0, spans: None, wrote: 7, read: 3 };
    assert_eq!(measured(Some(&never)), Measured { size: 0, wrote: 7, read: 3 });
    let backwards = Observed { calls: 1, spans: Some((10, 5)), wrote: 0, read: 0 };
    assert_eq!(measured(Some(&backwards)).size, 1);
}

#[test]
fn drawing_labels() {
    assert_eq!(Drawing::all(), [Drawing::Thread, Drawing::Graph, Drawing::Flame, Drawing::Timeline]);
    assert_eq!(Drawing::Flame.label(), "Flame");
    assert_eq!(Drawing::Timeline.label(), "Timeline");
}

#[test]
fn cassette_label_is_the_file_stem_trimmed() {
    assert_eq!(written_name("/tapes/Manic Miner.tzx"), "Manic Miner");
    assert_eq!(written_name("  Jet Set Willy .tap"), "Jet Set Willy");
    assert_eq!(written_name("noext"), "noext");
    assert_eq!(written_name(""), "");
}

#[test]
fn mounted_labels() {
    assert_eq!(Mounted::ReadOnly.label(), "read-only");
    assert_eq!(Mounted::Copy.label(), "writing to a copy");
    assert_eq!(Mounted::InPlace.label(), "writable");
}

#[test]
fn copy_file_names() {
    assert_eq!(copy_file_name("game", 1), "game (copy).dsk");
    assert_eq!(copy_file_name("game", 3), "game (copy 3).dsk");
}

#[test]
fn copy_goes_beside_the_disk() {
    assert_eq!(
        copy_name("/no/such/place/work.dsk"),
        "/no/such/place/work (copy).dsk"
    );
    assert_eq!(copy_name("/no/such/place/"), "/no/such/place (copy).dsk");
}

#[test]
fn windows_saved_open_are_opened_again() {
    let mut shown = vec![false; WINDOWS];
    shown[1] = true;
    shown[2] = true;
    shown[11] = true;
    let names = open_windows(&shown);
    assert_eq!(names, vec!["debugger", "tape", "microdrive"]);
    assert_eq!(shown_windows(&names), shown);
    assert_eq!(window_name(0), "ram_map");
}

#[test]
fn unknown_window_names_open_nothing() {
    let names = vec!["nothing".to_string(), "sprites".to_string(), "sprites".to_string()];
    let shown = shown_windows(&names);
    assert_eq!(shown.iter().filter(|s| **s).count(), 1);
    assert!(shown[4]);
}

#[test]
fn fixed_width_windows() {
    assert!(has_fixed_width("tape"));
    assert!(has_fixed_width("microdrive"));
    assert!(!has_fixed_width("debugger"));
    assert!(!has_fixed_width("Tape"));
}

#[test]
fn default_paths_beside_the_tape() {
    assert_eq!(recording_path(Some("games/manic.tzx")), "games/manic.rzx");
    assert_eq!(recording_path(None), "recording.rzx");
    assert_eq!(snapshot_path(Some("games/manic.tzx")), "games/manic.sna");
    assert_eq!(snapshot_path(None), "snapshot.sna");
    assert_eq!(video_path(Some("a/b.tap")), "a/b.mp4");
    assert_eq!(video_path(None), "recording.mp4");
}

#[test]
fn turbo_is_held_while_a_recording_or_tape_plays() {
    assert_eq!(turbo_held_because(false, true, true), None);
    assert_eq!(turbo_held_because(true, true, true), Some("a recording is playing"));
    assert_eq!(turbo_held_because(true, false, true), Some("a tape is loading"));
    assert_eq!(turbo_held_because(true, false, false), None);
}

#[test]
fn back_buffer_set_by_hand() {
    assert_eq!(manual_region(" $8000 "), Some(Region { start: 0x8000, len: 6912 }));
    assert_eq!(manual_region("c000"), Some(Region { start: 0xC000, len: 6912 }));
    assert_eq!(manual_region("zz"), None);
    assert_eq!(region_last(Region { start: 0x8000, len: 6912 }), 0x8000 + 6911);
    assert_eq!(preview_line(0x9C40), "Previewing $9C40 as a 6912-byte screen");
    assert!(!flash_phase(15));
    assert!(flash_phase(16));
    assert!(!flash_phase(32));
}

#[test]
fn beam_is_held_within_the_frame() {
    assert_eq!(beam_at(-5, 69888), 0);
    assert_eq!(beam_at(100, 69888), 100);
    assert_eq!(beam_at(70000, 69888), 69887);
    assert_eq!(beam_at(0, 1), 0);
}

#[test]
fn how_a_disk_goes_in() {
    let p = mount_plan(Mounted::ReadOnly, "/d/game.dsk", None);
    assert_eq!((p.path.as_str(), p.protected, p.write_copy), ("/d/game.dsk", true, false));
    let p = mount_plan(Mounted::InPlace, "/d/game.dsk", None);
    assert_eq!((p.path.as_str(), p.protected, p.write_copy), ("/d/game.dsk", false, false));
    let p = mount_plan(Mounted::Copy, "/d/game.dsk", Some("/e/mine.dsk".to_string()));
    assert_eq!((p.path.as_str(), p.protected, p.write_copy), ("/e/mine.dsk", false, true));
    let p = mount_plan(Mounted::Copy, "/no/such/dir/game.dsk", None);
    assert_eq!(p.path, "/no/such/dir/game (copy).dsk");
    assert!(should_save(true, false, true));
    assert!(!should_save(true, true, true));
    assert!(!should_save(false, false, true));
    assert!(!should_save(true, false, false));
    assert_eq!(mounted_status("game.dsk", Mounted::Copy), "game.dsk \u{2014} writing to a copy");
}

#[test]
fn first_free_copy_follows_the_taken_ones() {
    assert_eq!(
        first_free("/games/Tomb.img", &vec![true, true, false]),
        "/games/Tomb (copy 3).dsk"
    );
    assert_eq!(first_free("/games/Tomb.img", &vec![false]), "/games/Tomb (copy).dsk");
    assert_eq!(first_free("/games/Tomb.img", &Vec::new()), "/games/Tomb (copy).dsk");
    assert_eq!(first_free("/games/Tomb.img", &vec![true]), "/games/Tomb (copy 2).dsk");
    assert_eq!(first_free("Tomb.img", &vec![true, false, true]), "Tomb (copy 2).dsk");
}
