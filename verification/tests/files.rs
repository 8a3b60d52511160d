use zx_rustrum::files::{wrote_status, writes_szx};
use zx_rustrum::quick::slot_for_function_key;
use zx_rustrum::files::{
    archive_entry_type, archive_wanted, extension_lower, file_type, machine_tag, notes_source,
    symbol_files, unsupported, FileType,
};
use zx_rustrum::hardware::{fit_multiface, printer_swap, MultifaceModel, Paper, Peripheral};
use zx_rustrum::quick::{function_key, quick_news, quick_refusal, QuickNews, QuickSlots};
use zx_rustrum::roms::Model;

#[test]
fn file_types_by_extension_whatever_the_case() {
    assert_eq!(file_type("games/Manic.TZX"), FileType::Tape);
    assert_eq!(file_type("a.tap"), FileType::Tape);
    assert_eq!(file_type("a.P81"), FileType::Zx81Tape);
    assert_eq!(file_type("a.81"), FileType::Zx81Tape);
    assert_eq!(file_type("run.rzx"), FileType::Recording);
    assert_eq!(file_type("c.mdr"), FileType::Cartridge);
    assert_eq!(file_type("d.IPF"), FileType::Disk);
    assert_eq!(file_type("s.scr"), FileType::Screen);
    assert_eq!(file_type("s.szx"), FileType::Szx);
    assert_eq!(file_type("s.z80"), FileType::Snapshot);
    assert_eq!(file_type("48.bin"), FileType::Rom);
    assert_eq!(file_type("pack.zip"), FileType::Archive);
    assert_eq!(file_type("readme.txt"), FileType::Unknown);
    assert_eq!(file_type("Makefile"), FileType::Unknown);
}

#[test]
fn unsupported_types_are_named() {
    let ext = extension_lower("notes.TXT");
    assert_eq!(ext, vec!['t', 'x', 't']);
    assert_eq!(unsupported(&ext), "Unsupported file type: .txt");
    assert_eq!(unsupported(&extension_lower("Makefile")), "Unsupported file type: .");
}

#[test]
fn what_comes_out_of_an_archive() {
    assert_eq!(archive_wanted(), vec!["tzx", "tap", "p", "81", "p81", "rzx", "sna", "z80", "szx", "scr", "dsk", "ipf"]);
    assert_eq!(archive_entry_type("GAME.TZX"), FileType::Tape);
    assert_eq!(archive_entry_type("game.p"), FileType::Zx81Tape);
    assert_eq!(archive_entry_type("game.dsk"), FileType::Disk);
    assert_eq!(archive_entry_type("game.sna"), FileType::Snapshot);
    assert_eq!(archive_entry_type("odd.rom"), FileType::Tape);
}

#[test]
fn notes_belong_to_the_recording_then_the_tape_then_the_rom() {
    let s = |t: &str| Some(t.to_string());
    assert_eq!(notes_source(s("r.rzx"), s("t.tap"), s("48.rom")), s("r.rzx"));
    assert_eq!(notes_source(None, s("t.tap"), s("48.rom")), s("t.tap"));
    assert_eq!(notes_source(None, None, s("48.rom")), s("48.rom"));
    assert_eq!(notes_source(None, None, None), None);
}

#[test]
fn symbol_files_in_order() {
    assert_eq!(machine_tag(false, Model::Plus2A), "plus2a");
    assert_eq!(machine_tag(true, Model::Spectrum48), "zx81");
    assert_eq!(
        symbol_files(Some("/cfg"), "128", Some(1), Some("games/manic.tap")),
        vec!["/cfg/symbols.txt", "/cfg/symbols-128.txt", "/cfg/symbols-128-rom1.txt", "games/manic.symbols.txt"]
    );
    assert_eq!(symbol_files(None, "48", None, Some("m.tzx")), vec!["m.symbols.txt"]);
    assert!(symbol_files(None, "48", None, None).is_empty());
}

#[test]
fn quick_slots_give_back_what_was_saved() {
    let mut q: QuickSlots<&str> = QuickSlots::new();
    assert_eq!(q.selected(), 0);
    assert_eq!(q.load(), None);
    assert_eq!(q.save(13, "machine at frame 9"), 3);
    assert_eq!(q.selected(), 3);
    assert_eq!(q.load(), Some(&"machine at frame 9"));
    assert!(q.filled(3));
    assert!(!q.filled(4));
    assert!(!q.filled(10));
    q.select(4);
    assert_eq!(q.load(), None);
    q.save(3, "later");
    assert_eq!(q.load(), Some(&"later"));
    q.select(24);
    assert_eq!(q.selected(), 4);
}

#[test]
fn quick_messages() {
    assert_eq!(quick_news(QuickNews::Saved(3)), "Saved to quick slot 3");
    assert_eq!(quick_news(QuickNews::Loaded(0)), "Loaded quick slot 0");
    assert_eq!(quick_news(QuickNews::Empty(7)), "Quick slot 7 is empty");
    assert_eq!(function_key(0), 10);
    assert_eq!(function_key(4), 4);
    assert_eq!(
        quick_refusal(true, false, false),
        Some("Quicksaves are of a Spectrum: the ZX81 cannot be copied yet.")
    );
    assert!(quick_refusal(false, true, true).unwrap().starts_with("Not while a recording"));
    assert_eq!(quick_refusal(false, true, false), None);
    assert_eq!(quick_refusal(false, false, true), None);
}

#[test]
fn multifaces_stay_one_of_each_in_order() {
    let mut boxes: Vec<(MultifaceModel, u32)> = Vec::new();
    fit_multiface(&mut boxes, MultifaceModel::Three, Some(3));
    fit_multiface(&mut boxes, MultifaceModel::One, Some(1));
    fit_multiface(&mut boxes, MultifaceModel::OneTwentyEight, Some(128));
    assert_eq!(
        boxes,
        vec![(MultifaceModel::One, 1), (MultifaceModel::OneTwentyEight, 128), (MultifaceModel::Three, 3)]
    );
    fit_multiface(&mut boxes, MultifaceModel::One, Some(11));
    assert_eq!(boxes[0], (MultifaceModel::One, 11));
    assert_eq!(boxes.len(), 3);
    fit_multiface(&mut boxes, MultifaceModel::OneTwentyEight, None);
    assert_eq!(boxes, vec![(MultifaceModel::One, 11), (MultifaceModel::Three, 3)]);
}

#[test]
fn printers_take_each_other_off() {
    assert_eq!(printer_swap(Peripheral::ZxPrinter), Some((Peripheral::Alphacom32, Paper::Metallised)));
    assert_eq!(printer_swap(Peripheral::Alphacom32), Some((Peripheral::ZxPrinter, Paper::Thermal)));
    assert_eq!(printer_swap(Peripheral::Fuller), None);
}

#[test]
fn snapshot_format_by_name() {
    assert!(writes_szx("a/b.SZX"));
    assert!(!writes_szx("a/b.sna"));
    assert!(!writes_szx("szx"));
    assert_eq!(wrote_status("x.szx", 49_179), "Wrote x.szx (49179 bytes)");
}

#[test]
fn function_keys_save_to_their_slots() {
    assert_eq!(slot_for_function_key(1), 1);
    assert_eq!(slot_for_function_key(9), 9);
    assert_eq!(slot_for_function_key(10), 0);
    for key in 1..=10 {
        assert_eq!(function_key(slot_for_function_key(key)), key);
    }
}
