use zx_rustrum::drives::{cartridge_line, drive_line, drive_running, lit_sectors, platter_geometry};
use zx_rustrum::session::{forget_closed, WINDOWS};

#[test]
fn microdrive_lamps_and_lines() {
    assert!(drive_running(true, 2, 1));
    assert!(!drive_running(true, 1, 1));
    assert!(!drive_running(false, 2, 1));
    assert_eq!(drive_line(0, false, false, 0), "Drive 1 \u{2014} empty");
    assert_eq!(drive_line(1, true, true, 37), "Drive 2 \u{2014} running, sector 37");
    assert_eq!(drive_line(7, true, false, 3), "Drive 8");
    assert_eq!(cartridge_line("12 files", true, false), "12 files");
    assert_eq!(cartridge_line("12 files", false, true), "12 files, read-only \u{2022} changed");
}

#[test]
fn platter_rings_and_wedges() {
    assert_eq!(platter_geometry(40, &vec![9, 9, 10, 9]), (40, 10));
    assert_eq!(platter_geometry(0, &vec![]), (1, 9));
    assert_eq!(platter_geometry(2, &vec![0, 0]), (2, 1));
}

#[test]
fn touched_sectors_are_placed_by_their_ids() {
    let ids = vec![vec![1, 2, 3], vec![0xC1, 0xC6, 0xC2]];
    let touches = vec![(1, 0, 0xC2, 200), (0, 1, 2, 50), (0, 0, 2, 90), (5, 0, 1, 10), (0, 0, 9, 10)];
    assert_eq!(lit_sectors(&touches, &ids), vec![(1, 2, 200), (0, 1, 90)]);
}

#[test]
fn closed_windows_are_forgotten() {
    let mut shown = vec![true; WINDOWS];
    shown[2] = false;
    let mut placed = vec!["ram_map".to_string(), "tape".to_string(), "other".to_string()];
    forget_closed(&mut placed, &shown);
    assert_eq!(placed, vec!["ram_map", "other"]);
}
