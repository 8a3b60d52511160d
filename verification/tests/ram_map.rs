use zx_rustrum::callflow::label_for;
use zx_rustrum::ram_map::{
    address_floor, back_buffer_in, floor_of, hover_address, hover_in, image_rows, lay_out,
    slot_name, slot_offset, where_label, zx81_chunks, Bank, Page, Paged, ROWS_PER_BANK,
};

fn spectrum128() -> Vec<zx_rustrum::ram_map::Chunk> {
    let roms = vec![Page { phys: 0, slot: Some(0) }, Page { phys: 16384, slot: None }];
    let banks = vec![
        Bank { number: 5, phys: 32768, slot: Some(1) },
        Bank { number: 2, phys: 49152, slot: Some(2) },
        Bank { number: 0, phys: 65536, slot: Some(3) },
        Bank { number: 7, phys: 81920, slot: None },
    ];
    lay_out(&roms, &banks)
}

#[test]
fn blocks_are_laid_out_a_bank_apart() {
    let chunks = spectrum128();
    assert_eq!(chunks.len(), 6);
    assert_eq!(chunks[0].label, "ROM0");
    assert_eq!(chunks[1].label, "ROM1");
    assert_eq!(chunks[1].row, ROWS_PER_BANK);
    assert!(chunks[1].is_rom);
    assert_eq!(chunks[2].label, "RAM5");
    assert_eq!(chunks[2].number, 5);
    assert!(!chunks[2].is_rom);
    assert_eq!(chunks[5].row, 5 * 64);
    assert_eq!(chunks[5].slot, None);
    assert_eq!(image_rows(&chunks), 6 * 64);
    assert_eq!(image_rows(&Vec::new()), 256);
}

#[test]
fn zx81_has_two_blocks() {
    let c = zx81_chunks(0, 8192);
    assert_eq!((c[0].label.as_str(), c[0].slot, c[0].row), ("ROM", Some(0), 0));
    assert_eq!((c[1].label.as_str(), c[1].slot, c[1].row, c[1].phys), ("RAM", Some(1), 64, 8192));
}

#[test]
fn hovering_in_the_address_space() {
    assert_eq!(hover_address(0x34, 0x12), 0x1234);
    assert_eq!(hover_address(0xFF, 400), 0xFFFF);
    assert_eq!(slot_offset(0xC123), 0x0123);
}

#[test]
fn hovering_over_all_memory() {
    let chunks = spectrum128();
    let h = hover_in(&chunks, 0x10, 64 * 2 + 3).unwrap();
    assert_eq!(h.what, "RAM5");
    assert_eq!(h.offset, 3 * 256 + 0x10);
    assert_eq!(h.phys, 32768 + 3 * 256 + 0x10);
    assert_eq!(h.addr, Some(0x4000 + 3 * 256 + 0x10));
    let out = hover_in(&chunks, 0, 64 * 5 + 1).unwrap();
    assert_eq!(out.addr, None);
    assert!(hover_in(&chunks, 0, 64 * 6).is_none());
}

#[test]
fn back_buffer_within_a_slot() {
    assert_eq!(back_buffer_in(0x8000, 6912, Some(2)), Some((0, 6912)));
    assert_eq!(back_buffer_in(0x7F00, 0x200, Some(2)), Some((0, 0x100)));
    assert_eq!(back_buffer_in(0x7F00, 0x200, Some(1)), Some((0x3F00, 0x4000)));
    assert_eq!(back_buffer_in(0x8000, 6912, Some(0)), None);
    assert_eq!(back_buffer_in(0x8000, 6912, None), None);
}

#[test]
fn floors() {
    assert_eq!(floor_of(true, true), 26);
    assert_eq!(floor_of(true, false), 16);
    assert_eq!(floor_of(false, true), 14);
    assert_eq!(floor_of(false, false), 6);
    assert_eq!(address_floor(true), 22);
    assert_eq!(address_floor(false), 10);
}

#[test]
fn slot_names() {
    assert_eq!(slot_name(0, Paged::Rom(1), 5), "$0000  ROM1");
    assert_eq!(slot_name(1, Paged::Ram(5), 5), "$4000  RAM5  (screen)");
    assert_eq!(slot_name(3, Paged::Ram(7), 5), "$C000  RAM7");
}

#[test]
fn where_routines_live() {
    assert_eq!(where_label(Paged::Rom(1), true, true), "ROM1");
    assert_eq!(where_label(Paged::Rom(0), false, false), "ROM");
    assert_eq!(where_label(Paged::Ram(7), true, true), "RAM7");
    assert_eq!(where_label(Paged::Ram(2), false, false), "RAM");
}

#[test]
fn routines_are_named_with_their_address() {
    assert_eq!(label_for("", 0x8000), "$8000");
    assert_eq!(label_for("MAIN_LOOP", 0x8000), "MAIN_LOOP  $8000");
}
