use zx_rustrum::sprites::{pixel_lit, sheet_starts, Found, Layout, SpriteView};

fn view(layout: Layout, across: usize, down: usize, skip: u16) -> SpriteView {
    let mut v = SpriteView::default();
    v.layout = layout;
    v.cells_across = across;
    v.cells_down = down;
    v.skip_after_row = skip;
    v
}

#[test]
fn default_view() {
    let v = SpriteView::default();
    assert_eq!(v.layout, Layout::Cells);
    assert_eq!(v.addr, 0x8000);
    assert_eq!(v.addr_text, "8000");
    assert_eq!((v.cells_across, v.cells_down, v.columns, v.skip_after_row), (2, 2, 8, 0));
    assert_eq!(v.stride(), 32);
}

#[test]
fn strides() {
    assert_eq!(view(Layout::Cells, 2, 3, 0).stride(), 48);
    assert_eq!(view(Layout::Cells, 2, 3, 1).stride(), 51);
    assert_eq!(view(Layout::Rows, 2, 3, 0).stride(), 48);
    assert_eq!(view(Layout::Rows, 2, 3, 2).stride(), 96);
    assert_eq!(view(Layout::Cells, 4, 1, 0).row_bytes(), 32);
}

#[test]
fn where_pixel_rows_live() {
    let cells = view(Layout::Cells, 2, 2, 1);
    assert_eq!(cells.byte_of(0x8000, 0, 0, 0), 0x8000);
    assert_eq!(cells.byte_of(0x8000, 0, 1, 3), 0x800B);
    assert_eq!(cells.byte_of(0x8000, 1, 0, 0), 0x8011);
    let rows = view(Layout::Rows, 3, 1, 1);
    assert_eq!(rows.byte_of(0x4000, 0, 2, 0), 0x4002);
    assert_eq!(rows.byte_of(0x4000, 0, 0, 5), 0x4014);
    // Round the top of memory.
    assert_eq!(rows.byte_of(0xFFFF, 0, 0, 1), 0x0003);
}

#[test]
fn the_next_graphic_starts_one_stride_on() {
    for v in [view(Layout::Cells, 2, 3, 1), view(Layout::Rows, 3, 2, 2)] {
        let at = 0xFFF0u16;
        let down = v.cells_down;
        assert_eq!(v.byte_of(at, down, 0, 0), at.wrapping_add(v.stride()));
    }
}

#[test]
fn showing_a_find() {
    let mut v = SpriteView::default();
    v.show(&Found { addr: 0xBEEF, pitch: 1, mirrored: true, inverted: false });
    assert_eq!(v.layout, Layout::Cells);
    assert_eq!(v.addr_text, "BEEF");
    assert_eq!((v.cells_across, v.cells_down, v.skip_after_row), (1, 1, 0));
    assert!(v.mirrored && v.raise);
    v.show(&Found { addr: 0x9000, pitch: 32, mirrored: false, inverted: true });
    assert_eq!(v.layout, Layout::Rows);
    assert_eq!((v.cells_across, v.cells_down, v.skip_after_row), (8, 2, 24));
    v.show(&Found { addr: 0x9000, pitch: 3, mirrored: false, inverted: false });
    assert_eq!((v.cells_across, v.skip_after_row), (3, 0));
}

#[test]
fn stepping_through_memory_wraps() {
    let mut v = SpriteView::default();
    v.addr = 0x0010;
    v.step(-32);
    assert_eq!(v.addr, 0xFFF0);
    assert_eq!(v.addr_text, "FFF0");
    v.step(17);
    assert_eq!(v.addr, 0x0001);
}

#[test]
fn notes_under_the_controls() {
    let v = SpriteView::default();
    assert_eq!(v.skip_note(), None);
    assert_eq!(v.size_note(3), "32 bytes a graphic, 768 for the sheet on show");
    let w = view(Layout::Rows, 2, 2, 1);
    assert_eq!(
        w.skip_note().unwrap(),
        "Stepping over 1 byte after each row of pixels: 16 of the 48 bytes a graphic takes are not drawn."
    );
    let c = view(Layout::Cells, 2, 2, 3);
    assert_eq!(
        c.skip_note().unwrap(),
        "Stepping over 3 bytes after each row of cells: 6 of the 38 bytes a graphic takes are not drawn."
    );
}

#[test]
fn sheet_starts_one_stride_apart() {
    assert_eq!(sheet_starts(0xFFE0, 0x10, 4), vec![0xFFE0, 0xFFF0, 0x0000, 0x0010]);
    assert!(sheet_starts(0, 5, 0).is_empty());
}

#[test]
fn pixels() {
    assert!(pixel_lit(0x80, 0, false, false));
    assert!(!pixel_lit(0x80, 7, false, false));
    assert!(pixel_lit(0x80, 7, true, false));
    assert!(pixel_lit(0x01, 0, true, false));
    assert!(!pixel_lit(0x01, 7, false, true));
    assert!(pixel_lit(0x00, 3, false, true));
}

#[test]
fn a_block_is_shown_as_the_largest_square_it_divides_into() {
    let mut v = SpriteView::default();
    v.show_block(0xA000, 768);
    assert_eq!((v.cells_across, v.cells_down), (4, 4));
    assert_eq!(v.columns, 6);
    assert_eq!(v.block_length, Some(768));
    assert_eq!(v.addr_text, "A000");
    v.show_block(0xA000, 216);
    assert_eq!((v.cells_across, v.cells_down), (3, 3));
    assert_eq!(v.columns, 3);
    v.show_block(0xA000, 8 * 40);
    assert_eq!((v.cells_across, v.cells_down), (2, 2));
    assert_eq!(v.columns, 8);
    v.show_block(0xA000, 5);
    assert_eq!((v.cells_across, v.cells_down), (2, 2));
    assert_eq!(v.columns, 1);
}
