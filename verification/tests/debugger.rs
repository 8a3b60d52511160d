use zx_rustrum::debugger::{
    add_breakpoint, ay_channel, byte_cell, bytes_text, channel_line, clock_line, dump_base,
    dump_line, envelope_line, flag_on, goto_address, memory_map_line, number_cell, pair,
    registers_line, row_look, stack_line, stack_slot, stepped_status, toggle_breakpoint,
    typed_address, volume_line, word, zx81_map_line, Channel, Look, Paging, Stepped,
};
use zx_rustrum::ram_map::Paged;

#[test]
fn typed_addresses() {
    assert_eq!(goto_address("4000"), Some(0x4000));
    assert_eq!(goto_address("$$ffff"), Some(0xFFFF));
    assert_eq!(goto_address("+1f"), Some(0x1F));
    assert_eq!(goto_address(" 4000"), None);
    assert_eq!(goto_address("10000"), None);
    assert_eq!(goto_address("$"), None);
    assert_eq!(goto_address("-1"), None);
    assert_eq!(typed_address("  $C000 "), Some(0xC000));
    assert_eq!(typed_address("0000FFFF"), Some(0xFFFF));
    assert_eq!(typed_address("g"), None);
}

#[test]
fn register_cells() {
    assert_eq!(pair("AF", 0x1234), ("AF  1234".to_string(), Some(0x1234)));
    assert_eq!(pair("AF'", 0xBEEF).0, "AF' BEEF");
    assert_eq!(byte_cell("I", 0x3F), "I   3F");
    assert_eq!(number_cell("IM", 2), "IM  2");
    assert_eq!(word(0x12, 0x34), 0x1234);
}

#[test]
fn flags() {
    let f = 0b1000_0001u8;
    assert!(flag_on(f, 7));
    assert!(flag_on(f, 0));
    assert!(!flag_on(f, 6));
}

#[test]
fn clock_line_pads_the_t_state() {
    assert_eq!(clock_line(12, 345, 69888, 1000), "frame 12   T   345/69888   instructions 1000");
}

#[test]
fn memory_map_lines() {
    let slots = vec![Paged::Rom(0), Paged::Ram(5), Paged::Ram(2), Paged::Ram(0)];
    assert_eq!(
        memory_map_line("48K", &slots, None),
        "48K  $0000:ROM0  $4000:RAM5  $8000:RAM2  $C000:RAM0"
    );
    let paging = Paging { page_reg: 0x10, plus3_reg: None, special: false, screen_bank: 5, locked: true };
    assert_eq!(
        memory_map_line("128K", &slots, Some(paging)),
        "128K  $0000:ROM0  $4000:RAM5  $8000:RAM2  $C000:RAM0   $7FFD=10  screen RAM5  LOCKED"
    );
    let plus3 = Paging { page_reg: 0x07, plus3_reg: Some(0x05), special: true, screen_bank: 7, locked: false };
    assert_eq!(
        memory_map_line("+3", &slots, Some(plus3)),
        "+3  $0000:ROM0  $4000:RAM5  $8000:RAM2  $C000:RAM0   $7FFD=07 $1FFD=05 all-RAM cfg2  screen RAM7"
    );
    assert_eq!(zx81_map_line("16K", Some(8192)), "16K  $0000:ROM (8K)  $4000:RAM  $8000:mirror of $0000");
    assert_eq!(zx81_map_line("1K", None), "1K  $0000:ROM (8K)  $4000:RAM  $8000:mirror of $0000");
}

#[test]
fn stack_lines() {
    assert_eq!(stack_line(0, 0xFF4A, 0x12A2), "+0  FF4A  12A2");
    assert_eq!(stack_line(11, 0xFF60, 0x0000), "+22 FF60  0000");
    assert_eq!(stack_slot(0xFFFE, 1), 0x0000);
}

#[test]
fn dump_lines() {
    assert_eq!(dump_base(0x4007), 0x4000);
    assert_eq!(dump_base(0x4008), 0x4008);
    let bytes = vec![0x48, 0x69, 0x00, 0x7F, 0x20, 0x7E, 0xFF, 0x41];
    assert_eq!(dump_line(0x4000, &bytes), "4000  48 69 00 7F 20 7E FF 41  Hi.. ~.A");
    assert_eq!(bytes_text(&vec![0xCD, 0x0B, 0x0D]), "CD 0B 0D ");
    assert_eq!(bytes_text(&Vec::new()), "");
}

#[test]
fn listing_looks() {
    assert_eq!(row_look(true, true, true), Look::Current);
    assert_eq!(row_look(false, true, true), Look::Breakpoint);
    assert_eq!(row_look(false, false, true), Look::Marked);
    assert_eq!(row_look(false, false, false), Look::Plain);
}

#[test]
fn breakpoints_added_once() {
    let mut bps = vec![0x8000];
    add_breakpoint(&mut bps, 0x9000);
    add_breakpoint(&mut bps, 0x8000);
    assert_eq!(bps, vec![0x8000, 0x9000]);
}

#[test]
fn clicking_a_breakpoint_twice_leaves_the_same_set() {
    let mut bps = vec![0x8000, 0x9000];
    toggle_breakpoint(&mut bps, 0x8000);
    assert_eq!(bps, vec![0x9000]);
    toggle_breakpoint(&mut bps, 0x8000);
    assert_eq!(bps, vec![0x9000, 0x8000]);
    toggle_breakpoint(&mut bps, 0x1234);
    toggle_breakpoint(&mut bps, 0x1234);
    assert_eq!(bps, vec![0x9000, 0x8000]);
}

#[test]
fn sound_chip_channels() {
    let mut regs = vec![0u8; 16];
    regs[0] = 0x34;
    regs[1] = 0xF2;
    regs[7] = 0b0011_1010;
    regs[8] = 0x1F;
    regs[9] = 0x07;
    let a = ay_channel(&regs, 0);
    assert_eq!(a, Channel { period: 0x234, envelope: true, volume: 15, tone: true, noise: false });
    let b = ay_channel(&regs, 1);
    assert_eq!((b.tone, b.noise, b.envelope, b.volume), (false, false, false, 7));
    let c = ay_channel(&regs, 2);
    assert_eq!((c.tone, c.noise), (true, false));
    assert_eq!(channel_line("A", a), "A tone -----");
    assert_eq!(channel_line("B", b), "B ---- -----");
    assert_eq!(volume_line(a), "env");
    assert_eq!(volume_line(b), "7");
}

#[test]
fn sound_chip_registers() {
    let mut regs = vec![0u8; 16];
    regs[6] = 0xE5;
    regs[11] = 0x34;
    regs[12] = 0x12;
    regs[13] = 0xAB;
    assert_eq!(
        registers_line(&regs),
        "R0-15  00 00 00 00 00 00 E5 00 00 00 00 34 12 AB 00 00 "
    );
    assert_eq!(envelope_line(&regs), "noise period  5   envelope period  4660 shape $B");
}

#[test]
fn step_statuses() {
    assert_eq!(stepped_status(Stepped::Into(0x0038)), "Stepped to $0038");
    assert_eq!(stepped_status(Stepped::Over(0x8003)), "Stepped over to $8003");
    assert_eq!(stepped_status(Stepped::Inside(0x9000)), "Breakpoint at $9000 inside the call");
    assert_eq!(stepped_status(Stepped::GaveUp), "Step over gave up after 200 frames");
    assert_eq!(stepped_status(Stepped::Out(0x1234)), "Returned to $1234");
}
