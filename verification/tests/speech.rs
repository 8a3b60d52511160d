use zx_rustrum::uspeech::Uspeech;

fn fitted() -> Uspeech {
    let mut u = Uspeech::new();
    let mut rom = vec![0u8; 2048];
    rom[0] = 0xF3;
    rom[5] = 0x21;
    rom[2047] = 0xC9;
    u.rom = Some(rom);
    u
}

#[test]
fn empty_socket_does_not_page() {
    let mut u = Uspeech::new();
    assert!(!u.ready());
    assert!(!u.touch(0x0038));
    assert!(!u.paged);
    assert_eq!(u.mem(0x0000), None);
}

#[test]
fn touching_0038_twice_restores_the_paging() {
    let mut u = fitted();
    assert!(u.touch(0x0038));
    assert!(u.paged);
    assert!(u.touch(0x0038));
    assert!(!u.paged);
}

#[test]
fn other_addresses_leave_the_paging_alone() {
    let mut u = fitted();
    assert!(!u.touch(0x0039));
    assert!(!u.touch(0x0037));
    assert!(!u.paged);
}

#[test]
fn rom_is_mirrored_over_the_second_2k() {
    let mut u = fitted();
    u.touch(0x0038);
    assert_eq!(u.mem(0x0000), Some(0xF3));
    assert_eq!(u.mem(0x0800), Some(0xF3));
    assert_eq!(u.mem(0x0805), Some(0x21));
    assert_eq!(u.mem(0x0FFF), Some(0xC9));
}

#[test]
fn paged_in_reads_of_the_bottom_16k() {
    let mut u = fitted();
    u.touch(0x0038);
    assert_eq!(u.mem(0x1000), Some(0xFE));
    assert_eq!(u.mem(0x2000), Some(0xFF));
    assert_eq!(u.mem(0x3FFF), Some(0xFF));
    assert_eq!(u.mem(0x4000), None);
}

#[test]
fn paged_out_writes_are_not_taken() {
    let mut u = fitted();
    assert!(!u.poke(0x1000, 10));
    assert_eq!(u.spoken, 0);
}

#[test]
fn speaking_an_allophone_makes_the_chip_busy() {
    let mut u = fitted();
    u.touch(0x0038);
    u.at(1000, 3_500_000);
    assert!(u.poke(0x1000, 5));
    assert_eq!(u.allophone, 5);
    assert_eq!(u.spoken, 1);
    assert_eq!(u.phonemes, 1);
    // 291.2ms at 3.5MHz: 2912 * 3_500_000 / 10000 cycles.
    assert_eq!(u.busy_until, 1000 + 1_019_200);
    assert!(u.busy());
    assert_eq!(u.mem(0x1234), Some(0xFF));
    u.at(1000 + 1_019_200, 3_500_000);
    assert!(!u.busy());
}

#[test]
fn a_pause_is_spoken_but_is_no_phoneme() {
    let mut u = fitted();
    u.touch(0x0038);
    assert!(u.poke(0x1FFF, 2));
    assert_eq!(u.spoken, 1);
    assert_eq!(u.phonemes, 0);
    // Only the bottom six bits choose the allophone.
    assert!(u.poke(0x1000, 64 + 7));
    assert_eq!(u.allophone, 7);
}

#[test]
fn odd_address_in_3000_block_sets_high_pitch() {
    let mut u = fitted();
    u.touch(0x0038);
    assert!(u.poke(0x3001, 0));
    assert!(u.high_pitch);
    assert!(u.poke(0x3FFE, 0xFF));
    assert!(!u.high_pitch);
}

#[test]
fn high_pitch_is_quicker() {
    let mut u = fitted();
    u.touch(0x0038);
    u.poke(0x3001, 0);
    u.poke(0x1000, 5);
    assert_eq!(u.busy_until, 2912 * 3_500_000 / 10700);
}

#[test]
fn ports_reach_the_same_decoding() {
    let mut u = fitted();
    assert_eq!(u.io_read(0x0038), None);
    assert!(u.paged);
    assert_eq!(u.io_read(0x0005), Some(0x21));
    assert!(u.io_write(0x1000, 9));
    assert_eq!(u.allophone, 9);
    assert!(!u.io_write(0x0038, 0));
    assert!(!u.paged);
}

#[test]
fn reset_quiets_and_pages_out() {
    let mut u = fitted();
    u.touch(0x0038);
    u.poke(0x3001, 0);
    u.poke(0x1000, 20);
    u.reset();
    assert!(!u.paged);
    assert!(!u.high_pitch);
    assert_eq!(u.busy_until, 0);
    assert_eq!(u.spoken, 1);
}

#[test]
fn clock_going_back_ends_speech() {
    let mut u = fitted();
    u.touch(0x0038);
    u.at(5000, 3_500_000);
    u.poke(0x1000, 10);
    assert!(u.busy());
    u.at(100, 3_500_000);
    assert!(!u.busy());
    assert_eq!(u.busy_until, 0);
}

#[test]
fn default_is_an_empty_socket() {
    let u = Uspeech::default();
    assert!(u.rom.is_none());
    assert_eq!(u.cpu_hz, 3_500_000);
}

#[test]
fn any_clock_can_be_set_and_speech_is_timed_by_it() {
    let mut u = Uspeech::new();
    u.rom = Some(vec![0; 2048]);
    u.touch(0x0038);
    u.at(u64::MAX - 10, u64::MAX);
    assert!(!u.busy());
    u.at(1000, 10_000);
    // Allophone 5 takes 2912 tenths of a millisecond: 2912 cycles at 10kHz.
    assert!(u.poke(0x1000, 5));
    assert!(u.busy());
    u.at(1000 + 2911, 10_000);
    assert!(u.busy());
    u.at(1000 + 2912, 10_000);
    assert!(!u.busy());
}
