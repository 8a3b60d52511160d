//! The Currah µSpeech: a 2K ROM, an SP0256-AL2 and one address that does
//! everything.
//!
//! Every access to `$0038` — an opcode fetch, a memory read or write, an `IN`
//! or an `OUT` — turns the interface's ROM on, and the next one turns it off
//! again. While it is paged in the bottom 16K is the interface's:
//!
//! * `$0000-$07FF` is its ROM, mirrored again over `$0800-$0FFF`.
//! * `$1000-$1FFF` is the SP0256. Writing an allophone there says it; reading
//!   gives its busy line back in bit 0.
//! * `$3000-$3FFF` is the intonation: an even address is the low pitch and an
//!   odd one the high, about seven per cent above it. Only writes count.
//! * Nothing else answers, and the machine's own ROM is not there to be read.
//!
//! The decoding is on the address bus, so `IN` and `OUT` reach all of it too.
//!
//! The clock is kept in whole cycles and whole hertz, so how long an
//! allophone keeps the chip busy is worked out exactly: its length in tenths
//! of a millisecond times the clock, over ten thousand, and over ten thousand
//! seven hundred at the higher pitch.
use vstd::prelude::*;

verus! {

/// How long the interface's ROM is.
pub const ROM_LEN: usize = 2048;

/// How long each of the 64 allophones takes, in tenths of a millisecond: the
/// measured lengths from the SP0256-AL2's data sheet. The first five are the
/// pauses.
pub open spec fn allophone_tenths(a: nat) -> nat {
    seq![
        64nat, 256, 448, 960, 1984,
        2912, 1729, 546, 768, 1472, 984, 1729, 455, 960, 1274, 546, 1820, 768, 1365, 1729, 2002,
        455, 637, 728, 637, 1274, 819, 896, 364, 1280, 728, 1729, 2548, 721, 1105, 1274, 721,
        1984, 1341, 819, 1088, 1344, 1152, 1486, 2002, 819, 1456, 2457, 1452, 910, 1472, 1092,
        2093, 1729, 1820, 640, 1365, 1260, 2366, 2002, 2457, 694, 1365, 502,
    ][a as int]
}

/// The longest allophone.
pub open spec fn longest_tenths() -> nat {
    2912
}

/// How many cycles of a `hz` clock an allophone keeps the chip busy.
pub open spec fn speaking_cycles(a: nat, hz: nat, high: bool) -> nat {
    if high {
        allophone_tenths(a) * hz / 10700
    } else {
        allophone_tenths(a) * hz / 10000
    }
}

/// The most cycles any allophone can keep the chip busy for.
pub open spec fn longest_cycles(hz: nat) -> nat {
    longest_tenths() * hz / 10000
}

/// What the interface is, as far as anything outside can tell.
pub struct UspeechView {
    pub rom: Option<Seq<u8>>,
    pub paged: bool,
    pub allophone: u8,
    pub high_pitch: bool,
    pub spoken: u64,
    pub phonemes: u64,
    pub now: u64,
    pub busy_until: u64,
    pub cpu_hz: u64,
}

#[derive(Clone)]
pub struct Uspeech {
    /// The 2K ROM, once somebody has supplied one. Without it there is nothing
    /// to page in and the interface is an empty socket.
    pub rom: Option<Vec<u8>>,
    /// Whether the interface's ROM and registers are over the bottom 16K.
    pub paged: bool,
    /// The allophone last written, which is what the chip is saying.
    pub allophone: u8,
    /// The higher of the two pitches, set by writing to an odd address in the
    /// $3000 block.
    pub high_pitch: bool,
    /// How many allophones have been spoken.
    pub spoken: u64,
    /// How many of those were sounds rather than the five pauses.
    pub phonemes: u64,
    /// The machine's clock, in cycles, as last set by [`Uspeech::at`].
    pub now: u64,
    /// When the chip will have finished the allophone it is saying.
    pub busy_until: u64,
    /// How fast the clock runs, in hertz.
    pub cpu_hz: u64,
}

impl View for Uspeech {
    type V = UspeechView;

    open spec fn view(&self) -> UspeechView {
        UspeechView {
            rom: match self.rom {
                Some(r) => Some(r@),
                None => None,
            },
            paged: self.paged,
            allophone: self.allophone,
            high_pitch: self.high_pitch,
            spoken: self.spoken,
            phonemes: self.phonemes,
            now: self.now,
            busy_until: self.busy_until,
            cpu_hz: self.cpu_hz,
        }
    }
}

impl UspeechView {
    /// Whether there is a ROM to page in.
    pub open spec fn ready(self) -> bool {
        self.rom is Some
    }

    /// Whether the chip is still saying the last allophone.
    pub open spec fn busy(self) -> bool {
        self.now < self.busy_until
    }

    /// What the interface needs to say the allophone a byte names: its
    /// counters short of their limits, and the clock far enough from the end
    /// of time that the allophone can finish.
    pub open spec fn can_say(self, value: u8) -> bool {
        &&& self.spoken < u64::MAX
        &&& (value % 64 > 4 ==> self.phonemes < u64::MAX)
        &&& self.now + speaking_cycles((value % 64) as nat, self.cpu_hz as nat, self.high_pitch)
            <= u64::MAX
    }

    /// What an access to `addr` does to the paging, and whether it was the
    /// paging address.
    pub open spec fn touched(self, addr: u16) -> (UspeechView, bool) {
        if addr != 0x0038 || !self.ready() {
            (self, false)
        } else {
            (UspeechView { paged: !self.paged, ..self }, true)
        }
    }

    /// What the interface answers at an address, if anything.
    pub open spec fn mem(self, addr: u16) -> Option<u8> {
        if !self.paged {
            None
        } else if addr <= 0x0FFF {
            match self.rom {
                Some(rom) => if (addr as int % 2048) < rom.len() {
                    Some(rom[addr as int % 2048])
                } else {
                    None
                },
                None => None,
            }
        } else if addr <= 0x1FFF {
            Some(if self.busy() { 0xFFu8 } else { 0xFEu8 })
        } else if addr <= 0x3FFF {
            Some(0xFFu8)
        } else {
            None
        }
    }

    /// The chip starting an allophone.
    pub open spec fn said(self, value: u8) -> UspeechView {
        let which = (value as nat) % 64;
        UspeechView {
            allophone: which as u8,
            spoken: (self.spoken + 1) as u64,
            phonemes: if which > 4 {
                (self.phonemes + 1) as u64
            } else {
                self.phonemes
            },
            busy_until: (self.now + speaking_cycles(
                which,
                self.cpu_hz as nat,
                self.high_pitch,
            )) as u64,
            ..self
        }
    }

    /// What a write into the interface's space does, and whether it was
    /// taken.
    pub open spec fn poked(self, addr: u16, value: u8) -> (UspeechView, bool) {
        if !self.paged {
            (self, false)
        } else if 0x1000 <= addr && addr <= 0x1FFF {
            (self.said(value), true)
        } else if 0x3000 <= addr && addr <= 0x3FFF {
            (UspeechView { high_pitch: addr % 2 == 1, ..self }, true)
        } else if addr <= 0x3FFF {
            (self, true)
        } else {
            (self, false)
        }
    }

    /// An `IN` from `port`.
    pub open spec fn read_port(self, port: u16) -> (UspeechView, Option<u8>) {
        let (after, paging) = self.touched(port);
        if paging {
            (after, None)
        } else {
            (after, after.mem(port))
        }
    }

    /// An `OUT` of `value` to `port`.
    pub open spec fn wrote_port(self, port: u16, value: u8) -> (UspeechView, bool) {
        let (after, paging) = self.touched(port);
        if paging {
            (after, false)
        } else {
            after.poked(port, value)
        }
    }

    /// What the reset line does.
    pub open spec fn reset_state(self) -> UspeechView {
        UspeechView { paged: false, busy_until: 0, high_pitch: false, ..self }
    }

    /// The clock set to `now`, running at `hz`.
    pub open spec fn clocked(self, now: u64, hz: u64) -> UspeechView {
        UspeechView {
            now: now,
            cpu_hz: hz,
            busy_until: if now < self.now {
                0
            } else {
                self.busy_until
            },
            ..self
        }
    }
}

fn allophone_length(a: u8) -> (t: u64)
    requires
        a < 64,
    ensures
        t == allophone_tenths(a as nat),
        t <= longest_tenths(),
{
    let lengths: [u64; 64] = [
        64, 256, 448, 960, 1984,
        2912, 1729, 546, 768, 1472, 984, 1729, 455, 960, 1274, 546, 1820, 768, 1365, 1729, 2002,
        455, 637, 728, 637, 1274, 819, 896, 364, 1280, 728, 1729, 2548, 721, 1105, 1274, 721,
        1984, 1341, 819, 1088, 1344, 1152, 1486, 2002, 819, 1456, 2457, 1452, 910, 1472, 1092,
        2093, 1729, 1820, 640, 1365, 1260, 2366, 2002, 2457, 694, 1365, 502,
    ];
    assert(lengths@ =~= seq![
        64u64, 256, 448, 960, 1984,
        2912, 1729, 546, 768, 1472, 984, 1729, 455, 960, 1274, 546, 1820, 768, 1365, 1729, 2002,
        455, 637, 728, 637, 1274, 819, 896, 364, 1280, 728, 1729, 2548, 721, 1105, 1274, 721,
        1984, 1341, 819, 1088, 1344, 1152, 1486, 2002, 819, 1456, 2457, 1452, 910, 1472, 1092,
        2093, 1729, 1820, 640, 1365, 1260, 2366, 2002, 2457, 694, 1365, 502,
    ]);
    lengths[a as usize]
}

impl Uspeech {
    /// An empty socket: no ROM, paged out, quiet, at a 3.5MHz clock.
    pub fn new() -> (u: Uspeech)
        ensures
            u@.rom is None,
            !u@.paged,
            u@.allophone == 0,
            !u@.high_pitch,
            u@.spoken == 0,
            u@.phonemes == 0,
            u@.now == 0,
            u@.busy_until == 0,
            u@.cpu_hz == 3_500_000,
    {
        Uspeech {
            rom: None,
            paged: false,
            allophone: 0,
            phonemes: 0,
            high_pitch: false,
            spoken: 0,
            now: 0,
            busy_until: 0,
            cpu_hz: 3_500_000,
        }
    }

    /// Whether there is a ROM to page in.
    pub fn ready(&self) -> (r: bool)
        ensures
            r == self@.ready(),
    {
        self.rom.is_some()
    }

    /// The machine's clock. A clock that has gone backwards — a reset, a
    /// snapshot — ends whatever the chip was saying, rather than leaving it
    /// busy for the age of the universe.
    pub fn at(&mut self, now: u64, cpu_hz: u64)
        ensures
            final(self)@ == old(self)@.clocked(now, cpu_hz),
    {
        if now < self.now {
            self.busy_until = 0;
        }
        self.now = now;
        self.cpu_hz = cpu_hz;
    }

    /// Whether the chip is still saying the last allophone.
    pub fn busy(&self) -> (r: bool)
        ensures
            r == self@.busy(),
    {
        self.now < self.busy_until
    }

    /// Any access at all to $0038 turns the interface on, and the next one
    /// turns it off. Reads, writes, `IN`, `OUT` and opcode fetches all count.
    pub fn touch(&mut self, addr: u16) -> (r: bool)
        ensures
            (final(self)@, r) == old(self)@.touched(addr),
    {
        if addr != 0x0038 || !self.ready() {
            return false;
        }
        self.paged = !self.paged;
        true
    }

    /// What the interface answers at an address, if it is paged in.
    pub fn mem(&self, addr: u16) -> (r: Option<u8>)
        ensures
            r == self@.mem(addr),
    {
        if !self.paged {
            return None;
        }
        if addr <= 0x0FFF {
            // The 2K ROM, and its mirror in the next 2K.
            let at: u16 = addr & 0x07FF;
            assert(addr & 0x07FF == addr % 2048) by (bit_vector);
            match &self.rom {
                Some(rom) => {
                    if (at as usize) < rom.len() {
                        Some(rom[at as usize])
                    } else {
                        None
                    }
                },
                None => None,
            }
        } else if addr <= 0x1FFF {
            // The SP0256. Bit 0 is the busy line; the rest are the chip's own
            // business and are not driven here.
            Some(
                if self.busy() {
                    0xFF
                } else {
                    0xFE
                },
            )
        } else if addr <= 0x3FFF {
            // The machine's ROM is not readable while the interface is in.
            Some(0xFF)
        } else {
            None
        }
    }

    /// A write into the interface's space. Returns whether it took it.
    pub fn poke(&mut self, addr: u16, value: u8) -> (r: bool)
        requires
            old(self)@.paged && 0x1000 <= addr <= 0x1FFF ==> old(self)@.can_say(value),
        ensures
            (final(self)@, r) == old(self)@.poked(addr, value),
    {
        if !self.paged {
            return false;
        }
        if 0x1000 <= addr && addr <= 0x1FFF {
            self.say(value);
            true
        } else if 0x3000 <= addr && addr <= 0x3FFF {
            // The address says which pitch; the byte written means nothing.
            self.high_pitch = addr & 0x0001 != 0;
            assert((addr & 0x0001 != 0) == (addr % 2 == 1)) by (bit_vector);
            true
        } else {
            // Its ROM, and the space where the machine's would be.
            addr <= 0x3FFF
        }
    }

    /// An `IN`: the address bus is the address bus, whichever cycle it is.
    pub fn io_read(&mut self, port: u16) -> (r: Option<u8>)
        ensures
            (final(self)@, r) == old(self)@.read_port(port),
    {
        if self.touch(port) {
            return None;
        }
        self.mem(port)
    }

    /// An `OUT`, which can write an allophone or the pitch just as a memory
    /// write can.
    pub fn io_write(&mut self, port: u16, value: u8) -> (r: bool)
        requires
            old(self)@.paged && 0x1000 <= port <= 0x1FFF ==> old(self)@.can_say(value),
        ensures
            (final(self)@, r) == old(self)@.wrote_port(port, value),
    {
        if self.touch(port) {
            return false;
        }
        self.poke(port, value)
    }

    /// Start an allophone. The chip is busy for as long as that one takes.
    fn say(&mut self, allophone: u8)
        requires
            old(self)@.can_say(allophone),
        ensures
            final(self)@ == old(self)@.said(allophone),
    {
        let which: u8 = allophone & 0x3F;
        assert(allophone & 0x3F == allophone % 64) by (bit_vector);
        self.allophone = which;
        self.spoken = self.spoken + 1;
        if which > 4 {
            self.phonemes = self.phonemes + 1;
        }
        let tenths = allophone_length(which);
        let hz = self.cpu_hz;
        // The product is taken wide: a fast clock times a long allophone does
        // not fit in 64 bits, though the number of cycles it comes to does.
        let wide: u128 = (tenths as u128) * (hz as u128);
        let divisor: u128 = if self.high_pitch {
            10700
        } else {
            10000
        };
        proof {
            assert(wide / divisor <= hz) by (nonlinear_arith)
                requires
                    wide == tenths * hz,
                    tenths <= 2912,
                    divisor >= 10000,
            {}
        }
        let t: u64 = (wide / divisor) as u64;
        self.busy_until = self.now + t;
    }

    /// What the reset line does: the ROM is out of the way and the chip quiet.
    pub fn reset(&mut self)
        ensures
            final(self)@ == old(self)@.reset_state(),
    {
        self.paged = false;
        self.busy_until = 0;
        self.high_pitch = false;
    }
}

impl Default for Uspeech {
    fn default() -> (u: Uspeech)
        ensures
            u@.rom is None,
            !u@.paged,
            u@.allophone == 0,
            !u@.high_pitch,
            u@.spoken == 0,
            u@.phonemes == 0,
            u@.now == 0,
            u@.busy_until == 0,
            u@.cpu_hz == 3_500_000,
    {
        Uspeech::new()
    }
}

/// The first access to `$0038` pages the interface in or out, and the next
/// one puts it back as it was.
pub proof fn touching_twice_restores(u: UspeechView)
    ensures
        u.touched(0x0038).0.touched(0x0038).0 == u,
        u.ready() ==> u.touched(0x0038).0.paged != u.paged && u.touched(0x0038).1,
        !u.ready() ==> u.touched(0x0038) == (u, false),
{
}

/// No other address touches the paging.
pub proof fn only_0038_pages(u: UspeechView, addr: u16)
    requires
        addr != 0x0038,
    ensures
        u.touched(addr) == (u, false),
{
}

/// The interface's 2K ROM is mirrored over the next 2K.
pub proof fn rom_is_mirrored(u: UspeechView, addr: u16)
    requires
        addr < 0x0800,
    ensures
        u.mem(addr) == u.mem((addr + 0x0800) as u16),
{
}

/// Paged out, the interface answers nothing and takes no writes.
pub proof fn paged_out_is_silent(u: UspeechView, addr: u16, value: u8)
    requires
        !u.paged,
    ensures
        u.mem(addr) is None,
        u.poked(addr, value) == (u, false),
{
}

/// Paged in, the bottom 16K is the interface's and nothing above it is.
pub proof fn paged_in_owns_bottom_16k(u: UspeechView, addr: u16, value: u8)
    requires
        u.paged,
    ensures
        0x1000 <= addr < 0x4000 ==> u.mem(addr) is Some,
        addr < 0x4000 <==> u.poked(addr, value).1,
        addr >= 0x4000 ==> u.mem(addr) is None,
        0x2000 <= addr < 0x4000 ==> u.mem(addr) == Some(0xFFu8),
{
}

/// No allophone is longer than the longest.
pub proof fn allophones_fit(a: nat, hz: nat, high: bool)
    requires
        a < 64,
    ensures
        allophone_tenths(a) <= longest_tenths(),
        speaking_cycles(a, hz, high) <= longest_cycles(hz),
{
    if a == 0 {
    } else if a == 1 {
    } else if a == 2 {
    } else if a == 3 {
    } else if a == 4 {
    } else if a == 5 {
    } else if a == 6 {
    } else if a == 7 {
    } else if a == 8 {
    } else if a == 9 {
    } else if a == 10 {
    } else if a == 11 {
    } else if a == 12 {
    } else if a == 13 {
    } else if a == 14 {
    } else if a == 15 {
    } else if a == 16 {
    } else if a == 17 {
    } else if a == 18 {
    } else if a == 19 {
    } else if a == 20 {
    } else if a == 21 {
    } else if a == 22 {
    } else if a == 23 {
    } else if a == 24 {
    } else if a == 25 {
    } else if a == 26 {
    } else if a == 27 {
    } else if a == 28 {
    } else if a == 29 {
    } else if a == 30 {
    } else if a == 31 {
    } else if a == 32 {
    } else if a == 33 {
    } else if a == 34 {
    } else if a == 35 {
    } else if a == 36 {
    } else if a == 37 {
    } else if a == 38 {
    } else if a == 39 {
    } else if a == 40 {
    } else if a == 41 {
    } else if a == 42 {
    } else if a == 43 {
    } else if a == 44 {
    } else if a == 45 {
    } else if a == 46 {
    } else if a == 47 {
    } else if a == 48 {
    } else if a == 49 {
    } else if a == 50 {
    } else if a == 51 {
    } else if a == 52 {
    } else if a == 53 {
    } else if a == 54 {
    } else if a == 55 {
    } else if a == 56 {
    } else if a == 57 {
    } else if a == 58 {
    } else if a == 59 {
    } else if a == 60 {
    } else if a == 61 {
    } else if a == 62 {
    }
    let t = allophone_tenths(a);
    assert(t * hz / 10700 <= 2912 * hz / 10000 && t * hz / 10000 <= 2912 * hz / 10000)
        by (nonlinear_arith)
        requires
            t <= 2912,
    {}
}

/// Writing an allophone says it, and the busy line reads back as busy until
/// the chip has finished — unless it takes no time at all at this clock.
pub proof fn speaking_sets_busy(u: UspeechView, w: u16, r: u16, value: u8)
    requires
        u.paged,
        u.can_say(value),
        0x1000 <= w <= 0x1FFF,
        0x1000 <= r <= 0x1FFF,
    ensures
        ({
            let after = u.poked(w, value).0;
            &&& after.allophone == value % 64
            &&& after.spoken == u.spoken + 1
            &&& after.phonemes == u.phonemes + (if value % 64 > 4 { 1int } else { 0 })
            &&& after.busy_until == u.now + speaking_cycles(
                (value % 64) as nat,
                u.cpu_hz as nat,
                u.high_pitch,
            )
            &&& after.mem(r) == Some(
                if speaking_cycles((value % 64) as nat, u.cpu_hz as nat, u.high_pitch) > 0 {
                    0xFFu8
                } else {
                    0xFEu8
                },
            )
        }),
{
    allophones_fit((value % 64) as nat, u.cpu_hz as nat, u.high_pitch);
}

/// An even address in the `$3000` block chooses the low pitch and an odd one
/// the high; nothing else about the interface changes.
pub proof fn pitch_follows_address(u: UspeechView, addr: u16, value: u8)
    requires
        u.paged,
        0x3000 <= addr <= 0x3FFF,
    ensures
        u.poked(addr, value) == (UspeechView { high_pitch: addr % 2 == 1, ..u }, true),
{
}

/// The higher pitch says everything a little quicker.
pub proof fn high_pitch_is_quicker(a: nat, hz: nat)
    ensures
        speaking_cycles(a, hz, true) <= speaking_cycles(a, hz, false),
{
    let t = allophone_tenths(a) * hz;
    assert(t / 10700 <= t / 10000) by (nonlinear_arith)
        requires
            t >= 0,
    {}
}

/// `IN` and `OUT` reach the same registers as memory reads and writes do,
/// everywhere but the paging address.
pub proof fn ports_are_memory(u: UspeechView, port: u16, value: u8)
    requires
        port != 0x0038 || !u.ready(),
    ensures
        u.read_port(port) == (u, u.mem(port)),
        u.wrote_port(port, value) == u.poked(port, value),
{
}

/// An `IN` or `OUT` at the paging address pages, and does nothing else.
pub proof fn port_0038_only_pages(u: UspeechView, value: u8)
    requires
        u.ready(),
    ensures
        u.read_port(0x0038) == (u.touched(0x0038).0, None::<u8>),
        u.wrote_port(0x0038, value) == (u.touched(0x0038).0, false),
{
}

/// The reset line pages the interface out and quiets the chip, and keeps the
/// ROM and the counts.
pub proof fn reset_quiets(u: UspeechView)
    ensures
        !u.reset_state().paged,
        !u.reset_state().busy(),
        !u.reset_state().high_pitch,
        u.reset_state().rom == u.rom,
        u.reset_state().spoken == u.spoken,
        u.reset_state().phonemes == u.phonemes,
{
}

/// A clock that has gone backwards ends whatever the chip was saying; one
/// that has gone forwards leaves the end where it was.
pub proof fn clock_going_back_ends_speech(u: UspeechView, now: u64, hz: u64)
    ensures
        now < u.now ==> !u.clocked(now, hz).busy(),
        now >= u.now ==> u.clocked(now, hz).busy_until == u.busy_until,
        u.clocked(now, hz).now == now,
{
}

/// The SP0256-AL2's allophones by code, each with its name and how long the
/// data sheet measures it, in tenths of a millisecond.
pub open spec fn sp0256_al2() -> Seq<(Seq<char>, nat)> {
    seq![
        ("PA1"@, 64nat), ("PA2"@, 256nat), ("PA3"@, 448nat), ("PA4"@, 960nat),
        ("PA5"@, 1984nat), ("OY"@, 2912nat), ("AY"@, 1729nat), ("EH"@, 546nat),
        ("KK3"@, 768nat), ("PP"@, 1472nat), ("JH"@, 984nat), ("NN1"@, 1729nat),
        ("IH"@, 455nat), ("TT2"@, 960nat), ("RR1"@, 1274nat), ("AX"@, 546nat),
        ("MM"@, 1820nat), ("TT1"@, 768nat), ("DH1"@, 1365nat), ("IY"@, 1729nat),
        ("EY"@, 2002nat), ("DD1"@, 455nat), ("UW1"@, 637nat), ("AO"@, 728nat),
        ("AA"@, 637nat), ("YY2"@, 1274nat), ("AE"@, 819nat), ("HH1"@, 896nat),
        ("BB1"@, 364nat), ("TH"@, 1280nat), ("UH"@, 728nat), ("UW2"@, 1729nat),
        ("AW"@, 2548nat), ("DD2"@, 721nat), ("GG3"@, 1105nat), ("VV"@, 1274nat),
        ("GG1"@, 721nat), ("SH"@, 1984nat), ("ZH"@, 1341nat), ("RR2"@, 819nat),
        ("FF"@, 1088nat), ("KK2"@, 1344nat), ("KK1"@, 1152nat), ("ZZ"@, 1486nat),
        ("NG"@, 2002nat), ("LL"@, 819nat), ("WW"@, 1456nat), ("XR"@, 2457nat),
        ("WH"@, 1452nat), ("YY1"@, 910nat), ("CH"@, 1472nat), ("ER1"@, 1092nat),
        ("ER2"@, 2093nat), ("OW"@, 1729nat), ("DH2"@, 1820nat), ("SS"@, 640nat),
        ("NN2"@, 1365nat), ("HH2"@, 1260nat), ("OR"@, 2366nat), ("AR"@, 2002nat),
        ("YR"@, 2457nat), ("GG2"@, 694nat), ("EL"@, 1365nat), ("BB2"@, 502nat),
    ]
}

/// Every allophone keeps the chip busy for its length on the data sheet:
/// written at a clock of `hz`, it is busy for that many tenths of a
/// millisecond of the clock at the low pitch, and seven per cent less at the
/// high one.
pub proof fn allophones_last_as_the_data_sheet_says(u: UspeechView, value: u8)
    ensures
        allophone_tenths((value % 64) as nat) == sp0256_al2()[(value % 64) as int].1,
        u.can_say(value) ==> u.said(value).busy_until == u.now + sp0256_al2()[(value % 64) as int].1
            * u.cpu_hz / (if u.high_pitch {
            10700int
        } else {
            10000int
        }),
{
    let a = (value % 64) as int;
    if a == 0 {
    } else if a == 1 {
    } else if a == 2 {
    } else if a == 3 {
    } else if a == 4 {
    } else if a == 5 {
    } else if a == 6 {
    } else if a == 7 {
    } else if a == 8 {
    } else if a == 9 {
    } else if a == 10 {
    } else if a == 11 {
    } else if a == 12 {
    } else if a == 13 {
    } else if a == 14 {
    } else if a == 15 {
    } else if a == 16 {
    } else if a == 17 {
    } else if a == 18 {
    } else if a == 19 {
    } else if a == 20 {
    } else if a == 21 {
    } else if a == 22 {
    } else if a == 23 {
    } else if a == 24 {
    } else if a == 25 {
    } else if a == 26 {
    } else if a == 27 {
    } else if a == 28 {
    } else if a == 29 {
    } else if a == 30 {
    } else if a == 31 {
    } else if a == 32 {
    } else if a == 33 {
    } else if a == 34 {
    } else if a == 35 {
    } else if a == 36 {
    } else if a == 37 {
    } else if a == 38 {
    } else if a == 39 {
    } else if a == 40 {
    } else if a == 41 {
    } else if a == 42 {
    } else if a == 43 {
    } else if a == 44 {
    } else if a == 45 {
    } else if a == 46 {
    } else if a == 47 {
    } else if a == 48 {
    } else if a == 49 {
    } else if a == 50 {
    } else if a == 51 {
    } else if a == 52 {
    } else if a == 53 {
    } else if a == 54 {
    } else if a == 55 {
    } else if a == 56 {
    } else if a == 57 {
    } else if a == 58 {
    } else if a == 59 {
    } else if a == 60 {
    } else if a == 61 {
    } else if a == 62 {
    } else if a == 63 {
    }
}

} // verus!
