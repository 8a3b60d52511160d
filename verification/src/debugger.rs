//! What the debugger window reads out: registers, flags, the stack, the
//! memory map and dump, the sound chip, and the breakpoints it keeps.
use vstd::prelude::*;
use crate::ram_map::Paged;
use crate::text::{
    chars_of, decimal, hex2, hex4, hex_char, pad_left, pad_right, parse_hex, parse_hex16,
    push_char, push_decimal, push_hex1, push_hex2, push_hex4, push_padded, push_right_aligned,
    push_str, strip_leading, strip_leading_of, trim, trimmed,
};

verus! {

// ---------------------------------------------------------------------------
// Typed addresses
// ---------------------------------------------------------------------------

/// An address typed into the listing's box: `$`s in front are allowed, then
/// hexadecimal as `u16::from_str_radix` reads it.
pub open spec fn goto_spec(text: Seq<char>) -> Option<u16> {
    parse_hex(strip_leading(text, '$'))
}

/// An address typed into one of the other boxes, where white space round it
/// is allowed too.
pub open spec fn typed_spec(text: Seq<char>) -> Option<u16> {
    parse_hex(strip_leading(trim(text), '$'))
}

/// The address typed into the listing's Go to box.
pub fn goto_address(text: &str) -> (r: Option<u16>)
    ensures
        r == goto_spec(text@),
{
    let chars = chars_of(text);
    let bare = strip_leading_of(&chars, '$');
    parse_hex16(&bare)
}

/// The address typed into a box that takes one: the breakpoint and memory
/// boxes here, the sprite viewer's and the back buffer's.
pub fn typed_address(text: &str) -> (r: Option<u16>)
    ensures
        r == typed_spec(text@),
{
    let chars = chars_of(text);
    let t = trimmed(&chars);
    let bare = strip_leading_of(&t, '$');
    parse_hex16(&bare)
}

// ---------------------------------------------------------------------------
// Registers and flags
// ---------------------------------------------------------------------------

/// A register name in a column three wide, a space, and what follows.
pub open spec fn cell_text(name: Seq<char>, value: Seq<char>) -> Seq<char> {
    pad_right(name, 3) + seq![' '] + value
}

fn push_name(s: &mut String, name: &str)
    ensures
        final(s)@ == old(s)@ + pad_right(name@, 3) + seq![' '],
{
    let n = chars_of(name);
    push_padded(s, &n, 3);
    push_char(s, ' ');
}

/// One register, and the address it would take the dump to.
pub fn pair(name: &str, value: u16) -> (r: (String, Option<u16>))
    ensures
        r.0@ == cell_text(name@, hex4(value)),
        r.1 == Some(value),
{
    let mut s = String::new();
    push_name(&mut s, name);
    push_hex4(&mut s, value);
    assert(s@ =~= cell_text(name@, hex4(value)));
    (s, Some(value))
}

/// An eight-bit register, which is shown but is not an address.
pub fn byte_cell(name: &str, value: u8) -> (r: String)
    ensures
        r@ == cell_text(name@, hex2(value)),
{
    let mut s = String::new();
    push_name(&mut s, name);
    push_hex2(&mut s, value);
    assert(s@ =~= cell_text(name@, hex2(value)));
    s
}

/// A small number such as the interrupt mode, in decimal.
pub fn number_cell(name: &str, value: u8) -> (r: String)
    ensures
        r@ == cell_text(name@, decimal(value as nat)),
{
    let mut s = String::new();
    push_name(&mut s, name);
    push_decimal(&mut s, value as u64);
    assert(s@ =~= cell_text(name@, decimal(value as nat)));
    s
}

/// A register pair made of its two halves.
pub fn word(high: u8, low: u8) -> (r: u16)
    ensures
        r == high * 256 + low,
{
    high as u16 * 256 + low as u16
}

/// Whether bit `bit` of the flags is set: S, Z, 5, H, 3, P, N and C from the
/// top bit down.
pub fn flag_on(f: u8, bit: u8) -> (r: bool)
    requires
        bit < 8,
    ensures
        r == ((f >> bit) & 1 == 1),
{
    let mask: u8 = 1u8 << bit;
    assert((f & (1u8 << bit) != 0) == ((f >> bit) & 1 == 1)) by (bit_vector)
        requires
            bit < 8,
    ;
    f & mask != 0
}

// ---------------------------------------------------------------------------
// Where the machine is
// ---------------------------------------------------------------------------

/// The line saying where the machine is in the frame.
pub open spec fn clock_text(frame: u64, t: u32, frame_t: u32, instructions: u64) -> Seq<char> {
    "frame "@ + decimal(frame as nat) + "   T "@ + pad_left(decimal(t as nat), 5) + seq!['/']
        + decimal(frame_t as nat) + "   instructions "@ + decimal(instructions as nat)
}

fn decimal_chars(n: u64) -> (r: Vec<char>)
    ensures
        r@ == decimal(n as nat),
{
    let mut s = String::new();
    push_decimal(&mut s, n);
    assert(s@ =~= decimal(n as nat));
    chars_of(s.as_str())
}

pub fn clock_line(frame: u64, t: u32, frame_t: u32, instructions: u64) -> (r: String)
    ensures
        r@ == clock_text(frame, t, frame_t, instructions),
{
    let mut s = String::new();
    push_str(&mut s, "frame ");
    push_decimal(&mut s, frame);
    push_str(&mut s, "   T ");
    let digits = decimal_chars(t as u64);
    push_right_aligned(&mut s, &digits, 5);
    push_char(&mut s, '/');
    push_decimal(&mut s, frame_t as u64);
    push_str(&mut s, "   instructions ");
    push_decimal(&mut s, instructions);
    assert(s@ =~= clock_text(frame, t, frame_t, instructions));
    s
}

/// What a slot has in it, as the memory map line names it.
pub open spec fn paged_text(p: Paged) -> Seq<char> {
    match p {
        Paged::Rom(n) => "ROM"@ + decimal(n as nat),
        Paged::Ram(n) => "RAM"@ + decimal(n as nat),
    }
}

fn push_paged(s: &mut String, p: Paged)
    ensures
        final(s)@ == old(s)@ + paged_text(p),
{
    match p {
        Paged::Rom(n) => {
            push_str(s, "ROM");
        },
        Paged::Ram(n) => {
            push_str(s, "RAM");
        },
    }
    let n = match p {
        Paged::Rom(n) => n,
        Paged::Ram(n) => n,
    };
    push_decimal(s, n as u64);
    assert(final(s)@ =~= old(s)@ + paged_text(p));
}

/// The 128K's paging, for the machines that have it.
#[derive(Clone, Copy, Debug)]
pub struct Paging {
    /// The latch at $7FFD.
    pub page_reg: u8,
    /// The +3's latch at $1FFD, on the machines that have one.
    pub plus3_reg: Option<u8>,
    /// Whether the +3 is in one of its all-RAM configurations.
    pub special: bool,
    /// Which bank the screen is shown from.
    pub screen_bank: usize,
    /// Whether the paging has been locked until the next reset.
    pub locked: bool,
}

/// What the paging adds to the memory map line.
pub open spec fn paging_text(p: Paging) -> Seq<char> {
    "   $7FFD="@ + hex2(p.page_reg) + (match p.plus3_reg {
        Some(r) => " $1FFD="@ + hex2(r) + (if p.special {
            " all-RAM cfg"@ + decimal(((r as nat) / 2) % 4)
        } else {
            Seq::<char>::empty()
        }),
        None => Seq::<char>::empty(),
    }) + "  screen RAM"@ + decimal(p.screen_bank as nat) + (if p.locked {
        "  LOCKED"@
    } else {
        Seq::<char>::empty()
    })
}

/// The memory map line: the machine, what each 16K slot points at, and the
/// paging latches where there are any.
pub open spec fn map_text(model: Seq<char>, slots: Seq<Paged>, paging: Option<Paging>) -> Seq<
    char,
> {
    model + "  $0000:"@ + paged_text(slots[0]) + "  $4000:"@ + paged_text(slots[1]) + "  $8000:"@
        + paged_text(slots[2]) + "  $C000:"@ + paged_text(slots[3]) + match paging {
        Some(p) => paging_text(p),
        None => Seq::<char>::empty(),
    }
}

/// What each 16K slot currently points at, and the 128K paging latches.
pub fn memory_map_line(model: &str, slots: &Vec<Paged>, paging: Option<Paging>) -> (r: String)
    requires
        slots.len() == 4,
    ensures
        r@ == map_text(model@, slots@, paging),
{
    let mut s = String::new();
    push_str(&mut s, model);
    push_str(&mut s, "  $0000:");
    push_paged(&mut s, slots[0]);
    push_str(&mut s, "  $4000:");
    push_paged(&mut s, slots[1]);
    push_str(&mut s, "  $8000:");
    push_paged(&mut s, slots[2]);
    push_str(&mut s, "  $C000:");
    push_paged(&mut s, slots[3]);
    let ghost fixed = s@;
    match paging {
        Some(p) => {
            push_str(&mut s, "   $7FFD=");
            push_hex2(&mut s, p.page_reg);
            match p.plus3_reg {
                Some(r) => {
                    push_str(&mut s, " $1FFD=");
                    push_hex2(&mut s, r);
                    if p.special {
                        push_str(&mut s, " all-RAM cfg");
                        push_decimal(&mut s, ((r >> 1) & 3) as u64);
                        assert(((r >> 1) & 3) == ((r as nat) / 2) % 4) by (bit_vector);
                    }
                },
                None => {},
            }
            push_str(&mut s, "  screen RAM");
            push_decimal(&mut s, p.screen_bank as u64);
            if p.locked {
                push_str(&mut s, "  LOCKED");
            }
            assert(s@ =~= fixed + paging_text(p));
        },
        None => {
            assert(s@ =~= fixed + Seq::<char>::empty());
        },
    }
    assert(s@ =~= map_text(model@, slots@, paging));
    s
}

/// The ZX81's memory map line: no paging, the ROM in the bottom page and the
/// RAM in the next, both mirrored above $8000. A ROM of unknown size is
/// taken to be the 8K one.
pub open spec fn zx81_map_text(ram: Seq<char>, rom_len: Option<usize>) -> Seq<char> {
    ram + "  $0000:ROM ("@ + decimal(
        match rom_len {
            Some(n) => (n / 1024) as nat,
            None => 8,
        },
    ) + "K)  $4000:RAM  $8000:mirror of $0000"@
}

pub fn zx81_map_line(ram: &str, rom_len: Option<usize>) -> (r: String)
    ensures
        r@ == zx81_map_text(ram@, rom_len),
{
    let k: usize = match rom_len {
        Some(n) => n / 1024,
        None => 8,
    };
    let mut s = String::new();
    push_str(&mut s, ram);
    push_str(&mut s, "  $0000:ROM (");
    push_decimal(&mut s, k as u64);
    push_str(&mut s, "K)  $4000:RAM  $8000:mirror of $0000");
    assert(s@ =~= zx81_map_text(ram@, rom_len));
    s
}

// ---------------------------------------------------------------------------
// The stack and the memory dump
// ---------------------------------------------------------------------------

/// One line of the stack: how far above the stack pointer, in bytes, then
/// the address and the word there.
pub open spec fn stack_text(i: nat, at: u16, word: u16) -> Seq<char> {
    seq!['+'] + pad_right(decimal(i * 2), 2) + seq![' '] + hex4(at) + seq![' ', ' '] + hex4(word)
}

pub fn stack_line(i: usize, at: u16, word: u16) -> (r: String)
    requires
        i * 2 <= usize::MAX,
    ensures
        r@ == stack_text(i as nat, at, word),
{
    let mut s = String::new();
    push_char(&mut s, '+');
    let digits = decimal_chars((i * 2) as u64);
    push_padded(&mut s, &digits, 2);
    push_char(&mut s, ' ');
    push_hex4(&mut s, at);
    push_str(&mut s, "  ");
    push_hex4(&mut s, word);
    proof {
        reveal_strlit("  ");
    }
    assert(s@ =~= stack_text(i as nat, at, word));
    s
}

/// Where the `i`th word of the stack is, counting up from the stack pointer
/// round the 64K.
pub fn stack_slot(sp: u16, i: u16) -> (r: u16)
    requires
        i < 32768,
    ensures
        r == (sp + i * 2) % 65536,
{
    sp.wrapping_add(i * 2)
}

/// Where the memory dump starts for an address: the eight-byte line it is
/// on.
pub fn dump_base(addr: u16) -> (r: u16)
    ensures
        r == addr - addr % 8,
{
    let r = addr & !7u16;
    assert(addr & !7u16 == addr - addr % 8) by (bit_vector);
    r
}

/// How a byte is shown beside its hexadecimal: printable ASCII as itself,
/// anything else as a dot.
pub open spec fn shown_char(b: u8) -> char {
    if 0x20 <= b && b < 0x7f {
        b as char
    } else {
        '.'
    }
}

/// One line of the memory dump: the address, eight bytes in hexadecimal,
/// and the same eight as characters.
pub open spec fn dump_text(addr: u16, bytes: Seq<u8>) -> Seq<char> {
    hex4(addr) + seq![' ', ' '] + hex2(bytes[0]) + seq![' '] + hex2(bytes[1]) + seq![' '] + hex2(
        bytes[2],
    ) + seq![' '] + hex2(bytes[3]) + seq![' '] + hex2(bytes[4]) + seq![' '] + hex2(bytes[5])
        + seq![' '] + hex2(bytes[6]) + seq![' '] + hex2(bytes[7]) + seq![' ', ' '] + Seq::new(
        8,
        |i: int| shown_char(bytes[i]),
    )
}

pub fn dump_line(addr: u16, bytes: &Vec<u8>) -> (r: String)
    requires
        bytes.len() == 8,
    ensures
        r@ == dump_text(addr, bytes@),
{
    let mut s = String::new();
    push_hex4(&mut s, addr);
    push_str(&mut s, "  ");
    proof {
        reveal_strlit("  ");
    }
    assert(s@ =~= hex4(addr) + seq![' ', ' '] + hex_run(bytes@, 0));
    let mut i: usize = 0;
    while i < 8
        invariant
            i <= 8,
            bytes.len() == 8,
            s@ == hex4(addr) + seq![' ', ' '] + hex_run(bytes@, i as int),
        decreases 8 - i,
    {
        push_hex2(&mut s, bytes[i]);
        push_char(&mut s, ' ');
        assert(hex_run(bytes@, i + 1) =~= hex_run(bytes@, i as int) + hex2(bytes@[i as int])
            + seq![' ']);
        i = i + 1;
    }
    push_char(&mut s, ' ');
    let ghost front = s@;
    let mut j: usize = 0;
    while j < 8
        invariant
            j <= 8,
            bytes.len() == 8,
            s@ == front + Seq::new(j as nat, |k: int| shown_char(bytes@[k])),
        decreases 8 - j,
    {
        let b = bytes[j];
        let c: char = if 0x20 <= b && b < 0x7f {
            b as char
        } else {
            '.'
        };
        push_char(&mut s, c);
        assert(Seq::new((j + 1) as nat, |k: int| shown_char(bytes@[k])) =~= Seq::new(
            j as nat,
            |k: int| shown_char(bytes@[k]),
        ).push(shown_char(bytes@[j as int])));
        j = j + 1;
    }
    proof {
        reveal_with_fuel(hex_run, 9);
    }
    assert(s@ =~= dump_text(addr, bytes@));
    s
}

/// The first `n` bytes each as two hexadecimal digits and a space.
pub open spec fn hex_run(bytes: Seq<u8>, n: int) -> Seq<char>
    decreases n,
{
    if n <= 0 {
        Seq::empty()
    } else {
        hex_run(bytes, n - 1) + hex2(bytes[n - 1]) + seq![' ']
    }
}

/// The bytes of an instruction as the listing shows them.
pub fn bytes_text(bytes: &Vec<u8>) -> (r: String)
    ensures
        r@ == hex_run(bytes@, bytes@.len() as int),
{
    let mut s = String::new();
    let mut i: usize = 0;
    while i < bytes.len()
        invariant
            i <= bytes.len(),
            s@ == hex_run(bytes@, i as int),
        decreases bytes.len() - i,
    {
        push_hex2(&mut s, bytes[i]);
        push_char(&mut s, ' ');
        assert(s@ =~= hex_run(bytes@, i + 1));
        i = i + 1;
    }
    s
}

// ---------------------------------------------------------------------------
// The listing
// ---------------------------------------------------------------------------

/// How a row of the listing is marked.
#[derive(Clone, Copy, Debug, PartialEq, Eq, Structural)]
pub enum Look {
    /// The instruction about to run, on an amber bar.
    Current,
    /// A breakpoint, in red.
    Breakpoint,
    /// Where the reader asked to be taken, on a band of its own.
    Marked,
    Plain,
}

/// The current instruction is marked over a breakpoint, and a breakpoint
/// over a row asked for.
pub open spec fn look_of(is_pc: bool, has_bp: bool, marked: bool) -> Look {
    if is_pc {
        Look::Current
    } else if has_bp {
        Look::Breakpoint
    } else if marked {
        Look::Marked
    } else {
        Look::Plain
    }
}

pub fn row_look(is_pc: bool, has_bp: bool, marked: bool) -> (r: Look)
    ensures
        r == look_of(is_pc, has_bp, marked),
{
    if is_pc {
        Look::Current
    } else if has_bp {
        Look::Breakpoint
    } else if marked {
        Look::Marked
    } else {
        Look::Plain
    }
}

// ---------------------------------------------------------------------------
// Breakpoints
// ---------------------------------------------------------------------------

/// Where `a` first is in the list, if it is there.
pub open spec fn first_index(bps: Seq<u16>, a: u16) -> Option<int>
    decreases bps.len(),
{
    if bps.len() == 0 {
        None
    } else {
        match first_index(bps.drop_last(), a) {
            Some(i) => Some(i),
            None => if bps.last() == a {
                Some(bps.len() - 1)
            } else {
                None
            },
        }
    }
}

proof fn lemma_first_index(bps: Seq<u16>, a: u16)
    ensures
        first_index(bps, a) matches Some(i) ==> 0 <= i < bps.len() && bps[i] == a && forall|j: int|
            0 <= j < i ==> bps[j] != a,
        first_index(bps, a) is None ==> !bps.contains(a),
    decreases bps.len(),
{
    if bps.len() > 0 {
        let front = bps.drop_last();
        lemma_first_index(front, a);
        match first_index(front, a) {
            Some(i) => {
                assert(bps[i] == front[i]);
                assert forall|j: int| 0 <= j < i implies bps[j] != a by {
                    assert(bps[j] == front[j]);
                }
            },
            None => {
                assert forall|j: int| 0 <= j < bps.len() - 1 implies bps[j] != a by {
                    assert(front[j] == bps[j]);
                    if bps[j] == a {
                        assert(front.contains(a));
                    }
                }
                if bps.last() != a {
                    if bps.contains(a) {
                        let k = choose|k: int| 0 <= k < bps.len() && bps[k] == a;
                        assert(k < bps.len() - 1);
                    }
                }
            },
        }
    }
}

fn find_breakpoint(bps: &Vec<u16>, a: u16) -> (r: Option<usize>)
    ensures
        r matches Some(i) ==> first_index(bps@, a) == Some(i as int),
        r is None ==> first_index(bps@, a) is None,
{
    proof {
        lemma_first_index(bps@, a);
    }
    let mut i: usize = 0;
    while i < bps.len()
        invariant
            i <= bps.len(),
            forall|j: int| 0 <= j < i ==> bps@[j] != a,
        decreases bps.len() - i,
    {
        if bps[i] == a {
            proof {
                lemma_first_index(bps@, a);
                if first_index(bps@, a) is None {
                    assert(bps@.contains(a));
                }
                let k = first_index(bps@, a)->0;
                assert(k == i);
            }
            return Some(i);
        }
        i = i + 1;
    }
    proof {
        if first_index(bps@, a) is Some {
            let k = first_index(bps@, a)->0;
            assert(bps@[k] == a);
        }
    }
    None
}

/// A breakpoint added: put on the end, unless it is there already.
pub fn add_breakpoint(bps: &mut Vec<u16>, a: u16)
    ensures
        old(bps)@.contains(a) ==> final(bps)@ == old(bps)@,
        !old(bps)@.contains(a) ==> final(bps)@ == old(bps)@.push(a),
{
    proof {
        lemma_first_index(old(bps)@, a);
    }
    match find_breakpoint(bps, a) {
        Some(_) => {},
        None => {
            bps.push(a);
        },
    }
}

/// A breakpoint clicked in the listing: taken out where it is there, its
/// first copy; put on the end where it is not.
pub fn toggle_breakpoint(bps: &mut Vec<u16>, a: u16)
    ensures
        first_index(old(bps)@, a) matches Some(i) ==> final(bps)@ == old(bps)@.remove(i),
        first_index(old(bps)@, a) is None ==> final(bps)@ == old(bps)@.push(a),
{
    proof {
        lemma_first_index(old(bps)@, a);
    }
    match find_breakpoint(bps, a) {
        Some(i) => {
            bps.remove(i);
        },
        None => {
            bps.push(a);
        },
    }
}

/// Clicking a breakpoint in the listing sets it where it was not, and clears
/// it where it was, leaving the others as they were; for a list with nothing
/// in it twice, clicking twice leaves the list with the same breakpoints.
pub proof fn toggle_flips(bps: Seq<u16>, a: u16, b: u16)
    requires
        bps.no_duplicates(),
    ensures
        ({
            let once = match first_index(bps, a) {
                Some(i) => bps.remove(i),
                None => bps.push(a),
            };
            &&& once.contains(a) != bps.contains(a)
            &&& b != a ==> (once.contains(b) == bps.contains(b))
            &&& once.no_duplicates()
        }),
{
    lemma_first_index(bps, a);
    match first_index(bps, a) {
        Some(i) => {
            let once = bps.remove(i);
            assert forall|j: int| 0 <= j < once.len() implies once[j] != a by {
                if j < i {
                    assert(once[j] == bps[j]);
                } else {
                    assert(once[j] == bps[j + 1]);
                }
            }
            if bps.contains(b) && b != a {
                let k = choose|k: int| 0 <= k < bps.len() && bps[k] == b;
                if k < i {
                    assert(once[k] == b);
                } else {
                    assert(k != i);
                    assert(once[k - 1] == b);
                }
            }
            if once.contains(b) {
                let k = choose|k: int| 0 <= k < once.len() && once[k] == b;
                if k < i {
                    assert(bps[k] == b);
                } else {
                    assert(bps[k + 1] == b);
                }
            }
            assert forall|x: int, y: int| 0 <= x < y < once.len() implies once[x] != once[y] by {
                let bx = if x < i {
                    x
                } else {
                    x + 1
                };
                let by_ = if y < i {
                    y
                } else {
                    y + 1
                };
                assert(once[x] == bps[bx]);
                assert(once[y] == bps[by_]);
            }
        },
        None => {
            let once = bps.push(a);
            assert(once[bps.len() as int] == a);
            if bps.contains(b) {
                let k = choose|k: int| 0 <= k < bps.len() && bps[k] == b;
                assert(once[k] == b);
            }
            if once.contains(b) && b != a {
                let k = choose|k: int| 0 <= k < once.len() && once[k] == b;
                assert(bps[k] == b);
            }
            assert forall|x: int, y: int| 0 <= x < y < once.len() implies once[x] != once[y] by {
                if y == bps.len() {
                    assert(once[x] == bps[x]);
                    assert(bps.contains(bps[x]));
                }
            }
        },
    }
}

// ---------------------------------------------------------------------------
// The sound chip
// ---------------------------------------------------------------------------

/// One of the sound chip's three tone channels, as its registers set it up.
#[derive(Clone, Copy, Debug, PartialEq, Eq, Structural)]
pub struct Channel {
    /// The twelve-bit tone period.
    pub period: u32,
    /// Whether the volume follows the envelope rather than being fixed.
    pub envelope: bool,
    /// The fixed volume, when it is one.
    pub volume: u8,
    /// Whether the mixer lets the tone through.
    pub tone: bool,
    /// Whether the mixer lets the noise through.
    pub noise: bool,
}

/// What registers `regs` say of channel `i`: its period is the low byte and
/// the bottom four bits of the high one, its amplitude register says whether
/// the envelope drives it, and a clear bit of the mixer lets its tone or
/// noise through.
pub open spec fn channel_of(regs: Seq<u8>, i: int) -> Channel {
    Channel {
        period: ((regs[i * 2 + 1] % 16) * 256 + regs[i * 2]) as u32,
        envelope: (regs[8 + i] / 16) % 2 == 1,
        volume: regs[8 + i] % 16,
        tone: (regs[7] as int / pow2(i)) % 2 == 0,
        noise: (regs[7] as int / pow2(i + 3)) % 2 == 0,
    }
}

/// Two to the power of a small number.
pub open spec fn pow2(n: int) -> int
    decreases n,
{
    if n <= 0 {
        1
    } else {
        2 * pow2(n - 1)
    }
}

pub fn ay_channel(regs: &Vec<u8>, i: usize) -> (r: Channel)
    requires
        regs.len() == 16,
        i < 3,
    ensures
        r == channel_of(regs@, i as int),
{
    let lo = regs[i * 2];
    let hi = regs[i * 2 + 1];
    let amp = regs[8 + i];
    let mixer = regs[7];
    let period: u32 = ((hi as u32 & 0x0f) << 8) | lo as u32;
    assert(((hi as u32 & 0x0f) << 8) | lo as u32 == (hi % 16) * 256 + lo) by (bit_vector);
    let envelope = amp & 0x10 != 0;
    assert((amp & 0x10 != 0) == ((amp / 16) % 2 == 1)) by (bit_vector);
    let volume = amp & 0x0f;
    assert(amp & 0x0f == amp % 16) by (bit_vector);
    let shift: u8 = i as u8;
    let tone = mixer & (1u8 << shift) == 0;
    let noise = mixer & (8u8 << shift) == 0;
    proof {
        reveal_with_fuel(pow2, 6);
        if i == 0 {
            assert((mixer & (1u8 << 0u8) == 0) == ((mixer / 1) % 2 == 0)) by (bit_vector);
            assert((mixer & (8u8 << 0u8) == 0) == ((mixer / 8) % 2 == 0)) by (bit_vector);
        } else if i == 1 {
            assert((mixer & (1u8 << 1u8) == 0) == ((mixer / 2) % 2 == 0)) by (bit_vector);
            assert((mixer & (8u8 << 1u8) == 0) == ((mixer / 16) % 2 == 0)) by (bit_vector);
        } else {
            assert((mixer & (1u8 << 2u8) == 0) == ((mixer / 4) % 2 == 0)) by (bit_vector);
            assert((mixer & (8u8 << 2u8) == 0) == ((mixer / 32) % 2 == 0)) by (bit_vector);
        }
    }
    Channel { period, envelope, volume, tone, noise }
}

/// The channel's first column: its name, then whether tone and noise are
/// let through.
pub open spec fn channel_text(name: Seq<char>, c: Channel) -> Seq<char> {
    name + seq![' '] + (if c.tone {
        "tone"@
    } else {
        "----"@
    }) + seq![' '] + (if c.noise {
        "noise"@
    } else {
        "-----"@
    })
}

pub fn channel_line(name: &str, c: Channel) -> (r: String)
    ensures
        r@ == channel_text(name@, c),
{
    let mut s = String::new();
    push_str(&mut s, name);
    push_char(&mut s, ' ');
    if c.tone {
        push_str(&mut s, "tone");
    } else {
        push_str(&mut s, "----");
    }
    push_char(&mut s, ' ');
    if c.noise {
        push_str(&mut s, "noise");
    } else {
        push_str(&mut s, "-----");
    }
    assert(s@ =~= channel_text(name@, c));
    s
}

/// The channel's volume: `env` where the envelope drives it.
pub open spec fn volume_text(c: Channel) -> Seq<char> {
    if c.envelope {
        "env"@
    } else {
        decimal(c.volume as nat)
    }
}

pub fn volume_line(c: Channel) -> (r: String)
    ensures
        r@ == volume_text(c),
{
    let mut s = String::new();
    if c.envelope {
        push_str(&mut s, "env");
    } else {
        push_decimal(&mut s, c.volume as u64);
    }
    assert(s@ =~= volume_text(c));
    s
}

/// The raw registers, sixteen bytes in hexadecimal after `R0-15`.
pub open spec fn registers_text(regs: Seq<u8>) -> Seq<char> {
    "R0-15  "@ + hex_run(regs, regs.len() as int)
}

pub fn registers_line(regs: &Vec<u8>) -> (r: String)
    ensures
        r@ == registers_text(regs@),
{
    let mut s = String::new();
    push_str(&mut s, "R0-15  ");
    let hex = bytes_text(regs);
    push_str(&mut s, hex.as_str());
    assert(s@ =~= registers_text(regs@));
    s
}

/// The line about the noise and the envelope: the noise period is the
/// bottom five bits of register 6, the envelope's period registers 11 and
/// 12, and its shape the bottom four bits of register 13.
pub open spec fn envelope_text(regs: Seq<u8>) -> Seq<char> {
    "noise period "@ + pad_left(decimal(regs[6] as nat % 32), 2) + "   envelope period "@
        + pad_left(decimal(regs[12] as nat * 256 + regs[11] as nat), 5) + " shape $"@ + seq![
        hex_char(regs[13] as nat % 16),
    ]
}

pub fn envelope_line(regs: &Vec<u8>) -> (r: String)
    requires
        regs.len() == 16,
    ensures
        r@ == envelope_text(regs@),
{
    let r6 = regs[6];
    let r11 = regs[11];
    let r12 = regs[12];
    let r13 = regs[13];
    let noise: u8 = r6 & 0x1f;
    assert(r6 & 0x1f == r6 % 32) by (bit_vector);
    let env: u32 = ((r12 as u32) << 8) | r11 as u32;
    assert(((r12 as u32) << 8) | r11 as u32 == r12 * 256 + r11) by (bit_vector);
    let shape: u8 = r13 & 0x0f;
    assert(r13 & 0x0f == r13 % 16) by (bit_vector);
    let mut s = String::new();
    push_str(&mut s, "noise period ");
    let n = decimal_chars(noise as u64);
    push_right_aligned(&mut s, &n, 2);
    push_str(&mut s, "   envelope period ");
    let e = decimal_chars(env as u64);
    push_right_aligned(&mut s, &e, 5);
    push_str(&mut s, " shape $");
    push_hex1(&mut s, shape);
    assert(s@ =~= envelope_text(regs@));
    s
}

// ---------------------------------------------------------------------------
// Stepping
// ---------------------------------------------------------------------------

/// How a step ended, for the status line.
#[derive(Clone, Copy, Debug, PartialEq, Eq, Structural)]
pub enum Stepped {
    /// One instruction, to here.
    Into(u16),
    /// Over a call, to here.
    Over(u16),
    /// A breakpoint inside the call stopped it first.
    Inside(u16),
    /// The call did not come back within two hundred frames.
    GaveUp,
    /// Out of the routine, to here.
    Out(u16),
}

pub open spec fn stepped_text(s: Stepped) -> Seq<char> {
    match s {
        Stepped::Into(pc) => "Stepped to $"@ + hex4(pc),
        Stepped::Over(pc) => "Stepped over to $"@ + hex4(pc),
        Stepped::Inside(pc) => "Breakpoint at $"@ + hex4(pc) + " inside the call"@,
        Stepped::GaveUp => "Step over gave up after 200 frames"@,
        Stepped::Out(pc) => "Returned to $"@ + hex4(pc),
    }
}

/// What the status line says after a step.
pub fn stepped_status(step: Stepped) -> (r: String)
    ensures
        r@ == stepped_text(step),
{
    let mut s = String::new();
    match step {
        Stepped::Into(pc) => {
            push_str(&mut s, "Stepped to $");
            push_hex4(&mut s, pc);
        },
        Stepped::Over(pc) => {
            push_str(&mut s, "Stepped over to $");
            push_hex4(&mut s, pc);
        },
        Stepped::Inside(pc) => {
            push_str(&mut s, "Breakpoint at $");
            push_hex4(&mut s, pc);
            push_str(&mut s, " inside the call");
        },
        Stepped::GaveUp => {
            push_str(&mut s, "Step over gave up after 200 frames");
        },
        Stepped::Out(pc) => {
            push_str(&mut s, "Returned to $");
            push_hex4(&mut s, pc);
        },
    }
    assert(s@ =~= stepped_text(step));
    s
}

/// A channel's tone period is made of its own two registers and nothing
/// else: the fine one is its low byte and the coarse one's bottom four bits
/// are the rest. Register files that agree on those two give the same period
/// whatever else they hold, and ones that differ in either give different
/// periods.
pub proof fn period_is_its_own_registers(regs: Seq<u8>, other: Seq<u8>, i: int)
    requires
        regs.len() == 16,
        other.len() == 16,
        0 <= i < 3,
    ensures
        channel_of(regs, i).period < 4096,
        channel_of(regs, i).period % 256 == regs[2 * i],
        channel_of(regs, i).period / 256 == regs[2 * i + 1] % 16,
        (other[2 * i] == regs[2 * i] && other[2 * i + 1] % 16 == regs[2 * i + 1] % 16)
            <==> channel_of(other, i).period == channel_of(regs, i).period,
{
    let fine = regs[2 * i] as int;
    let coarse = (regs[2 * i + 1] % 16) as int;
    let fine2 = other[2 * i] as int;
    let coarse2 = (other[2 * i + 1] % 16) as int;
    assert(i * 2 == 2 * i);
    assert(0 <= coarse * 256 + fine < 4096) by (nonlinear_arith)
        requires
            0 <= coarse < 16,
            0 <= fine < 256,
    ;
    assert(0 <= coarse2 * 256 + fine2 < 4096) by (nonlinear_arith)
        requires
            0 <= coarse2 < 16,
            0 <= fine2 < 256,
    ;
    assert((coarse * 256 + fine) % 256 == fine && (coarse * 256 + fine) / 256 == coarse) by (nonlinear_arith)
        requires
            0 <= coarse < 16,
            0 <= fine < 256,
    ;
    assert((coarse2 * 256 + fine2) % 256 == fine2 && (coarse2 * 256 + fine2) / 256 == coarse2) by (nonlinear_arith)
        requires
            0 <= coarse2 < 16,
            0 <= fine2 < 256,
    ;
}

/// The rest of a channel is read from its own amplitude register and the
/// shared mixer, and from nothing else: the amplitude register's bottom
/// four bits are the volume and the next one says whether the envelope
/// drives it; a mixer with its six channel bits all set lets nothing
/// through, and one with them all clear lets every tone and noise through.
pub proof fn channel_reads_its_own_registers(regs: Seq<u8>, other: Seq<u8>, i: int)
    requires
        regs.len() == 16,
        other.len() == 16,
        0 <= i < 3,
    ensures
        other[8 + i] == regs[8 + i] ==> channel_of(other, i).volume == channel_of(regs, i).volume
            && channel_of(other, i).envelope == channel_of(regs, i).envelope,
        other[7] == regs[7] ==> channel_of(other, i).tone == channel_of(regs, i).tone
            && channel_of(other, i).noise == channel_of(regs, i).noise,
        channel_of(regs, i).volume < 16,
        channel_of(regs, i).volume + (if channel_of(regs, i).envelope {
            16int
        } else {
            0
        }) == regs[8 + i] % 32,
        regs[7] % 64 == 63 ==> !channel_of(regs, i).tone && !channel_of(regs, i).noise,
        regs[7] % 64 == 0 ==> channel_of(regs, i).tone && channel_of(regs, i).noise,
{
    reveal_with_fuel(pow2, 6);
    let m = regs[7] as int;
    if i == 0 {
        assert(pow2(0) == 1 && pow2(3) == 8);
        assert(m % 64 == 63 ==> (m / 1) % 2 == 1 && (m / 8) % 2 == 1) by (nonlinear_arith)
            requires
                0 <= m < 256,
        ;
        assert(m % 64 == 0 ==> (m / 1) % 2 == 0 && (m / 8) % 2 == 0) by (nonlinear_arith)
            requires
                0 <= m < 256,
        ;
    } else if i == 1 {
        assert(pow2(1) == 2 && pow2(4) == 16);
        assert(m % 64 == 63 ==> (m / 2) % 2 == 1 && (m / 16) % 2 == 1) by (nonlinear_arith)
            requires
                0 <= m < 256,
        ;
        assert(m % 64 == 0 ==> (m / 2) % 2 == 0 && (m / 16) % 2 == 0) by (nonlinear_arith)
            requires
                0 <= m < 256,
        ;
    } else {
        assert(pow2(2) == 4 && pow2(5) == 32);
        assert(m % 64 == 63 ==> (m / 4) % 2 == 1 && (m / 32) % 2 == 1) by (nonlinear_arith)
            requires
                0 <= m < 256,
        ;
        assert(m % 64 == 0 ==> (m / 4) % 2 == 0 && (m / 32) % 2 == 0) by (nonlinear_arith)
            requires
                0 <= m < 256,
        ;
    }
}

/// Each of the mixer's six channel bits governs one thing: with only bit `j`
/// clear, channel `i`'s tone goes through exactly when `j` is `i`, and its
/// noise exactly when `j` is `i + 3`.
pub proof fn mixer_bits_are_one_each(regs: Seq<u8>, i: int, j: int)
    requires
        regs.len() == 16,
        0 <= i < 3,
        0 <= j < 6,
        regs[7] % 64 == 63 - pow2(j),
    ensures
        channel_of(regs, i).tone <==> j == i,
        channel_of(regs, i).noise <==> j == i + 3,
{
    reveal_with_fuel(pow2, 7);
    let m = regs[7] as int;
    if i == 0 && j == 0 {
        assert(pow2(0) == 1 && pow2(3) == 8 && pow2(0) == 1);
        assert(m % 64 == 62 ==> (m / 1) % 2 == 0 && (m / 8) % 2 == 1) by (nonlinear_arith)
            requires
                0 <= m < 256,
        ;
    } else if i == 0 && j == 1 {
        assert(pow2(0) == 1 && pow2(3) == 8 && pow2(1) == 2);
        assert(m % 64 == 61 ==> (m / 1) % 2 == 1 && (m / 8) % 2 == 1) by (nonlinear_arith)
            requires
                0 <= m < 256,
        ;
    } else if i == 0 && j == 2 {
        assert(pow2(0) == 1 && pow2(3) == 8 && pow2(2) == 4);
        assert(m % 64 == 59 ==> (m / 1) % 2 == 1 && (m / 8) % 2 == 1) by (nonlinear_arith)
            requires
                0 <= m < 256,
        ;
    } else if i == 0 && j == 3 {
        assert(pow2(0) == 1 && pow2(3) == 8 && pow2(3) == 8);
        assert(m % 64 == 55 ==> (m / 1) % 2 == 1 && (m / 8) % 2 == 0) by (nonlinear_arith)
            requires
                0 <= m < 256,
        ;
    } else if i == 0 && j == 4 {
        assert(pow2(0) == 1 && pow2(3) == 8 && pow2(4) == 16);
        assert(m % 64 == 47 ==> (m / 1) % 2 == 1 && (m / 8) % 2 == 1) by (nonlinear_arith)
            requires
                0 <= m < 256,
        ;
    } else if i == 0 && j == 5 {
        assert(pow2(0) == 1 && pow2(3) == 8 && pow2(5) == 32);
        assert(m % 64 == 31 ==> (m / 1) % 2 == 1 && (m / 8) % 2 == 1) by (nonlinear_arith)
            requires
                0 <= m < 256,
        ;
    } else if i == 1 && j == 0 {
        assert(pow2(1) == 2 && pow2(4) == 16 && pow2(0) == 1);
        assert(m % 64 == 62 ==> (m / 2) % 2 == 1 && (m / 16) % 2 == 1) by (nonlinear_arith)
            requires
                0 <= m < 256,
        ;
    } else if i == 1 && j == 1 {
        assert(pow2(1) == 2 && pow2(4) == 16 && pow2(1) == 2);
        assert(m % 64 == 61 ==> (m / 2) % 2 == 0 && (m / 16) % 2 == 1) by (nonlinear_arith)
            requires
                0 <= m < 256,
        ;
    } else if i == 1 && j == 2 {
        assert(pow2(1) == 2 && pow2(4) == 16 && pow2(2) == 4);
        assert(m % 64 == 59 ==> (m / 2) % 2 == 1 && (m / 16) % 2 == 1) by (nonlinear_arith)
            requires
                0 <= m < 256,
        ;
    } else if i == 1 && j == 3 {
        assert(pow2(1) == 2 && pow2(4) == 16 && pow2(3) == 8);
        assert(m % 64 == 55 ==> (m / 2) % 2 == 1 && (m / 16) % 2 == 1) by (nonlinear_arith)
            requires
                0 <= m < 256,
        ;
    } else if i == 1 && j == 4 {
        assert(pow2(1) == 2 && pow2(4) == 16 && pow2(4) == 16);
        assert(m % 64 == 47 ==> (m / 2) % 2 == 1 && (m / 16) % 2 == 0) by (nonlinear_arith)
            requires
                0 <= m < 256,
        ;
    } else if i == 1 && j == 5 {
        assert(pow2(1) == 2 && pow2(4) == 16 && pow2(5) == 32);
        assert(m % 64 == 31 ==> (m / 2) % 2 == 1 && (m / 16) % 2 == 1) by (nonlinear_arith)
            requires
                0 <= m < 256,
        ;
    } else if i == 2 && j == 0 {
        assert(pow2(2) == 4 && pow2(5) == 32 && pow2(0) == 1);
        assert(m % 64 == 62 ==> (m / 4) % 2 == 1 && (m / 32) % 2 == 1) by (nonlinear_arith)
            requires
                0 <= m < 256,
        ;
    } else if i == 2 && j == 1 {
        assert(pow2(2) == 4 && pow2(5) == 32 && pow2(1) == 2);
        assert(m % 64 == 61 ==> (m / 4) % 2 == 1 && (m / 32) % 2 == 1) by (nonlinear_arith)
            requires
                0 <= m < 256,
        ;
    } else if i == 2 && j == 2 {
        assert(pow2(2) == 4 && pow2(5) == 32 && pow2(2) == 4);
        assert(m % 64 == 59 ==> (m / 4) % 2 == 0 && (m / 32) % 2 == 1) by (nonlinear_arith)
            requires
                0 <= m < 256,
        ;
    } else if i == 2 && j == 3 {
        assert(pow2(2) == 4 && pow2(5) == 32 && pow2(3) == 8);
        assert(m % 64 == 55 ==> (m / 4) % 2 == 1 && (m / 32) % 2 == 1) by (nonlinear_arith)
            requires
                0 <= m < 256,
        ;
    } else if i == 2 && j == 4 {
        assert(pow2(2) == 4 && pow2(5) == 32 && pow2(4) == 16);
        assert(m % 64 == 47 ==> (m / 4) % 2 == 1 && (m / 32) % 2 == 1) by (nonlinear_arith)
            requires
                0 <= m < 256,
        ;
    } else if i == 2 && j == 5 {
        assert(pow2(2) == 4 && pow2(5) == 32 && pow2(5) == 32);
        assert(m % 64 == 31 ==> (m / 4) % 2 == 1 && (m / 32) % 2 == 0) by (nonlinear_arith)
            requires
                0 <= m < 256,
        ;
    }
}

} // verus!
