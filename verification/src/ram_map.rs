//! The live map of memory: one pixel per byte, 256 to a row.
//!
//! Two views. The address space is the 64K the processor sees right now. All
//! memory lays out every RAM bank and ROM page the machine has, one under the
//! other, each 64 rows deep, so banks that are not paged in can be watched
//! too. What is here is how that second picture is laid out, what is under
//! the pointer in either view, and what the overlays say.
use vstd::prelude::*;
use crate::text::{decimal, hex4, push_char, push_decimal, push_hex4, push_str};

verus! {

/// Bytes in one RAM bank or ROM page.
pub const BANK_SIZE: usize = 16384;

/// Rows of 256 bytes in one 16K bank.
pub const ROWS_PER_BANK: usize = 64;

/// One block of the all-memory view: a RAM bank or a ROM page.
#[derive(Clone, Debug)]
pub struct Chunk {
    /// First index into the tracker's physical arrays.
    pub phys: usize,
    /// Row this chunk starts at in the image.
    pub row: usize,
    /// Which 16K slot it is paged into, if any.
    pub slot: Option<usize>,
    pub label: String,
    pub is_rom: bool,
    /// RAM bank number, or ROM page number.
    pub number: usize,
}

/// What the cursor is over.
#[derive(Clone, Debug)]
pub struct Hover {
    pub phys: usize,
    /// Address it answers to, if it is paged in at all.
    pub addr: Option<u16>,
    pub what: String,
    pub offset: u16,
}

/// A ROM page as the machine has it: where its bytes start in the tracker's
/// arrays, and which slot it is paged into, if any.
#[derive(Clone, Copy, Debug)]
pub struct Page {
    pub phys: usize,
    pub slot: Option<usize>,
}

/// A RAM bank as the machine has it: its number, where its bytes start in
/// the tracker's arrays, and which slot it is paged into, if any.
#[derive(Clone, Copy, Debug)]
pub struct Bank {
    pub number: usize,
    pub phys: usize,
    pub slot: Option<usize>,
}

/// A chunk is the one described: what is in it, and where it is drawn.
pub open spec fn chunk_is(
    c: Chunk,
    phys: usize,
    row: int,
    slot: Option<usize>,
    label: Seq<char>,
    is_rom: bool,
    number: usize,
) -> bool {
    &&& c.phys == phys
    &&& c.row == row
    &&& c.slot == slot
    &&& c.label@ == label
    &&& c.is_rom == is_rom
    &&& c.number == number
}

/// The `k`th chunk of the all-memory view: the ROM pages in order, then the
/// RAM banks, each a bank's depth below the one before.
pub open spec fn laid_out(roms: Seq<Page>, banks: Seq<Bank>, k: int, c: Chunk) -> bool {
    if k < roms.len() {
        chunk_is(
            c,
            roms[k].phys,
            k * ROWS_PER_BANK,
            roms[k].slot,
            "ROM"@ + decimal(k as nat),
            true,
            k as usize,
        )
    } else {
        let b = banks[k - roms.len()];
        chunk_is(c, b.phys, k * ROWS_PER_BANK, b.slot, "RAM"@ + decimal(b.number as nat), false, b.number)
    }
}

fn labelled(word: &str, n: usize) -> (r: String)
    ensures
        r@ == word@ + decimal(n as nat),
{
    let mut s = String::new();
    push_str(&mut s, word);
    push_decimal(&mut s, n as u64);
    assert(s@ =~= word@ + decimal(n as nat));
    s
}

/// The blocks making up the all-memory view, in the order they are drawn:
/// every ROM page, then every RAM bank the machine has.
pub fn lay_out(roms: &Vec<Page>, banks: &Vec<Bank>) -> (r: Vec<Chunk>)
    requires
        (roms.len() + banks.len()) * ROWS_PER_BANK <= usize::MAX,
    ensures
        r.len() == roms.len() + banks.len(),
        forall|k: int| 0 <= k < r.len() ==> laid_out(roms@, banks@, k, #[trigger] r[k]),
{
    let mut out: Vec<Chunk> = Vec::new();
    let mut row: usize = 0;
    let mut page: usize = 0;
    while page < roms.len()
        invariant
            page <= roms.len(),
            out.len() == page,
            row == page * ROWS_PER_BANK,
            (roms.len() + banks.len()) * ROWS_PER_BANK <= usize::MAX,
            forall|k: int| 0 <= k < out.len() ==> laid_out(roms@, banks@, k, #[trigger] out[k]),
        decreases roms.len() - page,
    {
        let p = roms[page];
        let c = Chunk {
            phys: p.phys,
            row,
            slot: p.slot,
            label: labelled("ROM", page),
            is_rom: true,
            number: page,
        };
        proof {
            reveal_strlit("ROM");
        }
        out.push(c);
        assert(laid_out(roms@, banks@, page as int, out[page as int]));
        row = row + ROWS_PER_BANK;
        page = page + 1;
    }
    let mut j: usize = 0;
    while j < banks.len()
        invariant
            j <= banks.len(),
            out.len() == roms.len() + j,
            row == (roms.len() + j) * ROWS_PER_BANK,
            (roms.len() + banks.len()) * ROWS_PER_BANK <= usize::MAX,
            forall|k: int| 0 <= k < out.len() ==> laid_out(roms@, banks@, k, #[trigger] out[k]),
        decreases banks.len() - j,
    {
        let b = banks[j];
        let c = Chunk {
            phys: b.phys,
            row,
            slot: b.slot,
            label: labelled("RAM", b.number),
            is_rom: false,
            number: b.number,
        };
        out.push(c);
        assert(laid_out(roms@, banks@, (roms.len() + j) as int, out[(roms.len() + j) as int]));
        row = row + ROWS_PER_BANK;
        j = j + 1;
    }
    out
}

/// The ZX81's two blocks: nothing is paged, so the ROM is always in the
/// first slot and the RAM in the second.
pub fn zx81_chunks(rom_phys: usize, ram_phys: usize) -> (r: Vec<Chunk>)
    ensures
        r.len() == 2,
        chunk_is(r[0], rom_phys, 0, Some(0usize), "ROM"@, true, 0),
        chunk_is(r[1], ram_phys, ROWS_PER_BANK as int, Some(1usize), "RAM"@, false, 0),
{
    let mut out: Vec<Chunk> = Vec::new();
    out.push(
        Chunk {
            phys: rom_phys,
            row: 0,
            slot: Some(0),
            label: "ROM".to_owned(),
            is_rom: true,
            number: 0,
        },
    );
    out.push(
        Chunk {
            phys: ram_phys,
            row: ROWS_PER_BANK,
            slot: Some(1),
            label: "RAM".to_owned(),
            is_rom: false,
            number: 0,
        },
    );
    out
}

/// How many rows the all-memory picture has: down to the end of the last
/// block, or a screenful where there are none.
pub fn image_rows(chunks: &Vec<Chunk>) -> (r: usize)
    requires
        chunks.len() > 0 ==> chunks[chunks.len() - 1].row + ROWS_PER_BANK <= usize::MAX,
    ensures
        chunks.len() == 0 ==> r == 256,
        chunks.len() > 0 ==> r == chunks[chunks.len() - 1].row + ROWS_PER_BANK,
{
    if chunks.len() == 0 {
        256
    } else {
        chunks[chunks.len() - 1].row + ROWS_PER_BANK
    }
}

/// The address a point of the address-space view stands for: 256 bytes to a
/// row, the rows below the last counted as the last.
pub open spec fn address_at(x: u16, y: usize) -> int {
    (if y < 255 {
        y as int
    } else {
        255
    }) * 256 + x
}

/// The address under a point of the address-space view.
pub fn hover_address(x: u16, y: usize) -> (r: u16)
    requires
        address_at(x, y) <= u16::MAX,
    ensures
        r == address_at(x, y),
{
    let row: u16 = if y < 255 {
        y as u16
    } else {
        255
    };
    row * 256 + x
}

/// Where an address sits within its 16K slot.
pub fn slot_offset(addr: u16) -> (r: u16)
    ensures
        r == addr % 16384,
{
    let r = addr & 0x3fff;
    assert(addr & 0x3fff == addr % 16384) by (bit_vector);
    r
}

/// The first chunk drawn across row `y`, counting from the `i`th.
pub open spec fn chunk_at_from(chunks: Seq<Chunk>, y: usize, i: nat) -> Option<int>
    decreases chunks.len() - i,
{
    if i >= chunks.len() {
        None
    } else if chunks[i as int].row <= y && y < chunks[i as int].row + ROWS_PER_BANK {
        Some(i as int)
    } else {
        chunk_at_from(chunks, y, i + 1)
    }
}

/// Where in its block a point of the all-memory view is.
pub open spec fn chunk_offset(c: Chunk, x: u16, y: usize) -> int {
    ((y - c.row) * 256 + x) % 65536
}

/// What a point of the all-memory view is over: the first block whose rows
/// take in `y`, the byte `x` along the row of it, and the address that byte
/// answers to if its block is paged in.
pub open spec fn hover_in_spec(chunks: Seq<Chunk>, x: u16, y: usize, h: Option<Hover>) -> bool {
    match chunk_at_from(chunks, y, 0) {
        None => h is None,
        Some(i) => {
            let c = chunks[i];
            let offset = chunk_offset(c, x, y);
            &&& h is Some
            &&& h->0.offset == offset
            &&& h->0.phys == c.phys + offset
            &&& h->0.what@ == c.label@
            &&& h->0.addr == (match c.slot {
                Some(s) => Some(((s % 4) * 16384 + offset % 16384) as u16),
                None => None,
            })
        },
    }
}

/// What is under a point of the all-memory view.
pub fn hover_in(chunks: &Vec<Chunk>, x: u16, y: usize) -> (r: Option<Hover>)
    requires
        forall|k: int|
            0 <= k < chunks.len() ==> #[trigger] chunks[k].row + ROWS_PER_BANK <= usize::MAX && (
            chunks[k].row <= y < chunks[k].row + ROWS_PER_BANK ==> chunks[k].phys + chunk_offset(
                chunks[k],
                x,
                y,
            ) <= usize::MAX),
    ensures
        hover_in_spec(chunks@, x, y, r),
{
    let mut i: usize = 0;
    while i < chunks.len()
        invariant
            i <= chunks.len(),
            forall|k: int|
                0 <= k < chunks.len() ==> #[trigger] chunks[k].row + ROWS_PER_BANK <= usize::MAX
                    && (chunks[k].row <= y < chunks[k].row + ROWS_PER_BANK ==> chunks[k].phys
                    + chunk_offset(chunks[k], x, y) <= usize::MAX),
            chunk_at_from(chunks@, y, 0) == chunk_at_from(chunks@, y, i as nat),
        decreases chunks.len() - i,
    {
        let c = &chunks[i];
        if c.row <= y && y < c.row + ROWS_PER_BANK {
            assert(chunk_at_from(chunks@, y, i as nat) == Some(i as int));
            let across: usize = (y - c.row) * 256 + x as usize;
            let offset: u16 = (across % 65536) as u16;
            let addr: Option<u16> = match c.slot {
                Some(s) => {
                    let high: u16 = ((s % 4) as u16) * 16384;
                    let low: u16 = slot_offset(offset);
                    Some(high + low)
                },
                None => None,
            };
            return Some(
                Hover { phys: c.phys + offset as usize, addr, what: c.label.clone(), offset },
            );
        }
        i = i + 1;
    }
    None
}

/// The part of a back buffer `len` bytes long at `start` that falls inside
/// the 16K slot `slot`, as offsets within the slot.
pub open spec fn buffer_within(start: u16, len: u16, slot: usize) -> Option<(u16, u16)> {
    let slot_start = (slot % 262144) * 16384;
    let slot_end = slot_start + 16384;
    let from = if start >= slot_start {
        start as int
    } else {
        slot_start
    };
    let to = if start + len <= slot_end {
        start + len
    } else {
        slot_end
    };
    if from >= to {
        None
    } else {
        Some(((from - slot_start) as u16, (to - slot_start) as u16))
    }
}

/// The part of a detected back buffer that falls inside a block paged into
/// `slot`, as offsets within the block; nothing for a block that is not
/// paged in.
pub fn back_buffer_in(start: u16, len: u16, slot: Option<usize>) -> (r: Option<(u16, u16)>)
    requires
        slot matches Some(s) ==> s % 262144 < 262143,
    ensures
        r == match slot {
            Some(s) => buffer_within(start, len, s),
            None => None,
        },
{
    let s = match slot {
        Some(s) => s,
        None => {
            return None;
        },
    };
    let base: u32 = ((s % 262144) as u32) * 16384;
    let slot_end: u32 = base + 16384;
    let from: u32 = if (start as u32) > base {
        start as u32
    } else {
        base
    };
    let reach: u32 = start as u32 + len as u32;
    let to: u32 = if reach < slot_end {
        reach
    } else {
        slot_end
    };
    if from >= to {
        return None;
    }
    Some(((from - base) as u16, (to - base) as u16))
}

/// How bright untouched memory is drawn in the all-memory view: ROM above
/// RAM, and a block that is paged in above one that is not.
pub open spec fn block_floor(is_rom: bool, paged: bool) -> u8 {
    if is_rom {
        if paged {
            26
        } else {
            16
        }
    } else if paged {
        14
    } else {
        6
    }
}

/// The floor brightness for a block of the all-memory view.
pub fn floor_of(is_rom: bool, paged: bool) -> (r: u8)
    ensures
        r == block_floor(is_rom, paged),
{
    match (is_rom, paged) {
        (true, true) => 26,
        (true, false) => 16,
        (false, true) => 14,
        (false, false) => 6,
    }
}

/// The floor brightness for a byte of the address-space view, which keeps
/// the ROM and RAM split visible.
pub fn address_floor(is_rom: bool) -> (r: u8)
    ensures
        r == (if is_rom {
            22u8
        } else {
            10u8
        }),
{
    if is_rom {
        22
    } else {
        10
    }
}

/// What is paged into a slot of the address space.
#[derive(Clone, Copy, Debug, PartialEq, Eq, Structural)]
pub enum Paged {
    Rom(usize),
    Ram(usize),
}

/// The overlay's name for slot `slot` of the address space: where it
/// starts, what is in it, and whether that is the bank the screen is shown
/// from.
pub open spec fn slot_name_text(slot: u16, paged: Paged, screen_bank: usize) -> Seq<char> {
    seq!['$'] + hex4((slot * 16384) as u16) + match paged {
        Paged::Rom(p) => "  ROM"@ + decimal(p as nat),
        Paged::Ram(b) => "  RAM"@ + decimal(b as nat) + (if b == screen_bank {
            "  (screen)"@
        } else {
            Seq::<char>::empty()
        }),
    }
}

/// The overlay's name for one of the four 16K slots.
pub fn slot_name(slot: u16, paged: Paged, screen_bank: usize) -> (r: String)
    requires
        slot < 4,
    ensures
        r@ == slot_name_text(slot, paged, screen_bank),
{
    let mut s = String::new();
    push_char(&mut s, '$');
    push_hex4(&mut s, slot * 16384);
    match paged {
        Paged::Rom(p) => {
            push_str(&mut s, "  ROM");
            push_decimal(&mut s, p as u64);
        },
        Paged::Ram(b) => {
            push_str(&mut s, "  RAM");
            push_decimal(&mut s, b as u64);
            if b == screen_bank {
                push_str(&mut s, "  (screen)");
            }
        },
    }
    assert(s@ =~= slot_name_text(slot, paged, screen_bank));
    s
}

/// Where a routine's entry point lives, to tell ROM from banked RAM: the
/// page or bank number only where the machine has more than one of them.
pub open spec fn where_text(paged: Paged, rom_pages_many: bool, has_paging: bool) -> Seq<char> {
    match paged {
        Paged::Rom(p) => if rom_pages_many {
            "ROM"@ + decimal(p as nat)
        } else {
            "ROM"@
        },
        Paged::Ram(b) => if has_paging {
            "RAM"@ + decimal(b as nat)
        } else {
            "RAM"@
        },
    }
}

pub fn where_label(paged: Paged, rom_pages_many: bool, has_paging: bool) -> (r: String)
    ensures
        r@ == where_text(paged, rom_pages_many, has_paging),
{
    let mut s = String::new();
    match paged {
        Paged::Rom(p) => {
            push_str(&mut s, "ROM");
            if rom_pages_many {
                push_decimal(&mut s, p as u64);
            }
        },
        Paged::Ram(b) => {
            push_str(&mut s, "RAM");
            if has_paging {
                push_decimal(&mut s, b as u64);
            }
        },
    }
    assert(s@ =~= where_text(paged, rom_pages_many, has_paging));
    s
}

/// The all-memory view is a stack of equal blocks: the `k`th starts
/// `k` banks' depth down, and every ROM page comes before every RAM bank.
pub proof fn chunks_stack_up(roms: Seq<Page>, banks: Seq<Bank>, chunks: Seq<Chunk>)
    requires
        chunks.len() == roms.len() + banks.len(),
        forall|k: int| 0 <= k < chunks.len() ==> laid_out(roms, banks, k, #[trigger] chunks[k]),
    ensures
        forall|k: int| 0 <= k < chunks.len() ==> #[trigger] chunks[k].row == k * ROWS_PER_BANK,
        forall|k: int| 0 <= k < chunks.len() ==> (#[trigger] chunks[k].is_rom <==> k < roms.len()),
        forall|i: int, j: int|
            0 <= i < chunks.len() && 0 <= j < chunks.len() && chunks[i].is_rom && !chunks[j].is_rom
                ==> i < j,
{
    assert forall|k: int| 0 <= k < chunks.len() implies #[trigger] chunks[k].row == k * ROWS_PER_BANK by {
        assert(laid_out(roms, banks, k, chunks[k]));
    }
    assert forall|k: int| 0 <= k < chunks.len() implies (#[trigger] chunks[k].is_rom <==> k < roms.len()) by {
        assert(laid_out(roms, banks, k, chunks[k]));
    }
    assert forall|i: int, j: int|
        0 <= i < chunks.len() && 0 <= j < chunks.len() && chunks[i].is_rom && !chunks[j].is_rom implies i < j by {
        assert(laid_out(roms, banks, i, chunks[i]));
        assert(laid_out(roms, banks, j, chunks[j]));
    }
}

} // verus!
