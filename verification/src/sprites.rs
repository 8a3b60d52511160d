//! Memory read as graphics.
//!
//! A graphic on this machine is nothing but bytes: eight to a character cell,
//! most significant bit on the left. What nobody can tell from the bytes is
//! how wide it is meant to be, nor whether it is kept in cells — eight bytes
//! a character, cells one after another — or in rows — each row of pixels as
//! many bytes as the sprite is wide. A format may also keep a mask, an
//! attribute or padding after each row, which is stepped over.
//!
//! Addresses wrap round the 64K the processor sees.
use vstd::prelude::*;
use vstd::arithmetic::div_mod::{lemma_add_mod_noop, lemma_add_mod_noop_right, lemma_mul_mod_noop_right};
use crate::text::{decimal, hex4, push_decimal, push_hex4, push_str};

verus! {

/// How a graphic's bytes are laid out.
#[derive(Clone, Copy, PartialEq, Eq, Structural, Debug)]
pub enum Layout {
    /// Eight bytes a character cell, cells one after another.
    Cells,
    /// A row of pixels at a time, as many bytes as the graphic is wide.
    Rows,
}

/// How the memory is being read as pictures.
pub struct SpriteView {
    pub layout: Layout,
    /// Draw each byte the other way round, for a sprite kept facing left.
    pub mirrored: bool,
    /// Where the sheet starts.
    pub addr: u16,
    /// The address box, so it can be typed into without jumping about.
    pub addr_text: String,
    /// How many character cells wide one sprite is.
    pub cells_across: usize,
    /// And how many down.
    pub cells_down: usize,
    /// How many sprites to show side by side.
    pub columns: usize,
    /// Bytes to step over after each row of cells within one graphic.
    pub skip_after_row: u16,
    /// Draw the pixels that are clear rather than those that are set.
    pub inverted: bool,
    /// Set when something sends the viewer somewhere, so the window is
    /// brought forward.
    pub raise: bool,
    /// How long the block it was sent to is, when it was sent to one.
    pub block_length: Option<u16>,
}

/// What the graphics search found: where, how far apart its rows are, and
/// which way round it reads.
#[derive(Clone, Copy, Debug)]
pub struct Found {
    pub addr: u16,
    pub pitch: u16,
    pub mirrored: bool,
    pub inverted: bool,
}

/// A value brought into the 64K, as a cast to `u16` does.
pub open spec fn wrap(n: int) -> int {
    n % 65536
}

/// Bytes in one row of cells, before whatever is skipped after it.
pub open spec fn row_bytes_of(v: &SpriteView) -> int {
    wrap(v.cells_across * 8)
}

/// How far apart two rows are, for a graphic laid out `layout`, `across`
/// cells wide, with `skip` bytes stepped over after each row: a row of cells
/// in the one layout, a row of pixels in the other.
pub open spec fn shape_pitch(layout: Layout, across: int, skip: int) -> int {
    match layout {
        Layout::Cells => wrap(across * 8) + skip,
        Layout::Rows => wrap(across) + skip,
    }
}

/// How many rows of that pitch a graphic `down` cells tall has.
pub open spec fn shape_rows(layout: Layout, down: int) -> int {
    match layout {
        Layout::Cells => wrap(down),
        Layout::Rows => wrap(down * 8),
    }
}

/// Bytes in one graphic of that shape, the skipped ones included.
pub open spec fn shape_stride(layout: Layout, across: int, down: int, skip: int) -> int {
    shape_pitch(layout, across, skip) * shape_rows(layout, down)
}

/// A shape the viewer can work out without overflow.
pub open spec fn shape_fits(layout: Layout, across: int, down: int, skip: int) -> bool {
    &&& (layout == Layout::Cells ==> across * 8 <= usize::MAX)
    &&& (layout == Layout::Rows ==> down * 8 <= usize::MAX)
    &&& shape_pitch(layout, across, skip) <= u16::MAX
    &&& shape_stride(layout, across, down, skip) <= u16::MAX
}

/// How far apart two rows of the view's graphics are.
pub open spec fn pitch_of(v: &SpriteView) -> int {
    shape_pitch(v.layout, v.cells_across as int, v.skip_after_row as int)
}

/// How many rows of that pitch one graphic has.
pub open spec fn rows_of(v: &SpriteView) -> int {
    shape_rows(v.layout, v.cells_down as int)
}

/// Bytes in one graphic, the skipped ones included.
pub open spec fn stride_of(v: &SpriteView) -> int {
    pitch_of(v) * rows_of(v)
}

/// The sizes fit the arithmetic the viewer does on them without overflow.
pub open spec fn sizes_fit(v: &SpriteView) -> bool {
    shape_fits(v.layout, v.cells_across as int, v.cells_down as int, v.skip_after_row as int)
}

/// Where one pixel row of one cell lives, counting from `at`.
pub open spec fn byte_at(v: &SpriteView, at: u16, cell_y: int, cell_x: int, row: int) -> int {
    match v.layout {
        Layout::Cells => wrap(at + pitch_of(v) * cell_y + cell_x * 8 + row),
        Layout::Rows => wrap(at + pitch_of(v) * (cell_y * 8 + row) + cell_x),
    }
}

/// The place of a pixel row is within reach of the arithmetic.
pub open spec fn place_fits(v: &SpriteView, cell_y: int, cell_x: int, row: int) -> bool {
    &&& pitch_of(v) <= u16::MAX
    &&& (v.layout == Layout::Cells ==> v.cells_across * 8 <= usize::MAX && cell_x * 8 + row
        <= usize::MAX)
    &&& (v.layout == Layout::Rows ==> cell_y * 8 + row <= usize::MAX)
}

proof fn lemma_wrapping_add(x: u16, y: u16)
    ensures
        vstd::wrapping::u16_specs::wrapping_add(x, y) == wrap(x + y),
{
}

proof fn lemma_wrapping_mul(x: u16, y: u16)
    ensures
        vstd::wrapping::u16_specs::wrapping_mul(x, y) == wrap(x * y),
{
}

/// `(at + p * (n % M)) % M == (at + p * n) % M` for the 64K.
proof fn lemma_step(at: int, p: int, n: int)
    ensures
        wrap(at + wrap(p * wrap(n))) == wrap(at + p * n),
{
    lemma_mul_mod_noop_right(p, n, 65536);
    lemma_add_mod_noop_right(at, p * wrap(n), 65536);
    lemma_add_mod_noop_right(at, p * n, 65536);
}

/// `((a % M) + (b % M)) % M == (a + b) % M` for the 64K.
proof fn lemma_sum(a: int, b: int)
    ensures
        wrap(wrap(a) + wrap(b)) == wrap(a + b),
{
    lemma_add_mod_noop(a, b, 65536);
}

impl Default for SpriteView {
    fn default() -> (v: SpriteView)
        ensures
            v.layout == Layout::Cells,
            !v.mirrored,
            v.addr == 0x8000,
            v.addr_text@ == "8000"@,
            v.cells_across == 2,
            v.cells_down == 2,
            v.columns == 8,
            v.skip_after_row == 0,
            !v.inverted,
            !v.raise,
            v.block_length is None,
    {
        SpriteView {
            layout: Layout::Cells,
            mirrored: false,
            addr: 0x8000,
            addr_text: "8000".to_owned(),
            cells_across: 2,
            cells_down: 2,
            columns: 8,
            skip_after_row: 0,
            inverted: false,
            raise: false,
            block_length: None,
        }
    }
}

impl SpriteView {
    /// Bytes in one graphic, the skipped ones included: the next graphic
    /// starts after the padding of the last row, not before it.
    pub fn stride(&self) -> (r: u16)
        requires
            sizes_fit(self),
        ensures
            r == stride_of(self),
    {
        match self.layout {
            Layout::Cells => {
                let across: u16 = ((self.cells_across * 8) % 65536) as u16;
                let down: u16 = (self.cells_down % 65536) as u16;
                (across + self.skip_after_row) * down
            },
            Layout::Rows => {
                let across: u16 = (self.cells_across % 65536) as u16;
                let down: u16 = ((self.cells_down * 8) % 65536) as u16;
                (across + self.skip_after_row) * down
            },
        }
    }

    /// Bytes in one row of cells, before whatever is skipped after it.
    pub fn row_bytes(&self) -> (r: u16)
        requires
            self.cells_across * 8 <= usize::MAX,
        ensures
            r == row_bytes_of(self),
    {
        ((self.cells_across * 8) % 65536) as u16
    }

    /// Where one pixel row of one cell lives, counting from the start of a
    /// graphic at `at`. Cells are stored one after another within a row of
    /// them, eight bytes each; in rows, a row of pixels is a byte for each
    /// cell across. Whatever the format keeps between rows is stepped over.
    pub fn byte_of(&self, at: u16, cell_y: usize, cell_x: usize, row: usize) -> (r: u16)
        requires
            place_fits(self, cell_y as int, cell_x as int, row as int),
        ensures
            r == byte_at(self, at, cell_y as int, cell_x as int, row as int),
    {
        match self.layout {
            Layout::Cells => {
                let pitch: u16 = self.row_bytes() + self.skip_after_row;
                let rows: u16 = (cell_y % 65536) as u16;
                let offset: u16 = pitch.wrapping_mul(rows);
                let row_start: u16 = at.wrapping_add(offset);
                let within: u16 = ((cell_x * 8 + row) % 65536) as u16;
                let r = row_start.wrapping_add(within);
                proof {
                    lemma_wrapping_mul(pitch, rows);
                    lemma_wrapping_add(at, offset);
                    lemma_wrapping_add(row_start, within);
                    lemma_step(at as int, pitch as int, cell_y as int);
                    lemma_sum(at + pitch * cell_y, cell_x * 8 + row);
                    assert(wrap(wrap(at + pitch * cell_y)) == wrap(at + pitch * cell_y));
                    assert(at + pitch * cell_y + (cell_x * 8 + row) == at + pitch * cell_y
                        + cell_x * 8 + row);
                }
                r
            },
            Layout::Rows => {
                let pitch: u16 = ((self.cells_across % 65536) as u16) + self.skip_after_row;
                let rows: u16 = ((cell_y * 8 + row) % 65536) as u16;
                let offset: u16 = pitch.wrapping_mul(rows);
                let row_start: u16 = at.wrapping_add(offset);
                let across: u16 = (cell_x % 65536) as u16;
                let r = row_start.wrapping_add(across);
                proof {
                    lemma_wrapping_mul(pitch, rows);
                    lemma_wrapping_add(at, offset);
                    lemma_wrapping_add(row_start, across);
                    lemma_step(at as int, pitch as int, cell_y * 8 + row);
                    lemma_sum(at + pitch * (cell_y * 8 + row), cell_x as int);
                    assert(wrap(wrap(at + pitch * (cell_y * 8 + row))) == wrap(
                        at + pitch * (cell_y * 8 + row),
                    ));
                }
                r
            },
        }
    }

    /// Point the viewer at something the search found, laid out as it was
    /// found. A pitch of one byte is a character in cells; anything else is a
    /// sprite kept in rows that far apart, shown as wide as its rows are apart
    /// up to eight cells, with the rest of each row stepped over.
    pub fn show(&mut self, found: &Found)
        ensures
            final(self).addr == found.addr,
            final(self).addr_text@ == hex4(found.addr),
            final(self).mirrored == found.mirrored,
            final(self).inverted == found.inverted,
            final(self).block_length is None,
            final(self).raise,
            final(self).columns == old(self).columns,
            found.pitch == 1 ==> final(self).layout == Layout::Cells && final(self).cells_across
                == 1 && final(self).cells_down == 1 && final(self).skip_after_row == 0,
            found.pitch != 1 ==> final(self).layout == Layout::Rows && final(self).cells_across
                == (if found.pitch < 8 {
                found.pitch as usize
            } else {
                8
            }) && final(self).cells_down == 2 && final(self).skip_after_row == found.pitch
                - final(self).cells_across,
    {
        self.addr = found.addr;
        let mut text = String::new();
        push_hex4(&mut text, found.addr);
        assert(text@ =~= hex4(found.addr));
        self.addr_text = text;
        self.mirrored = found.mirrored;
        self.inverted = found.inverted;
        self.block_length = None;
        self.raise = true;
        if found.pitch == 1 {
            self.layout = Layout::Cells;
            self.cells_across = 1;
            self.cells_down = 1;
            self.skip_after_row = 0;
        } else {
            self.layout = Layout::Rows;
            let across: u16 = if found.pitch < 8 {
                found.pitch
            } else {
                8
            };
            self.cells_across = across as usize;
            self.cells_down = 2;
            self.skip_after_row = found.pitch - across;
        }
    }

    /// Read a block of memory as pictures: the viewer goes to it, comes
    /// forward, and starts with the largest square sprite of up to four cells
    /// that the block divides into, with enough across to show the whole
    /// block, between one and eight.
    pub fn show_block(&mut self, addr: u16, length: u16)
        requires
            shape_fits(
                old(self).layout,
                block_side(old(self), length).0 as int,
                block_side(old(self), length).1 as int,
                old(self).skip_after_row as int,
            ),
        ensures
            final(self).addr == addr,
            final(self).addr_text@ == hex4(addr),
            final(self).block_length == Some(length),
            final(self).raise,
            (final(self).cells_across, final(self).cells_down) == block_side(old(self), length),
            final(self).layout == old(self).layout,
            final(self).skip_after_row == old(self).skip_after_row,
            final(self).mirrored == old(self).mirrored,
            final(self).inverted == old(self).inverted,
            final(self).columns == clamp_columns(
                length as int / (if stride_of(final(self)) == 0 {
                    1
                } else {
                    stride_of(final(self))
                }),
            ),
    {
        self.addr = addr;
        let mut text = String::new();
        push_hex4(&mut text, addr);
        assert(text@ =~= hex4(addr));
        self.addr_text = text;
        self.block_length = Some(length);
        self.raise = true;
        let mut cells: usize = 4;
        let mut found: bool = false;
        while cells >= 1
            invariant
                cells <= 4,
                found ==> cells == 0,
                !found ==> none_larger(length, cells as int),
                found ==> block_cells(length) == Some(self.cells_across) && self.cells_across
                    == self.cells_down,
                !found ==> self.cells_across == old(self).cells_across && self.cells_down == old(
                    self,
                ).cells_down,
                self.layout == old(self).layout,
                self.skip_after_row == old(self).skip_after_row,
                self.mirrored == old(self).mirrored,
                self.inverted == old(self).inverted,
                self.addr == addr,
                self.addr_text@ == hex4(addr),
                self.block_length == Some(length),
                self.raise,
            decreases cells,
        {
            let stride: u16 = if cells == 4 {
                128
            } else if cells == 3 {
                72
            } else if cells == 2 {
                32
            } else {
                8
            };
            if length >= stride && length % stride == 0 {
                proof {
                    if cells == 4 {
                        assert(square_fits(length, 4));
                    } else if cells == 3 {
                        assert(square_fits(length, 3));
                    } else if cells == 2 {
                        assert(square_fits(length, 2));
                    } else {
                        assert(square_fits(length, 1));
                    }
                }
                self.cells_across = cells;
                self.cells_down = cells;
                found = true;
                cells = 0;
            } else {
                proof {
                    if cells == 4 {
                        assert(!square_fits(length, 4));
                    } else if cells == 3 {
                        assert(!square_fits(length, 3));
                    } else if cells == 2 {
                        assert(!square_fits(length, 2));
                    } else {
                        assert(!square_fits(length, 1));
                    }
                }
                cells = cells - 1;
            }
        }
        assert((self.cells_across, self.cells_down) == block_side(old(self), length));
        let stride = self.stride();
        let stride: u16 = if stride == 0 {
            1
        } else {
            stride
        };
        let sprites: usize = (length / stride) as usize;
        self.columns = if sprites < 1 {
            1
        } else if sprites > 8 {
            8
        } else {
            sprites
        };
    }

    /// Move the sheet `delta` bytes through memory, round the 64K, and show
    /// where it went in the address box.
    pub fn step(&mut self, delta: i32)
        requires
            i32::MIN <= old(self).addr + delta <= i32::MAX,
        ensures
            final(self).addr == (old(self).addr + delta) % 65536,
            final(self).addr_text@ == hex4(final(self).addr),
            final(self).layout == old(self).layout,
            final(self).cells_across == old(self).cells_across,
            final(self).cells_down == old(self).cells_down,
            final(self).skip_after_row == old(self).skip_after_row,
    {
        let sum: i32 = self.addr as i32 + delta;
        let m: i32 = sum % 65536;
        let wrapped: i32 = if m < 0 {
            m + 65536
        } else {
            m
        };
        assert(wrapped == sum % 65536);
        self.addr = wrapped as u16;
        let mut text = String::new();
        push_hex4(&mut text, self.addr);
        assert(text@ =~= hex4(self.addr));
        self.addr_text = text;
    }

    /// The line under the controls saying what is stepped over, when
    /// anything is.
    pub fn skip_note(&self) -> (r: Option<String>)
        requires
            sizes_fit(self),
            hidden_of(self) <= usize::MAX,
        ensures
            self.skip_after_row == 0 ==> r is None,
            self.skip_after_row != 0 ==> (r matches Some(s) && s@ == skip_text(self)),
    {
        if self.skip_after_row == 0 {
            return None;
        }
        let per_row: usize = match self.layout {
            Layout::Cells => 1,
            Layout::Rows => 8,
        };
        assert(self.skip_after_row * self.cells_down <= usize::MAX) by (nonlinear_arith)
            requires
                self.skip_after_row * self.cells_down * per_row <= usize::MAX,
                per_row >= 1,
        ;
        let hidden: usize = self.skip_after_row as usize * self.cells_down * per_row;
        let mut s = String::new();
        push_str(&mut s, "Stepping over ");
        push_decimal(&mut s, self.skip_after_row as u64);
        push_str(&mut s, " byte");
        if self.skip_after_row != 1 {
            push_str(&mut s, "s");
        }
        push_str(&mut s, " after each row of ");
        match self.layout {
            Layout::Cells => push_str(&mut s, "cells"),
            Layout::Rows => push_str(&mut s, "pixels"),
        }
        push_str(&mut s, ": ");
        push_decimal(&mut s, hidden as u64);
        push_str(&mut s, " of the ");
        push_decimal(&mut s, self.stride() as u64);
        push_str(&mut s, " bytes a graphic takes are not drawn.");
        assert(s@ =~= skip_text(self));
        Some(s)
    }

    /// The line saying how many bytes a graphic takes, and the sheet of
    /// `rows` rows of them on show.
    pub fn size_note(&self, rows: usize) -> (r: String)
        requires
            sizes_fit(self),
            stride_of(self) * self.columns <= usize::MAX,
            stride_of(self) * self.columns * rows <= usize::MAX,
        ensures
            r@ == size_text(self, rows as int),
    {
        let stride = self.stride();
        let sheet: usize = stride as usize * self.columns * rows;
        let mut s = String::new();
        push_decimal(&mut s, stride as u64);
        push_str(&mut s, " bytes a graphic, ");
        push_decimal(&mut s, sheet as u64);
        push_str(&mut s, " for the sheet on show");
        assert(s@ =~= size_text(self, rows as int));
        s
    }
}

/// The largest square sprite, up to four cells a side, that a block of
/// `length` bytes divides into exactly.
pub open spec fn block_cells(length: u16) -> Option<usize> {
    if length >= 128 && length % 128 == 0 {
        Some(4)
    } else if length >= 72 && length % 72 == 0 {
        Some(3)
    } else if length >= 32 && length % 32 == 0 {
        Some(2)
    } else if length >= 8 && length % 8 == 0 {
        Some(1)
    } else {
        None
    }
}

/// A block of `length` bytes is a whole number, at least one, of square
/// sprites `c` cells a side.
pub open spec fn square_fits(length: u16, c: int) -> bool {
    length >= c * c * 8 && (length as int) % (c * c * 8) == 0
}

/// No square sprite larger than `cells` a side, up to four, fits the block.
pub open spec fn none_larger(length: u16, cells: int) -> bool {
    &&& (cells < 4 ==> !square_fits(length, 4))
    &&& (cells < 3 ==> !square_fits(length, 3))
    &&& (cells < 2 ==> !square_fits(length, 2))
    &&& (cells < 1 ==> !square_fits(length, 1))
}

/// The sprite size a block is shown at: its largest square one, or the size
/// already set where it divides into none.
pub open spec fn block_side(v: &SpriteView, length: u16) -> (usize, usize) {
    match block_cells(length) {
        Some(c) => (c, c),
        None => (v.cells_across, v.cells_down),
    }
}

/// A number of sprites across the sheet, kept between one and eight.
pub open spec fn clamp_columns(n: int) -> usize {
    if n < 1 {
        1
    } else if n > 8 {
        8
    } else {
        n as usize
    }
}

/// How many bytes of a graphic are stepped over rather than drawn.
pub open spec fn hidden_of(v: &SpriteView) -> int {
    v.skip_after_row * v.cells_down * (match v.layout {
        Layout::Cells => 1int,
        Layout::Rows => 8int,
    })
}

/// What the line about stepped-over bytes says.
pub open spec fn skip_text(v: &SpriteView) -> Seq<char> {
    "Stepping over "@ + decimal(v.skip_after_row as nat) + " byte"@ + (if v.skip_after_row == 1 {
        Seq::<char>::empty()
    } else {
        "s"@
    }) + " after each row of "@ + (match v.layout {
        Layout::Cells => "cells"@,
        Layout::Rows => "pixels"@,
    }) + ": "@ + decimal(hidden_of(v) as nat) + " of the "@ + decimal(stride_of(v) as nat)
        + " bytes a graphic takes are not drawn."@
}

/// What the line about the size of a graphic and of the sheet says.
pub open spec fn size_text(v: &SpriteView, rows: int) -> Seq<char> {
    decimal(stride_of(v) as nat) + " bytes a graphic, "@ + decimal(
        (stride_of(v) * v.columns * rows) as nat,
    ) + " for the sheet on show"@
}

/// The next graphic starts where one more row of the last one would: a
/// graphic's stride is the place its `cells_down`th row of cells (or of
/// pixel rows, eight to a cell) would have, padding included.
pub proof fn next_graphic_follows(v: &SpriteView, at: u16)
    requires
        sizes_fit(v),
    ensures
        v.layout == Layout::Cells ==> byte_at(v, at, v.cells_down as int, 0, 0) == wrap(
            at + stride_of(v),
        ),
        v.layout == Layout::Rows ==> byte_at(v, at, v.cells_down as int, 0, 0) == wrap(
            at + stride_of(v),
        ),
{
    match v.layout {
        Layout::Cells => {
            lemma_step(at as int, pitch_of(v), v.cells_down as int);
            lemma_mul_mod_noop_right(pitch_of(v), v.cells_down as int, 65536);
            assert(wrap(at + stride_of(v)) == wrap(at + pitch_of(v) * v.cells_down)) by {
                lemma_add_mod_noop_right(at as int, pitch_of(v) * wrap(v.cells_down as int), 65536);
                lemma_add_mod_noop_right(at as int, pitch_of(v) * v.cells_down, 65536);
            }
        },
        Layout::Rows => {
            lemma_mul_mod_noop_right(pitch_of(v), v.cells_down * 8, 65536);
            assert(wrap(at + stride_of(v)) == wrap(at + pitch_of(v) * (v.cells_down * 8))) by {
                lemma_add_mod_noop_right(
                    at as int,
                    pitch_of(v) * wrap(v.cells_down * 8),
                    65536,
                );
                lemma_add_mod_noop_right(at as int, pitch_of(v) * (v.cells_down * 8), 65536);
            }
        },
    }
}

/// The start of each of the first `count` graphics of a sheet beginning at
/// `addr`, one stride apart round the 64K.
pub open spec fn sheet_start(addr: u16, stride: u16, k: int) -> int {
    wrap(addr + k * stride)
}

/// Where each of the first `count` graphics on the sheet starts.
pub fn sheet_starts(addr: u16, stride: u16, count: usize) -> (r: Vec<u16>)
    ensures
        r.len() == count,
        forall|k: int| 0 <= k < count ==> r[k] == sheet_start(addr, stride, k),
{
    let mut out: Vec<u16> = Vec::new();
    let mut at: u16 = addr;
    let mut k: usize = 0;
    while k < count
        invariant
            k <= count,
            out.len() == k,
            at == sheet_start(addr, stride, k as int),
            forall|j: int| 0 <= j < k ==> out[j] == sheet_start(addr, stride, j),
        decreases count - k,
    {
        out.push(at);
        let next = at.wrapping_add(stride);
        proof {
            lemma_wrapping_add(at, stride);
            lemma_add_mod_noop(addr + k * stride, stride as int, 65536);
            assert(wrap(stride as int) == stride);
            assert(wrap(wrap(addr + k * stride)) == wrap(addr + k * stride));
            assert(addr + k * stride + stride == addr + (k + 1) * stride) by (nonlinear_arith);
        }
        at = next;
        k = k + 1;
    }
    out
}

/// Whether the bit of `byte` that is pixel `bit` from the left is set: the
/// most significant bit is the leftmost, unless the graphic is mirrored.
pub open spec fn pixel_set(byte: u8, bit: u8, mirrored: bool) -> bool {
    if mirrored {
        (byte >> bit) & 1 == 1
    } else {
        (byte >> (7 - bit) as u8) & 1 == 1
    }
}

/// Whether pixel `bit` of a row is drawn: a set pixel, or a clear one when
/// the sheet is inverted.
pub fn pixel_lit(byte: u8, bit: u8, mirrored: bool, inverted: bool) -> (r: bool)
    requires
        bit < 8,
    ensures
        r == (pixel_set(byte, bit, mirrored) != inverted),
{
    let set = if mirrored {
        let mask: u8 = 1u8 << bit;
        assert((byte & (1u8 << bit) != 0) == ((byte >> bit) & 1 == 1)) by (bit_vector)
            requires
                bit < 8,
        ;
        byte & mask != 0
    } else {
        let mask: u8 = 0x80u8 >> bit;
        let other: u8 = 7 - bit;
        assert((byte & (0x80u8 >> bit) != 0) == ((byte >> other) & 1 == 1)) by (bit_vector)
            requires
                bit < 8,
                other == 7 - bit,
        ;
        byte & mask != 0
    };
    set != inverted
}

} // verus!
