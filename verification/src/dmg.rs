//! The Game Boy system (DMG): CPU, memory and the LCD picture.

use vstd::prelude::*;
use crate::io::IO;
use crate::memory::{MemView, MemoryController};
use crate::rom::ROM;
use crate::semantics::sem_step;
use crate::sm83::{completes, ExecErr, Register, SM83};
use vstd::arithmetic::div_mod::lemma_fundamental_div_mod_converse;

verus! {

pub const RESOLUTION_X: usize = 160;
pub const RESOLUTION_Y: usize = 144;

const NUM_TILES_WIDTH: usize = 20;
const NUM_TILES_HEIGHT: usize = 18;
const TILE_DIM: usize = 8;
const TILE_WIDTH_BYTES: usize = 24;
const TILE_HEIGHT_BYTES: usize = 24;

/// Bytes of an RGB picture of the screen.
pub const FB_RGB_SIZE: usize = 69120;

/// The address of the LCD scanline register.
pub const LY_ADDR: u16 = 0xFF44;

/// The scanline at which the emulation stops, as V-Blank is not handled yet.
pub const VBLANK_START_LINE: u8 = 144;

/// Register 0xFF40 (LCD control) selects where the tile data starts.
pub open spec fn tile_data_start(m: MemView) -> int {
    if m.io[0x40] & 0x10 != 0 {
        0x8000
    } else {
        0x8800
    }
}

/// The tile number the tile map holds for the tile at column `tx`, row `ty`
/// of the screen (the map starts at 0x9800 and is read 20 tiles per row).
pub open spec fn tile_map_entry(m: MemView, tx: int, ty: int) -> u8 {
    m.vram[0x1800 + ty * 20 + tx]
}

/// Byte `second` (0 or 1) of row `row` of the tile shown at `tx`, `ty`.
pub open spec fn tile_row_byte(m: MemView, tx: int, ty: int, row: int, second: int) -> u8 {
    m.vram[tile_data_start(m) - 0x8000 + tile_map_entry(m, tx, ty) * 16 + 2 * row + second]
}

/// The 2-bit colour number of bit `bit` of a tile row: the first byte gives
/// the high bit, the second byte the low bit.
pub open spec fn pixel_bits(first: u8, second: u8, bit: u8) -> u8 {
    ((if first & (1u8 << bit) != 0 {
        2u8
    } else {
        0u8
    }) + (if second & (1u8 << bit) != 0 {
        1u8
    } else {
        0u8
    })) as u8
}

/// The colour number of the screen pixel in column `px`, line `py`.
pub open spec fn pixel_at(m: MemView, px: int, py: int) -> u8 {
    pixel_bits(
        tile_row_byte(m, px / 8, py / 8, py % 8, 0),
        tile_row_byte(m, px / 8, py / 8, py % 8, 1),
        (7 - px % 8) as u8,
    )
}

/// Component `k` (red, green, blue) of the colour for colour number `p`.
pub open spec fn palette(p: u8, k: int) -> u8 {
    if p == 0 {
        0xEA
    } else if p == 1 {
        if k == 0 { 0x91 } else if k == 1 { 0xCC } else { 0x78 }
    } else if p == 2 {
        if k == 0 { 0x51 } else if k == 1 { 0x8C } else { 0x52 }
    } else {
        if k == 0 { 0x1F } else if k == 1 { 0x60 } else { 0x18 }
    }
}

/// Position of component `k` of pixel `px`, `py` in an RGB picture.
pub open spec fn rgb_index(px: int, py: int, k: int) -> int {
    (py * 160 + px) * 3 + k
}

/// The pixel `px`, `py` of `fb` shows the colour the memory gives it.
pub open spec fn rendered(fb: Seq<u8>, m: MemView, px: int, py: int) -> bool {
    forall|k: int| 0 <= k < 3 ==> #[trigger] fb[rgb_index(px, py, k)] == palette(pixel_at(m, px, py), k)
}

/// Pixel `px`, `py` comes before position (`y`, `x`, `row`, `col`) in the
/// drawing order: tile line, tile column, row in the tile, column in the tile.
pub open spec fn drawn_before(px: int, py: int, y: int, x: int, row: int, col: int) -> bool {
    let ty = py / 8;
    let tx = px / 8;
    let r = py % 8;
    let c = px % 8;
    ty < y || (ty == y && (tx < x || (tx == x && (r < row || (r == row && c < col)))))
}

/// Writes the colour of colour number `p` to the three bytes at `dst`.
fn write_pixel(fb: &mut [u8], dst: usize, p: u8)
    requires
        dst + 3 <= old(fb)@.len(),
    ensures
        final(fb)@.len() == old(fb)@.len(),
        forall|k: int| 0 <= k < 3 ==> #[trigger] final(fb)@[dst + k] == palette(p, k),
        forall|j: int| 0 <= j < old(fb)@.len() && (j < dst || j >= dst + 3) ==> #[trigger] final(fb)@[j] == old(fb)@[j],
{
    if p == 0 {
        fb[dst + 0] = 0xEA;
        fb[dst + 1] = 0xEA;
        fb[dst + 2] = 0xEA;
    } else if p == 1 {
        fb[dst + 0] = 0x91;
        fb[dst + 1] = 0xCC;
        fb[dst + 2] = 0x78;
    } else if p == 2 {
        fb[dst + 0] = 0x51;
        fb[dst + 1] = 0x8C;
        fb[dst + 2] = 0x52;
    } else {
        fb[dst + 0] = 0x1F;
        fb[dst + 1] = 0x60;
        fb[dst + 2] = 0x18;
    }
}

/// The result of one emulation step: where the instruction stood and its
/// op code.
pub struct StepResult {
    pub pc: u16,
    pub op_code: u8,
}

pub struct DMG {
    pub sm83: SM83,
    pub mc: MemoryController,
}

impl DMG {
    /// Initialise a gameboy system (DMG): execution starts at 0x100
    /// with the stack at 0xFFFE.
    pub fn init(rom: ROM) -> (dmg: DMG)
        ensures
            !dmg.sm83.spec_halted(),
            dmg.sm83.reg == (Register { pc: 0x100, sp: 0xFFFE, ..Register::spec_zero() }),
            dmg.mc@ == (MemView {
                bank: 1,
                rom: Some(rom.buffer()),
                vram: Seq::new(8192, |i: int| 0u8),
                ram: Seq::new(8192, |i: int| 0u8),
                oam: Seq::new(256, |i: int| 0u8),
                io: Seq::new(255, |i: int| 0u8),
            }),
    {
        let mut sm83 = SM83::init();
        sm83.set_pc(0x100);
        sm83.reg.sp = 0xFFFE;
        let mc = MemoryController::new(IO::init(), rom);
        DMG { sm83, mc }
    }

    /// Runs one instruction. A halted CPU runs nothing and reports so.
    pub fn step(&mut self) -> (r: Result<StepResult, ExecErr>)
        requires
            !old(self).sm83.spec_halted() ==> !(sem_step(old(self).sm83.reg, old(self).mc@) is Panic),
        ensures
            old(self).sm83.spec_halted() ==> r == Err::<StepResult, ExecErr>(
                ExecErr::GeneralError("Halted"),
            ) && *final(self) == *old(self),
            !old(self).sm83.spec_halted() ==> completes(
                sem_step(old(self).sm83.reg, old(self).mc@),
                old(self).sm83,
                final(self).sm83,
                final(self).mc@,
                match r {
                    Ok(_) => Ok(()),
                    Err(e) => Err(e),
                },
            ),
            r matches Ok(s) ==> s.pc == old(self).sm83.reg.pc && old(self).mc@.read(s.pc) == Ok::<
                u8,
                ExecErr,
            >(s.op_code),
    {
        if self.sm83.halted() {
            return Err(ExecErr::GeneralError("Halted"));
        }
        let pc_before = self.sm83.pc();
        match self.sm83.execute(&mut self.mc) {
            Ok(op_code) => Ok(StepResult { pc: pc_before, op_code }),
            Err(e) => Err(e),
        }
    }

    /// Whether the next step would stop the emulator: the CPU is not halted
    /// and the instruction at the program counter runs past the address
    /// space or reads memory that cannot be read. `step` is defined
    /// exactly when this is false.
    pub fn step_panics(&self) -> (r: bool)
        ensures
            r == (!self.sm83.spec_halted() && sem_step(self.sm83.reg, self.mc@) is Panic),
    {
        !self.sm83.halted() && crate::fault::step_panics(&self.sm83.reg, &self.mc)
    }

    /// Stores the scanline the LCD is at. V-Blank is not emulated: the
    /// emulation stops when its first line is reached, so that line is not
    /// stored.
    pub fn update_scanline(&mut self, h_line: u8) -> (r: Result<(), ExecErr>)
        requires
            h_line != VBLANK_START_LINE,
        ensures
            r == Ok::<(), ExecErr>(()),
            final(self).mc@ == old(self).mc@.write(LY_ADDR, h_line),
            final(self).sm83 == old(self).sm83,
    {
        self.mc.write(LY_ADDR, h_line)
    }

    /// Write the current content of the video-ram to the suppplied
    /// framebuffer in RGB format: the 20 x 18 visible tiles of the tile map
    /// at 0x9800, three bytes per pixel, 160 pixels per line. The buffer must
    /// hold at least 20 x 18 x 64 x 3 bytes; the bytes after the picture are
    /// left alone.
    pub fn fb_rgb(&self, fb: &mut [u8]) -> (r: Result<(), ExecErr>)
        requires
            old(fb)@.len() >= FB_RGB_SIZE,
        ensures
            r == Ok::<(), ExecErr>(()),
            final(fb)@.len() == old(fb)@.len(),
            forall|px: int, py: int|
                0 <= px < 160 && 0 <= py < 144 ==> #[trigger] rendered(final(fb)@, self.mc@, px, py),
            forall|j: int| FB_RGB_SIZE <= j < old(fb)@.len() ==> #[trigger] final(fb)@[j] == old(fb)@[j],
    {
        proof {
            self.mc.lemma_wf();
        }
        let ghost m = self.mc@;
        let ghost fb0 = fb@;
        // 20x18 only visible, only render that
        let mut y: usize = 0;
        while y < NUM_TILES_HEIGHT
            invariant
                y <= 18,
                m == self.mc@,
                m.wf(),
                fb@.len() == fb0.len(),
                fb0.len() >= FB_RGB_SIZE,
                forall|j: int| FB_RGB_SIZE <= j < fb0.len() ==> #[trigger] fb@[j] == fb0[j],
                forall|px: int, py: int|
                    0 <= px < 160 && 0 <= py < 144 && drawn_before(px, py, y as int, 0, 0, 0)
                        ==> #[trigger] rendered(fb@, m, px, py),
            decreases 18 - y,
        {
            let mut x: usize = 0;
            while x < NUM_TILES_WIDTH
                invariant
                    y < 18,
                    x <= 20,
                    m == self.mc@,
                    m.wf(),
                    fb@.len() == fb0.len(),
                    fb0.len() >= FB_RGB_SIZE,
                    forall|j: int| FB_RGB_SIZE <= j < fb0.len() ==> #[trigger] fb@[j] == fb0[j],
                    forall|px: int, py: int|
                        0 <= px < 160 && 0 <= py < 144 && drawn_before(px, py, y as int, x as int, 0, 0)
                            ==> #[trigger] rendered(fb@, m, px, py),
                decreases 20 - x,
            {
                // upper left corner of tile
                let mut dst = (y * NUM_TILES_WIDTH * TILE_HEIGHT_BYTES * TILE_DIM) + (x * TILE_WIDTH_BYTES);
                let tile_map_addr = 0x9800 + y as u16 * NUM_TILES_WIDTH as u16 + x as u16;
                let tile_map_ix = match self.mc.read(tile_map_addr) {
                    Ok(v) => v,
                    Err(e) => return Err(e),
                } as u16;
                let tile_start = match self.tile_start_offset() {
                    Ok(v) => v,
                    Err(e) => return Err(e),
                } + tile_map_ix * 16;
                assert(tile_map_ix == tile_map_entry(m, x as int, y as int));
                let mut tile_i = tile_start;
                let mut tile_row: usize = 0;
                while tile_row < 8
                    invariant
                        y < 18,
                        x < 20,
                        tile_row <= 8,
                        m == self.mc@,
                        m.wf(),
                        fb@.len() == fb0.len(),
                        fb0.len() >= FB_RGB_SIZE,
                        dst == 3 * ((y * 8 + tile_row) * 160 + x * 8),
                        tile_start == tile_data_start(m) + tile_map_entry(m, x as int, y as int) * 16,
                        tile_i == tile_start + 2 * tile_row,
                        forall|j: int| FB_RGB_SIZE <= j < fb0.len() ==> #[trigger] fb@[j] == fb0[j],
                        forall|px: int, py: int|
                            0 <= px < 160 && 0 <= py < 144 && drawn_before(
                                px,
                                py,
                                y as int,
                                x as int,
                                tile_row as int,
                                0,
                            ) ==> #[trigger] rendered(fb@, m, px, py),
                    decreases 8 - tile_row,
                {
                    let col_0 = match self.mc.read(tile_i) {
                        Ok(v) => v,
                        Err(e) => return Err(e),
                    };
                    tile_i += 1;
                    let col_1 = match self.mc.read(tile_i) {
                        Ok(v) => v,
                        Err(e) => return Err(e),
                    };
                    tile_i += 1;
                    assert(col_0 == tile_row_byte(m, x as int, y as int, tile_row as int, 0));
                    assert(col_1 == tile_row_byte(m, x as int, y as int, tile_row as int, 1));
                    let mut c: usize = 0;
                    while c < 8
                        invariant
                            y < 18,
                            x < 20,
                            tile_row < 8,
                            c <= 8,
                            fb@.len() == fb0.len(),
                            fb0.len() >= FB_RGB_SIZE,
                            dst == 3 * ((y * 8 + tile_row) * 160 + x * 8 + c),
                            col_0 == tile_row_byte(m, x as int, y as int, tile_row as int, 0),
                            col_1 == tile_row_byte(m, x as int, y as int, tile_row as int, 1),
                            forall|j: int| FB_RGB_SIZE <= j < fb0.len() ==> #[trigger] fb@[j] == fb0[j],
                            forall|px: int, py: int|
                                0 <= px < 160 && 0 <= py < 144 && drawn_before(
                                    px,
                                    py,
                                    y as int,
                                    x as int,
                                    tile_row as int,
                                    c as int,
                                ) ==> #[trigger] rendered(fb@, m, px, py),
                        decreases 8 - c,
                    {
                        let tile_col: u8 = (7 - c) as u8;
                        let bit_mask: u8 = 1u8 << tile_col;
                        let mut p: u8 = 0b00;
                        if col_0 & bit_mask != 0 {
                            p = 0b10;
                        }
                        if col_1 & bit_mask != 0 {
                            assert(0u8 | 1u8 == 1u8 && 2u8 | 1u8 == 3u8) by (bit_vector);
                            p |= 0b01;
                        }
                        let ghost px0 = x * 8 + c;
                        let ghost py0 = y * 8 + tile_row;
                        assert(p == pixel_at(m, px0, py0)) by {
                            lemma_fundamental_div_mod_converse(px0, 8, x as int, c as int);
                            lemma_fundamental_div_mod_converse(py0, 8, y as int, tile_row as int);
                        }
                        let ghost fb_before = fb@;
                        write_pixel(fb, dst, p);
                        proof {
                            assert forall|px: int, py: int|
                                0 <= px < 160 && 0 <= py < 144 && drawn_before(
                                    px,
                                    py,
                                    y as int,
                                    x as int,
                                    tile_row as int,
                                    c + 1,
                                ) implies #[trigger] rendered(fb@, m, px, py) by {
                                lemma_fundamental_div_mod_converse(px0, 8, x as int, c as int);
                                lemma_fundamental_div_mod_converse(py0, 8, y as int, tile_row as int);
                                if px == px0 && py == py0 {
                                    assert forall|k: int| 0 <= k < 3 implies #[trigger] fb@[rgb_index(px, py, k)]
                                        == palette(pixel_at(m, px, py), k) by {
                                        assert(rgb_index(px, py, k) == dst + k);
                                    }
                                } else {
                                    assert(drawn_before(px, py, y as int, x as int, tile_row as int, c as int));
                                    assert(rendered(fb_before, m, px, py));
                                    assert(py * 160 + px != py0 * 160 + px0);
                                    assert forall|k: int| 0 <= k < 3 implies #[trigger] fb@[rgb_index(px, py, k)]
                                        == palette(pixel_at(m, px, py), k) by {
                                        assert(fb_before[rgb_index(px, py, k)] == palette(pixel_at(m, px, py), k));
                                    }
                                }
                            }
                        }
                        dst += 3;
                        c += 1;
                    }
                    dst += (NUM_TILES_WIDTH - 1) * TILE_WIDTH_BYTES;
                    tile_row += 1;
                }
                x += 1;
            }
            y += 1;
        }
        Ok(())
    }

    /// Where the tile data starts, from the LCD control register.
    fn tile_start_offset(&self) -> (r: Result<u16, ExecErr>)
        ensures
            r == Ok::<u16, ExecErr>(tile_data_start(self.mc@) as u16),
    {
        proof {
            self.mc.lemma_wf();
        }
        let lcdc = match self.mc.read(0xFF40) {
            Ok(v) => v,
            Err(e) => return Err(e),
        };
        assert(lcdc & (1u8 << 4u8) == lcdc & 0x10) by (bit_vector);
        if (lcdc & (1u8 << 4u8)) != 0 {
            Ok(0x8000)
        } else {
            Ok(0x8800)
        }
    }
}

} // verus!

verus! {

/// Bit `k` of `b`, as a set mask test and as a shift give the same.
proof fn lemma_bit_test(b: u8, k: u8)
    by (bit_vector)
    requires
        k < 8,
    ensures
        (b & (1u8 << k) != 0) == ((b >> k) % 2 == 1),
{
}

/// The colour number of each screen pixel comes from the tile data area
/// that bit 4 of LCDC selects, and from that bit alone: 0x8000 when it is
/// set, 0x8800 when it is clear. The pixel in column `px`, line `py` takes
/// bit `7 - px % 8` of the two bytes of row `py % 8` of its tile, the first
/// byte giving the high bit of the colour number.
pub proof fn law_tile_data_follows_lcdc_bit4(m: MemView, px: int, py: int)
    requires
        0 <= px < 160,
        0 <= py < 144,
    ensures
        ({
            let tile = m.vram[0x1800 + (py / 8) * 20 + px / 8] as int;
            let base: int = if (m.io[0x40] >> 4u8) % 2 == 1 { 0 } else { 0x800 };
            let first = m.vram[base + tile * 16 + (py % 8) * 2];
            let second = m.vram[base + tile * 16 + (py % 8) * 2 + 1];
            let bit = (7 - px % 8) as u8;
            pixel_at(m, px, py) == 2 * ((first >> bit) % 2) + (second >> bit) % 2
        }),
{
    let tile = m.vram[0x1800 + (py / 8) * 20 + px / 8] as int;
    let base: int = if (m.io[0x40] >> 4u8) % 2 == 1 { 0 } else { 0x800 };
    let first = m.vram[base + tile * 16 + (py % 8) * 2];
    let second = m.vram[base + tile * 16 + (py % 8) * 2 + 1];
    let bit = (7 - px % 8) as u8;
    lemma_bit_test(m.io[0x40], 4);
    assert(1u8 << 4u8 == 0x10u8) by (bit_vector);
    assert(tile_data_start(m) - 0x8000 == base);
    assert(tile_row_byte(m, px / 8, py / 8, py % 8, 0) == first);
    assert(tile_row_byte(m, px / 8, py / 8, py % 8, 1) == second);
    lemma_bit_test(first, bit);
    lemma_bit_test(second, bit);
}

} // verus!
