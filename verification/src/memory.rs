//! The memory map of the DMG as seen by the CPU.

use vstd::prelude::*;
use crate::io::{IO, IO_BASE};
use crate::rom::{ROM, MAX_ROM_SIZE};
use crate::sm83::ExecErr;

verus! {

// bank selection related things
/// The size of a switchable ROM bank: 16 KiB.
pub const BANK_SIZE: u16 = 0x4000;
pub const ROM_BANK_CONTROL_START: u16 = 0x2000;
pub const ROM_BANK_CONTROL_END: u16 = 0x3FFF;

// mem space definition (inclusive intervals)
pub const ROM_0_END: u16 = 0x3FFF;
pub const ROM_N_START: u16 = 0x4000;
pub const ROM_N_END: u16 = 0x7FFF;
pub const VRAM_START: u16 = 0x8000;
pub const VRAM_END: u16 = 0x9FFF;
pub const RAM_START: u16 = 0xC000;
pub const RAM_END: u16 = 0xDFFF;
pub const OAM_START: u16 = 0xFE00;
pub const OAM_END: u16 = 0xFEFF;
pub const IO_START: u16 = 0xFF00;
pub const IO_END: u16 = 0xFFFF;

/// What the memory controller holds, as mathematical sequences.
#[verifier::ext_equal]
pub ghost struct MemView {
    pub bank: u16,
    /// The buffer of the attached ROM, if any.
    pub rom: Option<Seq<u8>>,
    pub vram: Seq<u8>,
    pub ram: Seq<u8>,
    pub oam: Seq<u8>,
    pub io: Seq<u8>,
}

impl MemView {
    /// The ROM buffer index that a read of the switchable bank area maps to:
    /// bank `n` starts at `n * BANK_SIZE`.
    pub open spec fn banked_index(self, addr: u16) -> int {
        addr + (self.bank - 1) * BANK_SIZE
    }

    /// A read of `addr` does not panic.
    pub open spec fn read_defined(self, addr: u16) -> bool {
        if addr <= ROM_0_END {
            true
        } else if ROM_N_START <= addr <= ROM_N_END {
            self.rom is Some ==> (self.bank >= 1 && self.banked_index(addr) < MAX_ROM_SIZE)
        } else if IO_START <= addr {
            addr != IO_END
        } else {
            true
        }
    }

    /// The result of reading `addr`.
    pub open spec fn read(self, addr: u16) -> Result<u8, ExecErr> {
        if addr <= ROM_0_END {
            match self.rom {
                Some(b) => Ok(b[addr as int]),
                None => Err(ExecErr::GeneralError("no ROM attached")),
            }
        } else if ROM_N_START <= addr <= ROM_N_END {
            match self.rom {
                Some(b) => Ok(b[self.banked_index(addr)]),
                None => Err(ExecErr::GeneralError("no ROM attached")),
            }
        } else if IO_START <= addr {
            Ok(self.io[addr - IO_START])
        } else if VRAM_START <= addr <= VRAM_END {
            Ok(self.vram[addr - VRAM_START])
        } else if RAM_START <= addr <= RAM_END {
            Ok(self.ram[addr - RAM_START])
        } else if OAM_START <= addr <= OAM_END {
            Ok(self.oam[addr - OAM_START])
        } else {
            Err(ExecErr::GeneralError("mem read error"))
        }
    }

    /// The result of reading the little-endian word at `addr`, possible only
    /// from the first ROM bank.
    pub open spec fn read_u16(self, addr: u16) -> Result<u16, ExecErr> {
        if addr < ROM_0_END {
            match self.rom {
                Some(b) => Ok((b[addr + 1] * 256 + b[addr as int]) as u16),
                None => Err(ExecErr::GeneralError("no ROM attached")),
            }
        } else {
            Err(ExecErr::GeneralError("mem read addr outside ROM space"))
        }
    }

    /// The memory after writing `v` to `addr`.
    pub open spec fn write(self, addr: u16, v: u8) -> MemView {
        if ROM_BANK_CONTROL_START <= addr <= ROM_BANK_CONTROL_END {
            MemView { bank: (v % 4) as u16, ..self }
        } else if IO_START <= addr {
            if addr == IO_END {
                self
            } else {
                MemView { io: self.io.update(addr - IO_START, v), ..self }
            }
        } else if VRAM_START <= addr <= VRAM_END {
            MemView { vram: self.vram.update(addr - VRAM_START, v), ..self }
        } else if RAM_START <= addr <= RAM_END {
            MemView { ram: self.ram.update(addr - RAM_START, v), ..self }
        } else if OAM_START <= addr <= OAM_END {
            MemView { oam: self.oam.update(addr - OAM_START, v), ..self }
        } else {
            self
        }
    }

    /// The result that a write to `addr` reports.
    pub open spec fn write_result(addr: u16) -> Result<(), ExecErr> {
        if ROM_BANK_CONTROL_START <= addr <= ROM_BANK_CONTROL_END {
            Ok(())
        } else if IO_START <= addr {
            if addr == IO_END {
                Err(ExecErr::GeneralError("illegal IO address"))
            } else {
                Ok(())
            }
        } else if (VRAM_START <= addr <= VRAM_END) || (RAM_START <= addr <= RAM_END) || (OAM_START
            <= addr <= OAM_END) {
            Ok(())
        } else {
            Err(ExecErr::GeneralError("memory location not writable"))
        }
    }

    /// The sizes of the memory areas.
    pub open spec fn wf(self) -> bool {
        &&& self.vram.len() == 8192
        &&& self.ram.len() == 8192
        &&& self.oam.len() == 256
        &&& self.io.len() == 255
        &&& self.rom matches Some(b) ==> b.len() == MAX_ROM_SIZE
    }
}

pub struct MemoryController {
    bank_selected: u16,
    /// 0x0000 to 0x3FFF ROM Bank 00
    /// 0x4000 to 0x7FFF ROM Bank NN (switchable banks)
    pub rom: Option<ROM>,
    /// 0x8000 to 0x8FFF Tiles/Sprites
    /// 0x9000 to 0x97FF Tiles At
    /// 0x9800 to 0x9BFF Tilemap 1
    /// 0x9C00 to 0x9FFF Tilemap 2
    pub vram: [u8; 8192],
    // 0xC000 to 0xDFFF 8KB Work RAM
    pub ram: [u8; 8192],
    // 0xFE00 to 0xFEFF 256 bytes Object Attribute Memory.
    // Including non usable memory from 0xFEA0 to 0xFEFF
    pub oam: [u8; 256],
    /// 0xFF00 to 0xFF7F I/O Ports
    pub io: IO,
}

impl View for MemoryController {
    type V = MemView;

    closed spec fn view(&self) -> MemView {
        MemView {
            bank: self.bank_selected,
            rom: match self.rom {
                Some(r) => Some(r.buffer()),
                None => None,
            },
            vram: self.vram@,
            ram: self.ram@,
            oam: self.oam@,
            io: self.io@,
        }
    }
}

impl MemoryController {
    pub proof fn lemma_wf(&self)
        ensures
            self@.wf(),
    {
        self.io.lemma_len();
        match self.rom {
            Some(r) => r.lemma_buffer_len(),
            None => {},
        }
    }

    pub fn new(io: IO, rom: ROM) -> (mc: MemoryController)
        ensures
            mc@ == (MemView {
                bank: 1,
                rom: Some(rom.buffer()),
                vram: Seq::new(8192, |i: int| 0u8),
                ram: Seq::new(8192, |i: int| 0u8),
                oam: Seq::new(256, |i: int| 0u8),
                io: io@,
            }),
    {
        let mc = MemoryController {
            bank_selected: 0x01,
            rom: Some(rom),
            vram: [0u8; 8192],
            ram: [0u8; 8192],
            oam: [0u8; 256],
            io: io,
        };
        assert(mc.vram@ =~= Seq::new(8192, |i: int| 0u8));
        assert(mc.ram@ =~= Seq::new(8192, |i: int| 0u8));
        assert(mc.oam@ =~= Seq::new(256, |i: int| 0u8));
        mc
    }

    pub fn read(&self, addr: u16) -> (r: Result<u8, ExecErr>)
        requires
            self@.read_defined(addr),
        ensures
            r == self@.read(addr),
    {
        proof {
            self.lemma_wf();
        }
        if addr <= ROM_0_END {
            if let Some(rom) = &self.rom {
                match rom.read_u8(addr as usize) {
                    Ok(v) => Ok(v),
                    Err(e) => Err(ExecErr::GeneralError(e)),
                }
            } else {
                return Err(ExecErr::GeneralError("no ROM attached"));
            }
        } else if addr >= ROM_N_START && addr <= ROM_N_END {
            if let Some(rom) = &self.rom {
                let banked_rom_addr = addr + ((self.bank_selected - 1) * BANK_SIZE);
                match rom.read_u8(banked_rom_addr as usize) {
                    Ok(v) => Ok(v),
                    Err(e) => Err(ExecErr::GeneralError(e)),
                }
            } else {
                return Err(ExecErr::GeneralError("no ROM attached"));
            }
        } else if addr >= IO_START && addr <= IO_END {
            Ok(self.io.read(addr))
        } else if addr >= VRAM_START && addr <= VRAM_END {
            Ok(self.vram[(addr - VRAM_START) as usize])
        } else if addr >= RAM_START && addr <= RAM_END {
            Ok(self.ram[(addr - RAM_START) as usize])
        } else if addr >= OAM_START && addr <= OAM_END {
            Ok(self.oam[(addr - OAM_START) as usize])
        } else {
            return Err(ExecErr::GeneralError("mem read error"));
        }
    }

    /// The size of the attached ROM image, if any.
    pub closed spec fn rom_image_size(&self) -> Option<nat> {
        match self.rom {
            Some(r) => Some(r.spec_size()),
            None => None,
        }
    }

    /// The size of the attached ROM image, if any.
    pub fn rom_size(&self) -> (r: Option<usize>)
        ensures
            match r {
                Some(n) => self.rom_image_size() == Some(n as nat) && n <= MAX_ROM_SIZE,
                None => self.rom_image_size() is None,
            },
    {
        match &self.rom {
            Some(rom) => Some(rom.size()),
            None => None,
        }
    }

    /// Whether a read of `addr` is defined: a banked ROM read needs a bank
    /// of at least 1 whose offset stays inside the ROM buffer, and 0xFFFF
    /// cannot be read.
    pub fn readable(&self, addr: u16) -> (r: bool)
        ensures
            r == self@.read_defined(addr),
    {
        if addr <= ROM_0_END {
            true
        } else if addr >= ROM_N_START && addr <= ROM_N_END {
            match &self.rom {
                None => true,
                Some(_) => {
                    if self.bank_selected < 1 {
                        false
                    } else {
                        let offset: u64 = (self.bank_selected - 1) as u64;
                        assert(offset * 0x4000 <= 0xFFFF * 0x4000) by (nonlinear_arith)
                            requires
                                offset <= 0xFFFF,
                        ;
                        (addr as u64) + offset * (BANK_SIZE as u64) < (MAX_ROM_SIZE as u64)
                    }
                },
            }
        } else if addr >= IO_START {
            addr != IO_END
        } else {
            true
        }
    }

    /// Only possible from the ROM address space.
    pub fn read_u16(&self, addr: u16) -> (r: Result<u16, ExecErr>)
        ensures
            r == self@.read_u16(addr),
    {
        proof {
            self.lemma_wf();
        }
        if addr < ROM_0_END {
            if let Some(rom) = &self.rom {
                return match rom.read_u16(addr as usize) {
                    Ok(v) => Ok(v),
                    Err(e) => Err(ExecErr::GeneralError(e)),
                };
            } else {
                return Err(ExecErr::GeneralError("no ROM attached"));
            }
        }
        return Err(ExecErr::GeneralError("mem read addr outside ROM space"));
    }

    pub fn write(&mut self, addr: u16, v: u8) -> (r: Result<(), ExecErr>)
        ensures
            final(self)@ == old(self)@.write(addr, v),
            r == MemView::write_result(addr),
    {
        proof {
            old(self).lemma_wf();
        }
        if addr >= ROM_BANK_CONTROL_START && addr <= ROM_BANK_CONTROL_END {
            assert((v & 0x03) == v % 4) by (bit_vector);
            self.bank_selected = (v & 0x03) as u16;
        } else if addr >= IO_START && addr <= IO_END {
            let r = self.io.write(addr, v);
            if r.is_err() {
                assert(self@ =~= old(self)@.write(addr, v));
                return r;
            }
        } else if addr >= VRAM_START && addr <= VRAM_END {
            self.vram[(addr - VRAM_START) as usize] = v;
        } else if addr >= RAM_START && addr <= RAM_END {
            self.ram[(addr - RAM_START) as usize] = v;
        } else if addr >= OAM_START && addr <= OAM_END {
            self.oam[(addr - OAM_START) as usize] = v;
        } else {
            return Err(ExecErr::GeneralError("memory location not writable"));
        }
        assert(self@ =~= old(self)@.write(addr, v));
        Ok(())
    }
}

} // verus!

verus! {

/// Writes to `addr` select the ROM bank instead of storing a byte.
pub open spec fn is_bank_control(addr: u16) -> bool {
    ROM_BANK_CONTROL_START <= addr <= ROM_BANK_CONTROL_END
}

/// A byte written to a writable location (not the bank control area) is
/// read back unchanged.
pub proof fn law_read_after_write(m: MemView, addr: u16, v: u8)
    requires
        m.wf(),
        MemView::write_result(addr) is Ok,
        !is_bank_control(addr),
    ensures
        m.write(addr, v).read_defined(addr),
        m.write(addr, v).read(addr) == Ok::<u8, ExecErr>(v),
{
}

/// A write to one location leaves what every other (readable) location
/// reads unchanged, unless it selects a ROM bank.
pub proof fn law_write_keeps_other_reads(m: MemView, addr: u16, v: u8, other: u16)
    requires
        m.wf(),
        addr != other,
        !is_bank_control(addr),
        m.read_defined(other),
    ensures
        m.write(addr, v).read_defined(other),
        m.write(addr, v).read(other) == m.read(other),
{
    let w = m.write(addr, v);
    if IO_START <= other && other != IO_END {
        assert(w.io[other - IO_START] == m.io[other - IO_START]);
    } else if VRAM_START <= other <= VRAM_END {
        assert(w.vram[other - VRAM_START] == m.vram[other - VRAM_START]);
    } else if RAM_START <= other <= RAM_END {
        assert(w.ram[other - RAM_START] == m.ram[other - RAM_START]);
    } else if OAM_START <= other <= OAM_END {
        assert(w.oam[other - OAM_START] == m.oam[other - OAM_START]);
    }
}

/// A write that fails leaves the memory unchanged.
pub proof fn law_failed_write_changes_nothing(m: MemView, addr: u16, v: u8)
    requires
        MemView::write_result(addr) is Err,
    ensures
        m.write(addr, v) == m,
{
}

/// Selecting a bank with a write to the bank control area changes nothing
/// but the selected bank, which becomes the low two bits of the value.
pub proof fn law_bank_select(m: MemView, addr: u16, v: u8)
    requires
        is_bank_control(addr),
    ensures
        m.write(addr, v) == (MemView { bank: (v % 4) as u16, ..m }),
        MemView::write_result(addr) == Ok::<(), ExecErr>(()),
{
}

} // verus!

verus! {

/// Writing keeps the sizes of the memory areas.
pub broadcast proof fn lemma_write_keeps_shape(m: MemView, addr: u16, v: u8)
    requires
        m.wf(),
    ensures
        #[trigger] m.write(addr, v).wf(),
{
}

} // verus!
