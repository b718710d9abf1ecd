//! Whether executing the next instruction would stop the emulator: an
//! address or the stack pointer running past the address space, or a read
//! of memory that cannot be read. The emulation loop asks this before each
//! step, as the step itself is only defined where it does not happen.

use vstd::prelude::*;
use crate::memory::{MemView, MemoryController};
use crate::semantics::{
    call_to, load, operand, operand_u16, pair, pop_then, sem_instr, sem_step, store, store_high,
};
use crate::sm83::{ExecErr, Register};

verus! {

/// Reading `addr`, as `load` describes it.
fn load_exec(mc: &MemoryController, addr: u16) -> (r: Option<Result<u8, ExecErr>>)
    ensures
        r == load(mc@, addr),
{
    if mc.readable(addr) {
        Some(mc.read(addr))
    } else {
        None
    }
}

/// Reading the operand byte `i` bytes after the op code.
fn operand_exec(reg: &Register, mc: &MemoryController, i: u16) -> (r: Option<Result<u8, ExecErr>>)
    requires
        i <= 2,
    ensures
        r == operand(*reg, mc@, i as int),
{
    if reg.pc as u32 + i as u32 > 0xFFFF {
        None
    } else {
        load_exec(mc, reg.pc + i)
    }
}

/// Reading the 16-bit operand after the op code.
fn operand_u16_exec(reg: &Register, mc: &MemoryController) -> (r: Option<Result<u16, ExecErr>>)
    ensures
        r == operand_u16(*reg, mc@),
{
    if reg.pc == 0xFFFF {
        None
    } else {
        Some(mc.read_u16(reg.pc + 1))
    }
}

/// Whether moving the program counter `n` bytes on runs past the address
/// space.
fn past_end(pc: u16, n: u16) -> (r: bool)
    requires
        n <= 3,
    ensures
        r == (pc + n > 0xFFFF),
{
    pc as u32 + n as u32 > 0xFFFF
}

/// Whether a write to `addr` succeeds.
fn write_ok(addr: u16) -> (r: bool)
    ensures
        r == (MemView::write_result(addr) is Ok),
{
    if addr >= 0x2000 && addr <= 0x3FFF {
        true
    } else if addr >= 0xFF00 {
        addr != 0xFFFF
    } else {
        (addr >= 0x8000 && addr <= 0x9FFF) || (addr >= 0xC000 && addr <= 0xDFFF) || (addr >= 0xFE00
            && addr <= 0xFEFF)
    }
}

/// The value of the register pair `hi`, `lo`.
fn pair_exec(hi: u8, lo: u8) -> (r: u16)
    ensures
        r == pair(hi, lo),
{
    (hi as u16) * 256 + (lo as u16)
}

/// An instruction with an immediate byte that then moves on `n` bytes.
fn imm8_then_advance_panics(reg: &Register, mc: &MemoryController, n: u16) -> (r: bool)
    requires
        n <= 3,
    ensures
        r == match operand(*reg, mc@, 1) {
            None => true,
            Some(Err(_)) => false,
            Some(Ok(_)) => reg.pc + n > 0xFFFF,
        },
{
    match operand_exec(reg, mc, 1) {
        None => true,
        Some(Err(_)) => false,
        Some(Ok(_)) => past_end(reg.pc, n),
    }
}

/// A write that then moves on `n` bytes, as `store` describes it.
fn store_panics(pc: u16, addr: u16, n: u16) -> (r: bool)
    requires
        n <= 3,
    ensures
        forall|reg: Register, m: MemView, v: u8|
            reg.pc == pc ==> #[trigger] (store(reg, m, addr, v, n as int) is Panic) == r,
{
    write_ok(addr) && past_end(pc, n)
}

/// A write to the high page, as `store_high` describes it.
fn store_high_panics(pc: u16, addr: u16, n: u16) -> (r: bool)
    requires
        n <= 3,
    ensures
        forall|reg: Register, m: MemView, v: u8|
            reg.pc == pc ==> #[trigger] (store_high(reg, m, addr, v, n as int) is Panic) == r,
{
    if addr == 0xFFFF {
        past_end(pc, n)
    } else {
        store_panics(pc, addr, n)
    }
}

/// Pushing the return address and jumping, as `call_to` describes it.
fn call_to_panics(reg: &Register, op_size: u16) -> (r: bool)
    requires
        op_size <= 3,
    ensures
        forall|m: MemView, addr: u16| #[trigger] (call_to(*reg, m, addr, op_size as int) is Panic) == r,
{
    if past_end(reg.pc, op_size) || reg.sp < 1 {
        true
    } else {
        let sp1 = reg.sp - 1;
        write_ok(sp1) && sp1 < 1
    }
}

/// Popping a word from the stack, as `pop_then` describes it.
fn pop_panics(reg: &Register, mc: &MemoryController, is_ret: bool) -> (r: bool)
    ensures
        r == (pop_then(*reg, mc@, is_ret) is Panic),
{
    match load_exec(mc, reg.sp) {
        None => true,
        Some(Err(_)) => false,
        Some(Ok(_)) => {
            if reg.sp == 0xFFFF {
                true
            } else {
                let sp1 = reg.sp + 1;
                match load_exec(mc, sp1) {
                    None => true,
                    Some(Err(_)) => false,
                    Some(Ok(_)) => {
                        if sp1 == 0xFFFF {
                            true
                        } else if is_ret {
                            false
                        } else {
                            past_end(reg.pc, 1)
                        }
                    },
                }
            }
        },
    }
}

/// Whether the instruction with op code `op` would stop the emulator.
#[verifier::rlimit(50)]
fn instr_panics(op: u8, reg: &Register, mc: &MemoryController) -> (r: bool)
    ensures
        r == (sem_instr(op, *reg, mc@) is Panic),
{
    let pc = reg.pc;
    match op {
        0x00 | 0x05 | 0x0B | 0x0C | 0x0D | 0x0F | 0x13 | 0x2F | 0x47 | 0x4F | 0x5F | 0x78 | 0x79
        | 0x87 | 0xA1 | 0xA9 | 0xAF | 0xB0 | 0xB1 | 0xF3 | 0xFB => past_end(pc, 1),
        0x06 | 0x0E | 0x16 | 0x3E | 0xE6 | 0xFE => imm8_then_advance_panics(reg, mc, 2),
        0x18 | 0x20 | 0x38 => imm8_then_advance_panics(reg, mc, 2),
        0x01 | 0x11 | 0x21 => match operand_exec(reg, mc, 1) {
            None => true,
            Some(Err(_)) => false,
            Some(Ok(_)) => match operand_exec(reg, mc, 2) {
                None => true,
                Some(Err(_)) => false,
                Some(Ok(_)) => past_end(pc, 3),
            },
        },
        0x31 => match operand_u16_exec(reg, mc) {
            None => true,
            Some(Err(_)) => false,
            Some(Ok(_)) => past_end(pc, 3),
        },
        0x1A => match load_exec(mc, pair_exec(reg.d, reg.e)) {
            None => true,
            Some(Err(_)) => false,
            Some(Ok(_)) => past_end(pc, 1),
        },
        0x22 | 0x32 => {
            let hl = pair_exec(reg.h, reg.l);
            if !write_ok(hl) {
                false
            } else if (op == 0x22 && hl == 0xFFFF) || (op == 0x32 && hl == 0) {
                true
            } else {
                past_end(pc, 1)
            }
        },
        0x2A => {
            let hl = pair_exec(reg.h, reg.l);
            match load_exec(mc, hl) {
                None => true,
                Some(Err(_)) => false,
                Some(Ok(_)) => hl == 0xFFFF || past_end(pc, 1),
            }
        },
        0x36 => match operand_exec(reg, mc, 1) {
            None => true,
            Some(Err(_)) => false,
            Some(Ok(_)) => store_panics(pc, pair_exec(reg.h, reg.l), 2),
        },
        0xC3 => operand_u16_exec(reg, mc).is_none(),
        0xC9 => pop_panics(reg, mc, true),
        0xE1 => pop_panics(reg, mc, false),
        0xCB => match operand_exec(reg, mc, 1) {
            None => true,
            Some(Err(_)) => false,
            Some(Ok(sub)) => sub == 0x37 && past_end(pc, 2),
        },
        0xCD => match operand_u16_exec(reg, mc) {
            None => true,
            Some(Err(_)) => false,
            Some(Ok(_)) => call_to_panics(reg, 3),
        },
        0xEF => call_to_panics(reg, 1),
        0xE0 => match operand_exec(reg, mc, 1) {
            None => true,
            Some(Err(_)) => false,
            Some(Ok(im)) => store_high_panics(pc, 0xFF00 + im as u16, 2),
        },
        0xE2 => store_high_panics(pc, 0xFF00 + reg.c as u16, 1),
        0xEA => match operand_u16_exec(reg, mc) {
            None => true,
            Some(Err(_)) => false,
            Some(Ok(addr)) => store_panics(pc, addr, 3),
        },
        0xF0 => match operand_exec(reg, mc, 1) {
            None => true,
            Some(Err(_)) => false,
            Some(Ok(im)) => {
                let addr = 0xFF00 + im as u16;
                if addr == 0xFFFF {
                    past_end(pc, 2)
                } else {
                    match load_exec(mc, addr) {
                        None => true,
                        Some(Err(_)) => false,
                        Some(Ok(_)) => past_end(pc, 2),
                    }
                }
            },
        },
        0xFA => match operand_u16_exec(reg, mc) {
            None => true,
            Some(Err(_)) => false,
            Some(Ok(addr)) => match load_exec(mc, addr) {
                None => true,
                Some(Err(_)) => false,
                Some(Ok(_)) => past_end(pc, 3),
            },
        },
        _ => load_exec(mc, pc).is_none(),
    }
}

/// Whether executing the instruction at the program counter would stop the
/// emulator.
pub fn step_panics(reg: &Register, mc: &MemoryController) -> (r: bool)
    ensures
        r == (sem_step(*reg, mc@) is Panic),
{
    match load_exec(mc, reg.pc) {
        None => true,
        Some(Err(_)) => false,
        Some(Ok(op)) => instr_panics(op, reg, mc),
    }
}

} // verus!
