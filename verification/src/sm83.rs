//! The SM83 CPU.

use vstd::prelude::*;
use crate::bytes::{u16_from_le, u16_to_le};
use crate::memory::{MemView, MemoryController};
use crate::semantics::{
    Outcome, Reg8, bool_u8, call_to, jump_target, pair, sem_add_a_a, sem_and_c, sem_and_immediate, sem_call, sem_cp_immediate, sem_cpl, sem_dec8, sem_dec_bc, sem_di, sem_ei, sem_inc_c, sem_inc_de, sem_instr, sem_invalid, sem_jp, sem_jr, sem_jr_if_c, sem_jr_if_nz, sem_ld_imm16, sem_ld_imm8, sem_ld_r_r, sem_ld_to_a_from_deref_de, sem_ld_to_a_from_deref_hl_inc, sem_ld_to_a_from_deref_label, sem_ld_to_deref_hl_from_immediate, sem_ld_to_deref_hl_step_from_a, sem_ld_to_deref_label_from_a, sem_ld_to_sp_from_immediate, sem_ldh_to_a_from_immediate, sem_ldh_to_deref_c_from_a, sem_ldh_to_immediate_from_a, sem_nop, sem_or_a, sem_pop_hl, sem_prefix, sem_ret, sem_rrca, sem_rst_28, sem_step, sem_xor_a_a, sem_xor_a_c, with_flag, with_flags,
};

verus! {

pub const Z: u8 = 0x80;
pub const N: u8 = 0x40;
pub const H: u8 = 0x20;
pub const C: u8 = 0x10;

#[derive(Debug, PartialEq)]
pub enum ExecErr {
    // values: first one: op_code, second one: address
    InvalidInstruction(u8, u16),
    GeneralError(&'static str),
}

#[derive(Clone, Copy)]
pub struct Register {
    pub pc: u16,
    pub sp: u16,
    /// interrupt enable
    pub ie: u8,
    /// interrupt master enable
    pub ime: bool,
    pub a: u8,
    pub b: u8,
    pub c: u8,
    pub d: u8,
    pub e: u8,
    pub h: u8,
    pub l: u8,
    pub f: u8,  // z n h c flags in the upper half
}

impl Register {
    /// The register bank right after reset of this emulator: everything 0,
    /// interrupts enabled.
    pub open spec fn spec_zero() -> Register {
        Register { pc: 0, sp: 0, ie: 0, ime: true, a: 0, b: 0, c: 0, d: 0, e: 0, h: 0, l: 0, f: 0 }
    }

    /// Returns a register bank with all registers set to 0.
    pub fn zero() -> (r: Register)
        ensures
            r == Register::spec_zero(),
    {
        Register { pc: 0, sp: 0, ie: 0, ime: true, a: 0, b: 0, c: 0, d: 0, e: 0, h: 0, l: 0, f: 0 }
    }

    /// Returns a register bank with register a set to the supplied value.
    /// All other registers are set to 0.
    pub fn a(v: u8) -> (r: Register)
        ensures
            r == (Register { a: v, ..Register::spec_zero() }),
    {
        let mut reg = Register::zero();
        reg.a = v;
        reg
    }

    pub fn bc(&self) -> (v: u16)
        ensures
            v == pair(self.b, self.c),
    {
        u16_from_le(self.c, self.b)
    }

    pub fn de(&self) -> (v: u16)
        ensures
            v == pair(self.d, self.e),
    {
        u16_from_le(self.e, self.d)
    }

    pub fn hl(&self) -> (v: u16)
        ensures
            v == pair(self.h, self.l),
    {
        u16_from_le(self.l, self.h)
    }

    pub fn set_bc(&mut self, v: u16)
        ensures
            *final(self) == (Register { b: (v / 256) as u8, c: (v % 256) as u8, ..*old(self) }),
    {
        let (lo, hi) = u16_to_le(v);
        self.b = hi;
        self.c = lo;
    }

    pub fn set_de(&mut self, v: u16)
        ensures
            *final(self) == (Register { d: (v / 256) as u8, e: (v % 256) as u8, ..*old(self) }),
    {
        let (lo, hi) = u16_to_le(v);
        self.d = hi;
        self.e = lo;
    }

    pub fn set_hl(&mut self, v: u16)
        ensures
            *final(self) == (Register { h: (v / 256) as u8, l: (v % 256) as u8, ..*old(self) }),
    {
        let (lo, hi) = u16_to_le(v);
        self.h = hi;
        self.l = lo;
    }

    /// Sets `flag` when `v` is non-zero, clears it otherwise.
    pub fn set_flag(&mut self, flag: u8, v: u8)
        ensures
            *final(self) == (Register { f: with_flag(old(self).f, flag, v), ..*old(self) }),
    {
        self.f = if v == 0 {
            self.f & !flag
        } else {
            self.f | flag
        };
    }

    /// 1 when `flag` is set, 0 otherwise.
    pub fn get_flag(&self, flag: u8) -> (v: u8)
        ensures
            v == bool_u8(self.f & flag != 0),
    {
        if (self.f & flag) == 0 {
            0
        } else {
            1
        }
    }
}

/// Mostly useful in tests
pub struct RegBuilder {
    reg: Register,
}

impl View for RegBuilder {
    type V = Register;

    closed spec fn view(&self) -> Register {
        self.reg
    }
}

impl RegBuilder {
    pub fn new() -> (b: RegBuilder)
        ensures
            b@ == Register::spec_zero(),
    {
        RegBuilder { reg: Register::zero() }
    }

    pub fn reg(self) -> (r: Register)
        ensures
            r == self@,
    {
        self.reg
    }

    /// Sets register a. All other registers stay as they are.
    pub fn a(self, v: u8) -> (b: RegBuilder)
        ensures
            b@ == (Register { a: v, ..self@ }),
    {
        let mut r = self;
        r.reg.a = v;
        r
    }

    pub fn b(self, v: u8) -> (b: RegBuilder)
        ensures
            b@ == (Register { b: v, ..self@ }),
    {
        let mut r = self;
        r.reg.b = v;
        r
    }

    pub fn c(self, v: u8) -> (b: RegBuilder)
        ensures
            b@ == (Register { c: v, ..self@ }),
    {
        let mut r = self;
        r.reg.c = v;
        r
    }

    pub fn d(self, v: u8) -> (b: RegBuilder)
        ensures
            b@ == (Register { d: v, ..self@ }),
    {
        let mut r = self;
        r.reg.d = v;
        r
    }

    pub fn e(self, v: u8) -> (b: RegBuilder)
        ensures
            b@ == (Register { e: v, ..self@ }),
    {
        let mut r = self;
        r.reg.e = v;
        r
    }

    pub fn f(self, v: u8) -> (b: RegBuilder)
        ensures
            b@ == (Register { f: v, ..self@ }),
    {
        let mut r = self;
        r.reg.f = v;
        r
    }

    pub fn f_z(self, v: u8) -> (b: RegBuilder)
        ensures
            b@ == (Register { f: with_flag(self@.f, Z, v), ..self@ }),
    {
        let mut r = self;
        r.reg.set_flag(Z, v);
        r
    }

    pub fn f_n(self, v: u8) -> (b: RegBuilder)
        ensures
            b@ == (Register { f: with_flag(self@.f, N, v), ..self@ }),
    {
        let mut r = self;
        r.reg.set_flag(N, v);
        r
    }

    pub fn f_h(self, v: u8) -> (b: RegBuilder)
        ensures
            b@ == (Register { f: with_flag(self@.f, H, v), ..self@ }),
    {
        let mut r = self;
        r.reg.set_flag(H, v);
        r
    }

    pub fn f_c(self, v: u8) -> (b: RegBuilder)
        ensures
            b@ == (Register { f: with_flag(self@.f, C, v), ..self@ }),
    {
        let mut r = self;
        r.reg.set_flag(C, v);
        r
    }

    pub fn h(self, v: u8) -> (b: RegBuilder)
        ensures
            b@ == (Register { h: v, ..self@ }),
    {
        let mut r = self;
        r.reg.h = v;
        r
    }

    pub fn l(self, v: u8) -> (b: RegBuilder)
        ensures
            b@ == (Register { l: v, ..self@ }),
    {
        let mut r = self;
        r.reg.l = v;
        r
    }

    pub fn bc(self, v: u16) -> (b: RegBuilder)
        ensures
            b@ == (Register { b: (v / 256) as u8, c: (v % 256) as u8, ..self@ }),
    {
        let mut r = self;
        r.reg.set_bc(v);
        r
    }

    pub fn de(self, v: u16) -> (b: RegBuilder)
        ensures
            b@ == (Register { d: (v / 256) as u8, e: (v % 256) as u8, ..self@ }),
    {
        let mut r = self;
        r.reg.set_de(v);
        r
    }

    pub fn hl(self, v: u16) -> (b: RegBuilder)
        ensures
            b@ == (Register { h: (v / 256) as u8, l: (v % 256) as u8, ..self@ }),
    {
        let mut r = self;
        r.reg.set_hl(v);
        r
    }

    pub fn pc(self, v: u16) -> (b: RegBuilder)
        ensures
            b@ == (Register { pc: v, ..self@ }),
    {
        let mut r = self;
        r.reg.pc = v;
        r
    }

    pub fn sp(self, v: u16) -> (b: RegBuilder)
        ensures
            b@ == (Register { sp: v, ..self@ }),
    {
        let mut r = self;
        r.reg.sp = v;
        r
    }
}

/// SM83 CPU emulator
pub struct SM83 {
    /// Set once the CPU has stopped; no instruction sets it yet.
    pub halted: bool,
    pub reg: Register,
}

/// `o` completed with the CPU in `after`, the memory in `mem` and the result
/// `res`, and the halt state was kept.
pub open spec fn completes(
    o: Outcome,
    before: SM83,
    after: SM83,
    mem: MemView,
    res: Result<(), ExecErr>,
) -> bool {
    &&& o == (Outcome::Done { reg: after.reg, mem, res })
    &&& after.spec_halted() == before.spec_halted()
}

impl SM83 {
    pub open spec fn spec_halted(&self) -> bool {
        self.halted
    }

    pub fn init() -> (s: SM83)
        ensures
            !s.spec_halted(),
            s.reg == Register::spec_zero(),
    {
        SM83 { halted: false, reg: Register::zero() }
    }

    /// Executes the instruction at the program counter and returns its op
    /// code.
    pub fn execute(&mut self, mc: &mut MemoryController) -> (res: Result<u8, ExecErr>)
        requires
            !(sem_step(old(self).reg, old(mc)@) is Panic),
        ensures
            completes(
                sem_step(old(self).reg, old(mc)@),
                *old(self),
                *final(self),
                final(mc)@,
                match res {
                    Ok(_) => Ok(()),
                    Err(e) => Err(e),
                },
            ),
            res matches Ok(op) ==> old(mc)@.read(old(self).reg.pc) == Ok::<u8, ExecErr>(op),
    {
        let op = match mc.read(self.pc()) {
            Ok(op) => op,
            Err(e) => return Err(e),
        };
        let r = exec_op(op, self, mc);
        match r {
            Ok(()) => Ok(op),
            Err(e) => Err(e),
        }
    }

    pub fn halted(&self) -> (h: bool)
        ensures
            h == self.spec_halted(),
    {
        self.halted
    }

    pub fn set_pc(&mut self, pc: u16)
        ensures
            final(self).reg == (Register { pc, ..old(self).reg }),
            final(self).spec_halted() == old(self).spec_halted(),
    {
        self.reg.pc = pc;
    }

    /// Moves the program counter on; it must not pass the address space.
    pub fn inc_pc(&mut self, inc: u16)
        requires
            old(self).reg.pc + inc <= 0xFFFF,
        ensures
            final(self).reg == (Register { pc: (old(self).reg.pc + inc) as u16, ..old(self).reg }),
            final(self).spec_halted() == old(self).spec_halted(),
    {
        self.reg.pc = self.reg.pc + inc;
    }

    /// Moves the stack pointer down; it must not pass zero.
    pub fn dec_sp(&mut self, dec: u16)
        requires
            old(self).reg.sp >= dec,
        ensures
            final(self).reg == (Register { sp: (old(self).reg.sp - dec) as u16, ..old(self).reg }),
            final(self).spec_halted() == old(self).spec_halted(),
    {
        self.reg.sp = self.reg.sp - dec;
    }

    /// Moves the stack pointer up; it must not pass the address space.
    pub fn inc_sp(&mut self, inc: u16)
        requires
            old(self).reg.sp + inc <= 0xFFFF,
        ensures
            final(self).reg == (Register { sp: (old(self).reg.sp + inc) as u16, ..old(self).reg }),
            final(self).spec_halted() == old(self).spec_halted(),
    {
        self.reg.sp = self.reg.sp + inc;
    }

    pub fn pc(&self) -> (pc: u16)
        ensures
            pc == self.reg.pc,
    {
        self.reg.pc
    }
}


fn exec_invalid(sm83: &mut SM83, mc: &mut MemoryController) -> (res: Result<(), ExecErr>)
    requires
        !(sem_invalid(old(sm83).reg, old(mc)@) is Panic),
    ensures
        completes(sem_invalid(old(sm83).reg, old(mc)@), *old(sm83), *final(sm83), final(mc)@, res),
{
    let pc = sm83.pc();
    let op = match mc.read(pc) {
        Ok(v) => v,
        Err(e) => return Err(e),
    };
    Err(ExecErr::InvalidInstruction(op, pc))
}

fn exec_ei(sm83: &mut SM83, _mc: &mut MemoryController) -> (res: Result<(), ExecErr>)
    requires
        !(sem_ei(old(sm83).reg, old(_mc)@) is Panic),
    ensures
        completes(sem_ei(old(sm83).reg, old(_mc)@), *old(sm83), *final(sm83), final(_mc)@, res),
{
    sm83.reg.ime = true;
    sm83.inc_pc(1);
    Ok(())
}

fn exec_di(sm83: &mut SM83, _mc: &mut MemoryController) -> (res: Result<(), ExecErr>)
    requires
        !(sem_di(old(sm83).reg, old(_mc)@) is Panic),
    ensures
        completes(sem_di(old(sm83).reg, old(_mc)@), *old(sm83), *final(sm83), final(_mc)@, res),
{
    sm83.reg.ime = false;
    sm83.inc_pc(1);
    Ok(())
}

fn exec_cp_immediate(sm83: &mut SM83, mc: &mut MemoryController) -> (res: Result<(), ExecErr>)
    requires
        !(sem_cp_immediate(old(sm83).reg, old(mc)@) is Panic),
    ensures
        completes(sem_cp_immediate(old(sm83).reg, old(mc)@), *old(sm83), *final(sm83), final(mc)@, res),
{
    let v = match mc.read(sm83.pc() + 1) {
        Ok(v) => v,
        Err(e) => return Err(e),
    };
    let a = sm83.reg.a;
    let carry = a < v;
    let z: u8 = if carry {
        ((a as u16 + 256) - v as u16) as u8
    } else {
        a - v
    };
    sm83.reg.set_flag(Z, z);
    sm83.reg.set_flag(N, 1);
    sm83.reg.set_flag(H, z & H);
    sm83.reg.set_flag(C, carry as u8);
    sm83.inc_pc(2);
    Ok(())
}

fn exec_add_a_a(sm83: &mut SM83, _mc: &mut MemoryController) -> (res: Result<(), ExecErr>)
    requires
        !(sem_add_a_a(old(sm83).reg, old(_mc)@) is Panic),
    ensures
        completes(sem_add_a_a(old(sm83).reg, old(_mc)@), *old(sm83), *final(sm83), final(_mc)@, res),
{
    let a = sm83.reg.a;
    let sum: u16 = a as u16 + a as u16;
    let carry = sum > 0xFF;
    let a_val = (sum % 256) as u8;
    let half_carry = (a & 0x0F) >= 0x8;
    assert((a & 0x0F) == a % 16) by (bit_vector);
    sm83.reg.a = a_val;
    sm83.reg.set_flag(Z, (sm83.reg.a == 0) as u8);
    sm83.reg.set_flag(N, 0);
    sm83.reg.set_flag(H, half_carry as u8);
    sm83.reg.set_flag(C, carry as u8);
    sm83.inc_pc(1);
    Ok(())
}

fn exec_jp(sm83: &mut SM83, mc: &mut MemoryController) -> (res: Result<(), ExecErr>)
    requires
        !(sem_jp(old(sm83).reg, old(mc)@) is Panic),
    ensures
        completes(sem_jp(old(sm83).reg, old(mc)@), *old(sm83), *final(sm83), final(mc)@, res),
{
    let addr = match mc.read_u16(sm83.pc() + 1) {
        Ok(v) => v,
        Err(e) => return Err(e),
    };
    sm83.set_pc(addr);
    Ok(())
}

fn exec_jr(sm83: &mut SM83, mc: &mut MemoryController) -> (res: Result<(), ExecErr>)
    requires
        !(sem_jr(old(sm83).reg, old(mc)@) is Panic),
    ensures
        completes(sem_jr(old(sm83).reg, old(mc)@), *old(sm83), *final(sm83), final(mc)@, res),
{
    let rel = match mc.read(sm83.pc() + 1) {
        Ok(v) => v,
        Err(e) => return Err(e),
    };
    sm83.inc_pc(2);  // relative jump is computed after the instruction
    if true {
        let target = jump_target_exec(sm83.pc(), rel);
        sm83.set_pc(target);
    }
    Ok(())
}

fn exec_jr_if_c(sm83: &mut SM83, mc: &mut MemoryController) -> (res: Result<(), ExecErr>)
    requires
        !(sem_jr_if_c(old(sm83).reg, old(mc)@) is Panic),
    ensures
        completes(sem_jr_if_c(old(sm83).reg, old(mc)@), *old(sm83), *final(sm83), final(mc)@, res),
{
    let rel = match mc.read(sm83.pc() + 1) {
        Ok(v) => v,
        Err(e) => return Err(e),
    };
    sm83.inc_pc(2);  // relative jump is computed after the instruction
    if (sm83.reg.f & C) != 0 {
        let target = jump_target_exec(sm83.pc(), rel);
        sm83.set_pc(target);
    }
    Ok(())
}

fn exec_jr_if_nz(sm83: &mut SM83, mc: &mut MemoryController) -> (res: Result<(), ExecErr>)
    requires
        !(sem_jr_if_nz(old(sm83).reg, old(mc)@) is Panic),
    ensures
        completes(sem_jr_if_nz(old(sm83).reg, old(mc)@), *old(sm83), *final(sm83), final(mc)@, res),
{
    let rel = match mc.read(sm83.pc() + 1) {
        Ok(v) => v,
        Err(e) => return Err(e),
    };
    sm83.inc_pc(2);  // relative jump is computed after the instruction
    if (sm83.reg.f & Z) == 0 {
        let target = jump_target_exec(sm83.pc(), rel);
        sm83.set_pc(target);
    }
    Ok(())
}

fn exec_ld_to_a_from_immediate(sm83: &mut SM83, mc: &mut MemoryController) -> (res: Result<(), ExecErr>)
    requires
        !(sem_ld_imm8(old(sm83).reg, old(mc)@, Reg8::A) is Panic),
    ensures
        completes(sem_ld_imm8(old(sm83).reg, old(mc)@, Reg8::A), *old(sm83), *final(sm83), final(mc)@, res),
{
    let val = match mc.read(sm83.pc() + 1) {
        Ok(v) => v,
        Err(e) => return Err(e),
    };
    sm83.reg.a = val;
    sm83.inc_pc(2);
    Ok(())
}

fn exec_ld_to_b_from_immediate(sm83: &mut SM83, mc: &mut MemoryController) -> (res: Result<(), ExecErr>)
    requires
        !(sem_ld_imm8(old(sm83).reg, old(mc)@, Reg8::B) is Panic),
    ensures
        completes(sem_ld_imm8(old(sm83).reg, old(mc)@, Reg8::B), *old(sm83), *final(sm83), final(mc)@, res),
{
    let val = match mc.read(sm83.pc() + 1) {
        Ok(v) => v,
        Err(e) => return Err(e),
    };
    sm83.reg.b = val;
    sm83.inc_pc(2);
    Ok(())
}

fn exec_ld_to_c_from_immediate(sm83: &mut SM83, mc: &mut MemoryController) -> (res: Result<(), ExecErr>)
    requires
        !(sem_ld_imm8(old(sm83).reg, old(mc)@, Reg8::C) is Panic),
    ensures
        completes(sem_ld_imm8(old(sm83).reg, old(mc)@, Reg8::C), *old(sm83), *final(sm83), final(mc)@, res),
{
    let val = match mc.read(sm83.pc() + 1) {
        Ok(v) => v,
        Err(e) => return Err(e),
    };
    sm83.reg.c = val;
    sm83.inc_pc(2);
    Ok(())
}

fn exec_ld_to_d_from_immediate(sm83: &mut SM83, mc: &mut MemoryController) -> (res: Result<(), ExecErr>)
    requires
        !(sem_ld_imm8(old(sm83).reg, old(mc)@, Reg8::D) is Panic),
    ensures
        completes(sem_ld_imm8(old(sm83).reg, old(mc)@, Reg8::D), *old(sm83), *final(sm83), final(mc)@, res),
{
    let val = match mc.read(sm83.pc() + 1) {
        Ok(v) => v,
        Err(e) => return Err(e),
    };
    sm83.reg.d = val;
    sm83.inc_pc(2);
    Ok(())
}

fn exec_ld_to_a_from_deref_de(sm83: &mut SM83, mc: &mut MemoryController) -> (res: Result<(), ExecErr>)
    requires
        !(sem_ld_to_a_from_deref_de(old(sm83).reg, old(mc)@) is Panic),
    ensures
        completes(sem_ld_to_a_from_deref_de(old(sm83).reg, old(mc)@), *old(sm83), *final(sm83), final(mc)@, res),
{
    let addr = sm83.reg.de();
    let v = match mc.read(addr) {
        Ok(v) => v,
        Err(e) => return Err(e),
    };
    sm83.reg.a = v;
    sm83.inc_pc(1);
    Ok(())
}

fn exec_nop(sm83: &mut SM83, _mc: &mut MemoryController) -> (res: Result<(), ExecErr>)
    requires
        !(sem_nop(old(sm83).reg, old(_mc)@) is Panic),
    ensures
        completes(sem_nop(old(sm83).reg, old(_mc)@), *old(sm83), *final(sm83), final(_mc)@, res),
{
    sm83.inc_pc(1);
    Ok(())
}

fn exec_ld_to_de_from_immediate(sm83: &mut SM83, mc: &mut MemoryController) -> (res: Result<(), ExecErr>)
    requires
        !(sem_ld_imm16(old(sm83).reg, old(mc)@, Reg8::D, Reg8::E) is Panic),
    ensures
        completes(sem_ld_imm16(old(sm83).reg, old(mc)@, Reg8::D, Reg8::E), *old(sm83), *final(sm83), final(mc)@, res),
{
    let lsb = match mc.read(sm83.pc() + 1) {
        Ok(v) => v,
        Err(e) => return Err(e),
    };
    let msb = match mc.read(sm83.pc() + 2) {
        Ok(v) => v,
        Err(e) => return Err(e),
    };
    sm83.reg.d = msb;
    sm83.reg.e = lsb;
    sm83.inc_pc(3);
    Ok(())
}

fn exec_ld_to_hl_from_immediate(sm83: &mut SM83, mc: &mut MemoryController) -> (res: Result<(), ExecErr>)
    requires
        !(sem_ld_imm16(old(sm83).reg, old(mc)@, Reg8::H, Reg8::L) is Panic),
    ensures
        completes(sem_ld_imm16(old(sm83).reg, old(mc)@, Reg8::H, Reg8::L), *old(sm83), *final(sm83), final(mc)@, res),
{
    let lsb = match mc.read(sm83.pc() + 1) {
        Ok(v) => v,
        Err(e) => return Err(e),
    };
    let msb = match mc.read(sm83.pc() + 2) {
        Ok(v) => v,
        Err(e) => return Err(e),
    };
    sm83.reg.h = msb;
    sm83.reg.l = lsb;
    sm83.inc_pc(3);
    Ok(())
}

fn exec_ld_to_bc_from_immediate(sm83: &mut SM83, mc: &mut MemoryController) -> (res: Result<(), ExecErr>)
    requires
        !(sem_ld_imm16(old(sm83).reg, old(mc)@, Reg8::B, Reg8::C) is Panic),
    ensures
        completes(sem_ld_imm16(old(sm83).reg, old(mc)@, Reg8::B, Reg8::C), *old(sm83), *final(sm83), final(mc)@, res),
{
    let lsb = match mc.read(sm83.pc() + 1) {
        Ok(v) => v,
        Err(e) => return Err(e),
    };
    let msb = match mc.read(sm83.pc() + 2) {
        Ok(v) => v,
        Err(e) => return Err(e),
    };
    sm83.reg.b = msb;
    sm83.reg.c = lsb;
    sm83.inc_pc(3);
    Ok(())
}

fn exec_ld_to_sp_from_immediate(sm83: &mut SM83, mc: &mut MemoryController) -> (res: Result<(), ExecErr>)
    requires
        !(sem_ld_to_sp_from_immediate(old(sm83).reg, old(mc)@) is Panic),
    ensures
        completes(sem_ld_to_sp_from_immediate(old(sm83).reg, old(mc)@), *old(sm83), *final(sm83), final(mc)@, res),
{
    let v = match mc.read_u16(sm83.pc() + 1) {
        Ok(v) => v,
        Err(e) => return Err(e),
    };
    sm83.reg.sp = v;
    sm83.inc_pc(3);
    Ok(())
}

fn exec_ld_to_deref_label_from_a(sm83: &mut SM83, mc: &mut MemoryController) -> (res: Result<(), ExecErr>)
    requires
        !(sem_ld_to_deref_label_from_a(old(sm83).reg, old(mc)@) is Panic),
    ensures
        completes(sem_ld_to_deref_label_from_a(old(sm83).reg, old(mc)@), *old(sm83), *final(sm83), final(mc)@, res),
{
    let addr = match mc.read_u16(sm83.pc() + 1) {
        Ok(v) => v,
        Err(e) => return Err(e),
    };
    match mc.write(addr, sm83.reg.a) {
        Ok(()) => {},
        Err(e) => return Err(e),
    }
    sm83.inc_pc(3);
    Ok(())
}

fn exec_ld_to_deref_hl_from_immediate(sm83: &mut SM83, mc: &mut MemoryController) -> (res: Result<(), ExecErr>)
    requires
        !(sem_ld_to_deref_hl_from_immediate(old(sm83).reg, old(mc)@) is Panic),
    ensures
        completes(sem_ld_to_deref_hl_from_immediate(old(sm83).reg, old(mc)@), *old(sm83), *final(sm83), final(mc)@, res),
{
    let addr = sm83.reg.hl();
    let v = match mc.read(sm83.pc() + 1) {
        Ok(v) => v,
        Err(e) => return Err(e),
    };
    match mc.write(addr, v) {
        Ok(()) => {},
        Err(e) => return Err(e),
    }
    sm83.inc_pc(2);
    Ok(())
}

fn exec_ld_to_deref_hl_dec_from_a(sm83: &mut SM83, mc: &mut MemoryController) -> (res: Result<(), ExecErr>)
    requires
        !(sem_ld_to_deref_hl_step_from_a(old(sm83).reg, old(mc)@, -1) is Panic),
    ensures
        completes(sem_ld_to_deref_hl_step_from_a(old(sm83).reg, old(mc)@, -1), *old(sm83), *final(sm83), final(mc)@, res),
{
    let addr = sm83.reg.hl();
    match mc.write(addr, sm83.reg.a) {
        Ok(()) => {},
        Err(e) => return Err(e),
    }
    sm83.reg.set_hl(addr - 1);
    sm83.inc_pc(1);
    Ok(())
}

fn exec_ld_to_deref_hl_inc_from_a(sm83: &mut SM83, mc: &mut MemoryController) -> (res: Result<(), ExecErr>)
    requires
        !(sem_ld_to_deref_hl_step_from_a(old(sm83).reg, old(mc)@, 1) is Panic),
    ensures
        completes(sem_ld_to_deref_hl_step_from_a(old(sm83).reg, old(mc)@, 1), *old(sm83), *final(sm83), final(mc)@, res),
{
    let addr = sm83.reg.hl();
    match mc.write(addr, sm83.reg.a) {
        Ok(()) => {},
        Err(e) => return Err(e),
    }
    sm83.reg.set_hl(addr + 1);
    sm83.inc_pc(1);
    Ok(())
}

fn exec_ld_to_a_from_deref_label(sm83: &mut SM83, mc: &mut MemoryController) -> (res: Result<(), ExecErr>)
    requires
        !(sem_ld_to_a_from_deref_label(old(sm83).reg, old(mc)@) is Panic),
    ensures
        completes(sem_ld_to_a_from_deref_label(old(sm83).reg, old(mc)@), *old(sm83), *final(sm83), final(mc)@, res),
{
    let addr = match mc.read_u16(sm83.pc() + 1) {
        Ok(v) => v,
        Err(e) => return Err(e),
    };
    let v = match mc.read(addr) {
        Ok(v) => v,
        Err(e) => return Err(e),
    };
    sm83.reg.a = v;
    sm83.inc_pc(3);
    Ok(())
}

fn exec_ld_to_a_from_deref_hl_inc(sm83: &mut SM83, mc: &mut MemoryController) -> (res: Result<(), ExecErr>)
    requires
        !(sem_ld_to_a_from_deref_hl_inc(old(sm83).reg, old(mc)@) is Panic),
    ensures
        completes(sem_ld_to_a_from_deref_hl_inc(old(sm83).reg, old(mc)@), *old(sm83), *final(sm83), final(mc)@, res),
{
    let addr = sm83.reg.hl();
    let v = match mc.read(addr) {
        Ok(v) => v,
        Err(e) => return Err(e),
    };
    sm83.reg.a = v;
    sm83.reg.set_hl(addr + 1);
    sm83.inc_pc(1);
    Ok(())
}

fn exec_ld_to_a_from_b(sm83: &mut SM83, _mc: &mut MemoryController) -> (res: Result<(), ExecErr>)
    requires
        !(sem_ld_r_r(old(sm83).reg, old(_mc)@, Reg8::A, Reg8::B) is Panic),
    ensures
        completes(sem_ld_r_r(old(sm83).reg, old(_mc)@, Reg8::A, Reg8::B), *old(sm83), *final(sm83), final(_mc)@, res),
{
    sm83.reg.a = sm83.reg.b;
    sm83.inc_pc(1);
    Ok(())
}

fn exec_ld_to_a_from_c(sm83: &mut SM83, _mc: &mut MemoryController) -> (res: Result<(), ExecErr>)
    requires
        !(sem_ld_r_r(old(sm83).reg, old(_mc)@, Reg8::A, Reg8::C) is Panic),
    ensures
        completes(sem_ld_r_r(old(sm83).reg, old(_mc)@, Reg8::A, Reg8::C), *old(sm83), *final(sm83), final(_mc)@, res),
{
    sm83.reg.a = sm83.reg.c;
    sm83.inc_pc(1);
    Ok(())
}

fn exec_ld_to_b_from_a(sm83: &mut SM83, _mc: &mut MemoryController) -> (res: Result<(), ExecErr>)
    requires
        !(sem_ld_r_r(old(sm83).reg, old(_mc)@, Reg8::B, Reg8::A) is Panic),
    ensures
        completes(sem_ld_r_r(old(sm83).reg, old(_mc)@, Reg8::B, Reg8::A), *old(sm83), *final(sm83), final(_mc)@, res),
{
    sm83.reg.b = sm83.reg.a;
    sm83.inc_pc(1);
    Ok(())
}

fn exec_ld_to_c_from_a(sm83: &mut SM83, _mc: &mut MemoryController) -> (res: Result<(), ExecErr>)
    requires
        !(sem_ld_r_r(old(sm83).reg, old(_mc)@, Reg8::C, Reg8::A) is Panic),
    ensures
        completes(sem_ld_r_r(old(sm83).reg, old(_mc)@, Reg8::C, Reg8::A), *old(sm83), *final(sm83), final(_mc)@, res),
{
    sm83.reg.c = sm83.reg.a;
    sm83.inc_pc(1);
    Ok(())
}

fn exec_ld_to_e_from_a(sm83: &mut SM83, _mc: &mut MemoryController) -> (res: Result<(), ExecErr>)
    requires
        !(sem_ld_r_r(old(sm83).reg, old(_mc)@, Reg8::E, Reg8::A) is Panic),
    ensures
        completes(sem_ld_r_r(old(sm83).reg, old(_mc)@, Reg8::E, Reg8::A), *old(sm83), *final(sm83), final(_mc)@, res),
{
    sm83.reg.e = sm83.reg.a;
    sm83.inc_pc(1);
    Ok(())
}

fn exec_ldh_to_immediate_from_a(sm83: &mut SM83, mc: &mut MemoryController) -> (res: Result<(), ExecErr>)
    requires
        !(sem_ldh_to_immediate_from_a(old(sm83).reg, old(mc)@) is Panic),
    ensures
        completes(sem_ldh_to_immediate_from_a(old(sm83).reg, old(mc)@), *old(sm83), *final(sm83), final(mc)@, res),
{
    let im = match mc.read(sm83.pc() + 1) {
        Ok(v) => v,
        Err(e) => return Err(e),
    };
    let addr = 0xFF00 | im as u16;
    assert(0xFF00 | im as u16 == 0xFF00 + im) by (bit_vector);
    let a = sm83.reg.a;
    match write_high_mem(sm83, mc, addr, a) {
        Ok(()) => {},
        Err(e) => return Err(e),
    }
    sm83.inc_pc(2);
    Ok(())
}

fn exec_ldh_to_a_from_immediate(sm83: &mut SM83, mc: &mut MemoryController) -> (res: Result<(), ExecErr>)
    requires
        !(sem_ldh_to_a_from_immediate(old(sm83).reg, old(mc)@) is Panic),
    ensures
        completes(sem_ldh_to_a_from_immediate(old(sm83).reg, old(mc)@), *old(sm83), *final(sm83), final(mc)@, res),
{
    let im = match mc.read(sm83.pc() + 1) {
        Ok(v) => v,
        Err(e) => return Err(e),
    };
    let addr = 0xFF00 | im as u16;
    assert(0xFF00 | im as u16 == 0xFF00 + im) by (bit_vector);
    let v = match read_high_mem(sm83, mc, addr) {
        Ok(v) => v,
        Err(e) => return Err(e),
    };
    sm83.reg.a = v;
    sm83.inc_pc(2);
    Ok(())
}

fn exec_ldh_to_deref_c_from_a(sm83: &mut SM83, mc: &mut MemoryController) -> (res: Result<(), ExecErr>)
    requires
        !(sem_ldh_to_deref_c_from_a(old(sm83).reg, old(mc)@) is Panic),
    ensures
        completes(sem_ldh_to_deref_c_from_a(old(sm83).reg, old(mc)@), *old(sm83), *final(sm83), final(mc)@, res),
{
    let c = sm83.reg.c;
    let addr = 0xFF00 | c as u16;
    assert(0xFF00 | c as u16 == 0xFF00 + c) by (bit_vector);
    let a = sm83.reg.a;
    match write_high_mem(sm83, mc, addr, a) {
        Ok(()) => {},
        Err(e) => return Err(e),
    }
    sm83.inc_pc(1);
    Ok(())
}

/// Writes to the high page; 0xFFFF is the interrupt enable register.
fn write_high_mem(sm83: &mut SM83, mc: &mut MemoryController, addr: u16, v: u8) -> (res: Result<(), ExecErr>)
    ensures
        addr == 0xFFFF ==> res == Ok::<(), ExecErr>(()) && final(sm83).reg == (Register { ie: v, ..old(sm83).reg }) && final(mc)@ == old(mc)@,
        addr != 0xFFFF ==> res == MemView::write_result(addr) && final(sm83).reg == old(sm83).reg && final(mc)@ == old(mc)@.write(addr, v),
        final(sm83).spec_halted() == old(sm83).spec_halted(),
{
    if addr == 0xFFFF {
        sm83.reg.ie = v;
    } else {
        match mc.write(addr, v) {
            Ok(()) => {},
            Err(e) => return Err(e),
        }
    }
    Ok(())
}

/// Reads from the high page; 0xFFFF is the interrupt enable register.
fn read_high_mem(sm83: &mut SM83, mc: &mut MemoryController, addr: u16) -> (res: Result<u8, ExecErr>)
    requires
        addr == 0xFFFF || old(mc)@.read_defined(addr),
    ensures
        addr == 0xFFFF ==> res == Ok::<u8, ExecErr>(old(sm83).reg.ie),
        addr != 0xFFFF ==> res == old(mc)@.read(addr),
        *final(sm83) == *old(sm83),
        final(mc)@ == old(mc)@,
{
    if addr == 0xFFFF {
        Ok(sm83.reg.ie)
    } else {
        mc.read(addr)
    }
}

fn exec_inc_c(sm83: &mut SM83, _mc: &mut MemoryController) -> (res: Result<(), ExecErr>)
    requires
        !(sem_inc_c(old(sm83).reg, old(_mc)@) is Panic),
    ensures
        completes(sem_inc_c(old(sm83).reg, old(_mc)@), *old(sm83), *final(sm83), final(_mc)@, res),
{
    let c = sm83.reg.c;
    let c_inc: u8 = if c == 0xFF { 0 } else { c + 1 };
    let half_carry = half_carry_inc(c);
    sm83.reg.c = c_inc;
    sm83.reg.set_flag(Z, (c_inc == 0) as u8);
    sm83.reg.set_flag(N, 0);
    sm83.reg.set_flag(H, half_carry);
    sm83.inc_pc(1);
    Ok(())
}

fn exec_inc_de(sm83: &mut SM83, _mc: &mut MemoryController) -> (res: Result<(), ExecErr>)
    requires
        !(sem_inc_de(old(sm83).reg, old(_mc)@) is Panic),
    ensures
        completes(sem_inc_de(old(sm83).reg, old(_mc)@), *old(sm83), *final(sm83), final(_mc)@, res),
{
    let de = sm83.reg.de();
    let de_inc: u16 = if de == 0xFFFF { 0 } else { de + 1 };
    sm83.reg.set_de(de_inc);
    sm83.inc_pc(1);
    Ok(())
}

fn exec_dec_bc(sm83: &mut SM83, _mc: &mut MemoryController) -> (res: Result<(), ExecErr>)
    requires
        !(sem_dec_bc(old(sm83).reg, old(_mc)@) is Panic),
    ensures
        completes(sem_dec_bc(old(sm83).reg, old(_mc)@), *old(sm83), *final(sm83), final(_mc)@, res),
{
    let bc = sm83.reg.bc();
    let bc_dec: u16 = if bc == 0 { 0xFFFF } else { bc - 1 };
    sm83.reg.set_bc(bc_dec);
    sm83.inc_pc(1);
    Ok(())
}

fn exec_dec_b(sm83: &mut SM83, _mc: &mut MemoryController) -> (res: Result<(), ExecErr>)
    requires
        !(sem_dec8(old(sm83).reg, old(_mc)@, Reg8::B) is Panic),
    ensures
        completes(sem_dec8(old(sm83).reg, old(_mc)@, Reg8::B), *old(sm83), *final(sm83), final(_mc)@, res),
{
    let v = sm83.reg.b;
    let v_dec: u8 = if v == 0 { 0xFF } else { v - 1 };
    sm83.reg.b = v_dec;
    sm83.reg.set_flag(Z, (v_dec == 0) as u8);
    sm83.reg.set_flag(N, 1);
    sm83.reg.set_flag(H, half_carry_dec(v_dec));
    sm83.inc_pc(1);
    Ok(())
}

fn exec_dec_c(sm83: &mut SM83, _mc: &mut MemoryController) -> (res: Result<(), ExecErr>)
    requires
        !(sem_dec8(old(sm83).reg, old(_mc)@, Reg8::C) is Panic),
    ensures
        completes(sem_dec8(old(sm83).reg, old(_mc)@, Reg8::C), *old(sm83), *final(sm83), final(_mc)@, res),
{
    let v = sm83.reg.c;
    let v_dec: u8 = if v == 0 { 0xFF } else { v - 1 };
    sm83.reg.c = v_dec;
    sm83.reg.set_flag(Z, (v_dec == 0) as u8);
    sm83.reg.set_flag(N, 1);
    sm83.reg.set_flag(H, half_carry_dec(v_dec));
    sm83.inc_pc(1);
    Ok(())
}

fn exec_or_a_b(sm83: &mut SM83, _mc: &mut MemoryController) -> (res: Result<(), ExecErr>)
    requires
        !(sem_or_a(old(sm83).reg, old(_mc)@, Reg8::B) is Panic),
    ensures
        completes(sem_or_a(old(sm83).reg, old(_mc)@, Reg8::B), *old(sm83), *final(sm83), final(_mc)@, res),
{
    sm83.reg.a = sm83.reg.a | sm83.reg.b;
    sm83.reg.set_flag(Z, (sm83.reg.a == 0) as u8);
    sm83.reg.set_flag(N, 0);
    sm83.reg.set_flag(H, 0);
    sm83.reg.set_flag(C, 0);
    sm83.inc_pc(1);
    Ok(())
}

fn exec_or_a_c(sm83: &mut SM83, _mc: &mut MemoryController) -> (res: Result<(), ExecErr>)
    requires
        !(sem_or_a(old(sm83).reg, old(_mc)@, Reg8::C) is Panic),
    ensures
        completes(sem_or_a(old(sm83).reg, old(_mc)@, Reg8::C), *old(sm83), *final(sm83), final(_mc)@, res),
{
    sm83.reg.a = sm83.reg.a | sm83.reg.c;
    sm83.reg.set_flag(Z, (sm83.reg.a == 0) as u8);
    sm83.reg.set_flag(N, 0);
    sm83.reg.set_flag(H, 0);
    sm83.reg.set_flag(C, 0);
    sm83.inc_pc(1);
    Ok(())
}

fn exec_and_immediate(sm83: &mut SM83, mc: &mut MemoryController) -> (res: Result<(), ExecErr>)
    requires
        !(sem_and_immediate(old(sm83).reg, old(mc)@) is Panic),
    ensures
        completes(sem_and_immediate(old(sm83).reg, old(mc)@), *old(sm83), *final(sm83), final(mc)@, res),
{
    let im = match mc.read(sm83.pc() + 1) {
        Ok(v) => v,
        Err(e) => return Err(e),
    };
    sm83.reg.a = sm83.reg.a & im;
    sm83.reg.set_flag(Z, (sm83.reg.a == 0) as u8);
    sm83.reg.set_flag(N, 0);
    sm83.reg.set_flag(H, 1);
    sm83.reg.set_flag(C, 0);
    sm83.inc_pc(2);
    Ok(())
}

fn exec_and_c(sm83: &mut SM83, _mc: &mut MemoryController) -> (res: Result<(), ExecErr>)
    requires
        !(sem_and_c(old(sm83).reg, old(_mc)@) is Panic),
    ensures
        completes(sem_and_c(old(sm83).reg, old(_mc)@), *old(sm83), *final(sm83), final(_mc)@, res),
{
    sm83.reg.a = sm83.reg.a & sm83.reg.c;
    sm83.reg.set_flag(Z, (sm83.reg.a == 0) as u8);
    sm83.reg.set_flag(N, 0);
    sm83.reg.set_flag(H, 1);
    sm83.reg.set_flag(C, 0);
    sm83.inc_pc(1);
    Ok(())
}

fn exec_xor_a_a(sm83: &mut SM83, _mc: &mut MemoryController) -> (res: Result<(), ExecErr>)
    requires
        !(sem_xor_a_a(old(sm83).reg, old(_mc)@) is Panic),
    ensures
        completes(sem_xor_a_a(old(sm83).reg, old(_mc)@), *old(sm83), *final(sm83), final(_mc)@, res),
{
    sm83.reg.a = 0;
    sm83.reg.set_flag(Z, 0);
    sm83.reg.set_flag(N, 0);
    sm83.reg.set_flag(H, 0);
    sm83.reg.set_flag(C, 0);
    sm83.inc_pc(1);
    Ok(())
}

fn exec_xor_a_c(sm83: &mut SM83, _mc: &mut MemoryController) -> (res: Result<(), ExecErr>)
    requires
        !(sem_xor_a_c(old(sm83).reg, old(_mc)@) is Panic),
    ensures
        completes(sem_xor_a_c(old(sm83).reg, old(_mc)@), *old(sm83), *final(sm83), final(_mc)@, res),
{
    sm83.reg.a = sm83.reg.a ^ sm83.reg.c;
    sm83.reg.set_flag(Z, (sm83.reg.a == 0) as u8);
    sm83.reg.set_flag(N, 0);
    sm83.reg.set_flag(H, 0);
    sm83.reg.set_flag(C, 0);
    sm83.inc_pc(1);
    Ok(())
}

fn exec_cpl(sm83: &mut SM83, _mc: &mut MemoryController) -> (res: Result<(), ExecErr>)
    requires
        !(sem_cpl(old(sm83).reg, old(_mc)@) is Panic),
    ensures
        completes(sem_cpl(old(sm83).reg, old(_mc)@), *old(sm83), *final(sm83), final(_mc)@, res),
{
    sm83.reg.a = !sm83.reg.a;
    sm83.reg.set_flag(N, 1);
    sm83.reg.set_flag(H, 1);
    sm83.inc_pc(1);
    Ok(())
}

fn exec_rrca(sm83: &mut SM83, _mc: &mut MemoryController) -> (res: Result<(), ExecErr>)
    requires
        !(sem_rrca(old(sm83).reg, old(_mc)@) is Panic),
    ensures
        completes(sem_rrca(old(sm83).reg, old(_mc)@), *old(sm83), *final(sm83), final(_mc)@, res),
{
    let a = sm83.reg.a;
    let c = a & 0x01;
    let rotated = (a >> 1) | (a << 7);
    assert(a & 0x01 == a % 2 && (a >> 1) | (a << 7) == a / 2 + (a % 2) * 128) by (bit_vector);
    sm83.reg.a = rotated;
    sm83.reg.set_flag(Z, 0);
    sm83.reg.set_flag(N, 0);
    sm83.reg.set_flag(H, 0);
    sm83.reg.set_flag(C, c);
    sm83.inc_pc(1);
    Ok(())
}

fn exec_call(sm83: &mut SM83, mc: &mut MemoryController) -> (res: Result<(), ExecErr>)
    requires
        !(sem_call(old(sm83).reg, old(mc)@) is Panic),
    ensures
        completes(sem_call(old(sm83).reg, old(mc)@), *old(sm83), *final(sm83), final(mc)@, res),
{
    let addr = match mc.read_u16(sm83.pc() + 1) {
        Ok(v) => v,
        Err(e) => return Err(e),
    };
    call_to_addr(sm83, mc, addr, 3)
}

/// RET: pops the return address (low byte first) into the program counter.
pub fn exec_ret(sm83: &mut SM83, mc: &mut MemoryController) -> (res: Result<(), ExecErr>)
    requires
        !(sem_ret(old(sm83).reg, old(mc)@) is Panic),
    ensures
        completes(sem_ret(old(sm83).reg, old(mc)@), *old(sm83), *final(sm83), final(mc)@, res),
{
    let lsb = match mc.read(sm83.reg.sp) {
        Ok(v) => v,
        Err(e) => return Err(e),
    };
    sm83.inc_sp(1);
    let msb = match mc.read(sm83.reg.sp) {
        Ok(v) => v,
        Err(e) => return Err(e),
    };
    sm83.inc_sp(1);
    let addr = u16_from_le(lsb, msb);
    sm83.set_pc(addr);
    Ok(())
}

fn exec_rst_28(sm83: &mut SM83, mc: &mut MemoryController) -> (res: Result<(), ExecErr>)
    requires
        !(sem_rst_28(old(sm83).reg, old(mc)@) is Panic),
    ensures
        completes(sem_rst_28(old(sm83).reg, old(mc)@), *old(sm83), *final(sm83), final(mc)@, res),
{
    call_to_addr(sm83, mc, 0x28, 1)
}

fn exec_pop_hl(sm83: &mut SM83, mc: &mut MemoryController) -> (res: Result<(), ExecErr>)
    requires
        !(sem_pop_hl(old(sm83).reg, old(mc)@) is Panic),
    ensures
        completes(sem_pop_hl(old(sm83).reg, old(mc)@), *old(sm83), *final(sm83), final(mc)@, res),
{
    let lsb = match mc.read(sm83.reg.sp) {
        Ok(v) => v,
        Err(e) => return Err(e),
    };
    sm83.inc_sp(1);
    let msb = match mc.read(sm83.reg.sp) {
        Ok(v) => v,
        Err(e) => return Err(e),
    };
    sm83.inc_sp(1);
    let addr = u16_from_le(lsb, msb);
    sm83.reg.set_hl(addr);
    sm83.inc_pc(1);
    Ok(())
}

/// Pushes the address `op_size` bytes after the current instruction and
/// jumps to `addr`.
pub fn call_to_addr(sm83: &mut SM83, mc: &mut MemoryController, addr: u16, op_size: u16) -> (res: Result<(), ExecErr>)
    requires
        !(call_to(old(sm83).reg, old(mc)@, addr, op_size as int) is Panic),
    ensures
        completes(call_to(old(sm83).reg, old(mc)@, addr, op_size as int), *old(sm83), *final(sm83), final(mc)@, res),
{
    let pc = u16_to_le(sm83.pc() + op_size);
    sm83.dec_sp(1);
    match mc.write(sm83.reg.sp, pc.1) {  // MSB first, as stack is _decreased_
        Ok(()) => {},
        Err(e) => return Err(e),
    }
    sm83.dec_sp(1);
    match mc.write(sm83.reg.sp, pc.0) {
        Ok(()) => {},
        Err(e) => return Err(e),
    }
    sm83.set_pc(addr);
    Ok(())
}

fn exec_prefix(sm83: &mut SM83, mc: &mut MemoryController) -> (res: Result<(), ExecErr>)
    requires
        !(sem_prefix(old(sm83).reg, old(mc)@) is Panic),
    ensures
        completes(sem_prefix(old(sm83).reg, old(mc)@), *old(sm83), *final(sm83), final(mc)@, res),
{
    let op_code = match mc.read(sm83.pc() + 1) {
        Ok(v) => v,
        Err(e) => return Err(e),
    };
    if op_code == 0x37 {
        exec_prefix_swap_a(sm83);
    } else {
        return exec_prefix_invalid(sm83);
    }
    sm83.inc_pc(2);
    Ok(())
}

fn exec_prefix_invalid(_sm83: &mut SM83) -> (res: Result<(), ExecErr>)
    ensures
        res == Err::<(), ExecErr>(ExecErr::GeneralError("invalid prefix instruction")),
        *final(_sm83) == *old(_sm83),
{
    Err(ExecErr::GeneralError("invalid prefix instruction"))
}

/// SWAP A: exchanges the two nibbles of `a`.
fn exec_prefix_swap_a(sm83: &mut SM83)
    ensures
        ({
            let a = ((old(sm83).reg.a % 16) * 16 + old(sm83).reg.a / 16) as u8;
            final(sm83).reg == (Register { a, f: with_flags(old(sm83).reg.f, bool_u8(a == 0), 0, 0, 0), ..old(sm83).reg })
        }),
        final(sm83).spec_halted() == old(sm83).spec_halted(),
{
    let a = sm83.reg.a;
    let h = a & 0xF0;
    let l = a & 0x0F;
    let swapped = (l << 4) | (h >> 4);
    assert((a & 0x0F) << 4 | (a & 0xF0) >> 4 == (a % 16) * 16 + a / 16) by (bit_vector);
    sm83.reg.a = swapped;
    sm83.reg.set_flag(Z, (sm83.reg.a == 0) as u8);
    sm83.reg.set_flag(N, 0);
    sm83.reg.set_flag(H, 0);
    sm83.reg.set_flag(C, 0);
}

/// `pc + rel` (rel taken as a signed byte), saturating at the ends of the
/// address space.
fn jump_target_exec(pc: u16, rel: u8) -> (t: u16)
    ensures
        t == jump_target(pc, rel),
{
    let s: i32 = if rel < 128 { rel as i32 } else { rel as i32 - 256 };
    let t: i32 = pc as i32 + s;
    if t < 0 {
        0
    } else if t > 0xFFFF {
        0xFFFF
    } else {
        t as u16
    }
}

/// 1 when the low nibble of the decremented value wrapped around.
pub fn half_carry_dec(v: u8) -> (r: u8)
    ensures
        r == bool_u8(v % 16 == 15),
{
    assert(v & 0x0F == v % 16) by (bit_vector);
    if v & 0x0F == 0x0F { 1 } else { 0 }
}

/// 1 when incrementing `v_before_inc` carries out of the low nibble.
pub fn half_carry_inc(v_before_inc: u8) -> (r: u8)
    ensures
        r == bool_u8(v_before_inc % 16 == 15),
{
    assert(v_before_inc & 0x0F == v_before_inc % 16) by (bit_vector);
    ((v_before_inc & 0x0F) + 1 > 0x0F) as u8
}

/// Runs the executor of the instruction with op code `op`.
#[verifier::rlimit(50)]
pub fn exec_op(op: u8, sm83: &mut SM83, mc: &mut MemoryController) -> (res: Result<(), ExecErr>)
    requires
        !(sem_instr(op, old(sm83).reg, old(mc)@) is Panic),
    ensures
        completes(sem_instr(op, old(sm83).reg, old(mc)@), *old(sm83), *final(sm83), final(mc)@, res),
{
    match op {
        0x00 => exec_nop(sm83, mc),
        0x01 => exec_ld_to_bc_from_immediate(sm83, mc),
        0x05 => exec_dec_b(sm83, mc),
        0x06 => exec_ld_to_b_from_immediate(sm83, mc),
        0x0B => exec_dec_bc(sm83, mc),
        0x0C => exec_inc_c(sm83, mc),
        0x0D => exec_dec_c(sm83, mc),
        0x0E => exec_ld_to_c_from_immediate(sm83, mc),
        0x0F => exec_rrca(sm83, mc),
        0x11 => exec_ld_to_de_from_immediate(sm83, mc),
        0x13 => exec_inc_de(sm83, mc),
        0x16 => exec_ld_to_d_from_immediate(sm83, mc),
        0x18 => exec_jr(sm83, mc),
        0x1A => exec_ld_to_a_from_deref_de(sm83, mc),
        0x20 => exec_jr_if_nz(sm83, mc),
        0x21 => exec_ld_to_hl_from_immediate(sm83, mc),
        0x22 => exec_ld_to_deref_hl_inc_from_a(sm83, mc),
        0x2A => exec_ld_to_a_from_deref_hl_inc(sm83, mc),
        0x2F => exec_cpl(sm83, mc),
        0x31 => exec_ld_to_sp_from_immediate(sm83, mc),
        0x32 => exec_ld_to_deref_hl_dec_from_a(sm83, mc),
        0x36 => exec_ld_to_deref_hl_from_immediate(sm83, mc),
        0x38 => exec_jr_if_c(sm83, mc),
        0x3E => exec_ld_to_a_from_immediate(sm83, mc),
        0x47 => exec_ld_to_b_from_a(sm83, mc),
        0x4F => exec_ld_to_c_from_a(sm83, mc),
        0x5F => exec_ld_to_e_from_a(sm83, mc),
        0x78 => exec_ld_to_a_from_b(sm83, mc),
        0x79 => exec_ld_to_a_from_c(sm83, mc),
        0x87 => exec_add_a_a(sm83, mc),
        0xA1 => exec_and_c(sm83, mc),
        0xA9 => exec_xor_a_c(sm83, mc),
        0xAF => exec_xor_a_a(sm83, mc),
        0xB0 => exec_or_a_b(sm83, mc),
        0xB1 => exec_or_a_c(sm83, mc),
        0xC3 => exec_jp(sm83, mc),
        0xC9 => exec_ret(sm83, mc),
        0xCB => exec_prefix(sm83, mc),
        0xCD => exec_call(sm83, mc),
        0xE0 => exec_ldh_to_immediate_from_a(sm83, mc),
        0xE1 => exec_pop_hl(sm83, mc),
        0xE2 => exec_ldh_to_deref_c_from_a(sm83, mc),
        0xE6 => exec_and_immediate(sm83, mc),
        0xEA => exec_ld_to_deref_label_from_a(sm83, mc),
        0xEF => exec_rst_28(sm83, mc),
        0xF0 => exec_ldh_to_a_from_immediate(sm83, mc),
        0xF3 => exec_di(sm83, mc),
        0xFA => exec_ld_to_a_from_deref_label(sm83, mc),
        0xFB => exec_ei(sm83, mc),
        0xFE => exec_cp_immediate(sm83, mc),
        _ => exec_invalid(sm83, mc),
    }
}

} // verus!
