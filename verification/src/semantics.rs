//! The meaning of each SM83 instruction, as a function from the register
//! bank and the memory to the state after the instruction.
//!
//! An instruction either panics (an arithmetic overflow or an access the
//! hardware model does not cover) or completes with a new state and a
//! result; an instruction that fails part way keeps the effects made
//! before the failing access.

use vstd::prelude::*;
use crate::memory::MemView;
use crate::sm83::{ExecErr, Register, Z, N, H, C};

verus! {

/// What executing an instruction leads to.
pub ghost enum Outcome {
    Panic,
    Done { reg: Register, mem: MemView, res: Result<(), ExecErr> },
}

/// The 16-bit value of a register pair.
pub open spec fn pair(hi: u8, lo: u8) -> u16 {
    (hi * 256 + lo) as u16
}

/// `f` with `flag` set when `v` is non-zero and cleared otherwise.
pub open spec fn with_flag(f: u8, flag: u8, v: u8) -> u8 {
    if v == 0 {
        f & !flag
    } else {
        f | flag
    }
}

/// `f` with the four flags given (each a 0/non-zero value).
pub open spec fn with_flags(f: u8, z: u8, n: u8, h: u8, c: u8) -> u8 {
    with_flag(with_flag(with_flag(with_flag(f, Z, z), N, n), H, h), C, c)
}

/// `f` with the Z, N and H flags given; C unchanged.
pub open spec fn with_znh(f: u8, z: u8, n: u8, h: u8) -> u8 {
    with_flag(with_flag(with_flag(f, Z, z), N, n), H, h)
}

pub open spec fn bool_u8(b: bool) -> u8 {
    if b {
        1
    } else {
        0
    }
}

/// Reading the operand byte `i` bytes after the op code: `None` when
/// computing its address or reading it panics.
pub open spec fn operand(r: Register, m: MemView, i: int) -> Option<Result<u8, ExecErr>> {
    if r.pc + i > 0xFFFF || !m.read_defined((r.pc + i) as u16) {
        None
    } else {
        Some(m.read((r.pc + i) as u16))
    }
}

/// Reading the 16-bit operand after the op code: `None` when computing its
/// address overflows.
pub open spec fn operand_u16(r: Register, m: MemView) -> Option<Result<u16, ExecErr>> {
    if r.pc + 1 > 0xFFFF {
        None
    } else {
        Some(m.read_u16((r.pc + 1) as u16))
    }
}

/// Reading `addr`: `None` when the read panics.
pub open spec fn load(m: MemView, addr: u16) -> Option<Result<u8, ExecErr>> {
    if m.read_defined(addr) {
        Some(m.read(addr))
    } else {
        None
    }
}

pub open spec fn fail(r: Register, m: MemView, e: ExecErr) -> Outcome {
    Outcome::Done { reg: r, mem: m, res: Err(e) }
}

/// Completes with `r` after moving the program counter `n` bytes on.
pub open spec fn advance(r: Register, m: MemView, n: int) -> Outcome {
    if r.pc + n > 0xFFFF {
        Outcome::Panic
    } else {
        Outcome::Done { reg: Register { pc: (r.pc + n) as u16, ..r }, mem: m, res: Ok(()) }
    }
}

/// Writes `v` to `addr`, then continues with `then` unless the write fails.
pub open spec fn store(r: Register, m: MemView, addr: u16, v: u8, n: int) -> Outcome {
    match MemView::write_result(addr) {
        Err(e) => fail(r, m.write(addr, v), e),
        Ok(()) => advance(r, m.write(addr, v), n),
    }
}

/// The signed value of a relative jump byte.
pub open spec fn signed_byte(b: u8) -> int {
    if b < 128 {
        b as int
    } else {
        b - 256
    }
}

/// `pc + rel` clamped to the address space.
pub open spec fn jump_target(pc: u16, rel: u8) -> u16 {
    let t = pc + signed_byte(rel);
    if t < 0 {
        0
    } else if t > 0xFFFF {
        0xFFFF
    } else {
        t as u16
    }
}

pub open spec fn sem_invalid(r: Register, m: MemView) -> Outcome {
    match load(m, r.pc) {
        None => Outcome::Panic,
        Some(Err(e)) => fail(r, m, e),
        Some(Ok(op)) => fail(r, m, ExecErr::InvalidInstruction(op, r.pc)),
    }
}

pub open spec fn sem_nop(r: Register, m: MemView) -> Outcome {
    advance(r, m, 1)
}

pub open spec fn sem_ei(r: Register, m: MemView) -> Outcome {
    advance(Register { ime: true, ..r }, m, 1)
}

pub open spec fn sem_di(r: Register, m: MemView) -> Outcome {
    advance(Register { ime: false, ..r }, m, 1)
}

/// CP with an immediate operand: flags from `a - v`, `a` unchanged.
pub open spec fn sem_cp_immediate(r: Register, m: MemView) -> Outcome {
    match operand(r, m, 1) {
        None => Outcome::Panic,
        Some(Err(e)) => fail(r, m, e),
        Some(Ok(v)) => {
            let z = ((r.a - v) % 256) as u8;
            advance(
                Register { f: with_flags(r.f, z, 1, z & H, bool_u8(r.a < v)), ..r },
                m,
                2,
            )
        },
    }
}

pub open spec fn sem_add_a_a(r: Register, m: MemView) -> Outcome {
    let a = ((r.a + r.a) % 256) as u8;
    advance(
        Register {
            a,
            f: with_flags(r.f, bool_u8(a == 0), 0, bool_u8(r.a % 16 >= 8), bool_u8(r.a >= 128)),
            ..r
        },
        m,
        1,
    )
}

pub open spec fn sem_jp(r: Register, m: MemView) -> Outcome {
    match operand_u16(r, m) {
        None => Outcome::Panic,
        Some(Err(e)) => fail(r, m, e),
        Some(Ok(addr)) => Outcome::Done { reg: Register { pc: addr, ..r }, mem: m, res: Ok(()) },
    }
}

/// Relative jump, taken when `cond` holds of the flags.
pub open spec fn sem_jr_when(r: Register, m: MemView, take: bool) -> Outcome {
    match operand(r, m, 1) {
        None => Outcome::Panic,
        Some(Err(e)) => fail(r, m, e),
        Some(Ok(rel)) => if r.pc + 2 > 0xFFFF {
            Outcome::Panic
        } else {
            let next = (r.pc + 2) as u16;
            Outcome::Done {
                reg: Register { pc: if take { jump_target(next, rel) } else { next }, ..r },
                mem: m,
                res: Ok(()),
            }
        },
    }
}

pub open spec fn sem_jr(r: Register, m: MemView) -> Outcome {
    sem_jr_when(r, m, true)
}

pub open spec fn sem_jr_if_c(r: Register, m: MemView) -> Outcome {
    sem_jr_when(r, m, r.f & C != 0)
}

pub open spec fn sem_jr_if_nz(r: Register, m: MemView) -> Outcome {
    sem_jr_when(r, m, r.f & Z == 0)
}

/// Which 8-bit register an instruction names.
pub enum Reg8 {
    A,
    B,
    C,
    D,
    E,
    H,
    L,
}

pub open spec fn get8(r: Register, x: Reg8) -> u8 {
    match x {
        Reg8::A => r.a,
        Reg8::B => r.b,
        Reg8::C => r.c,
        Reg8::D => r.d,
        Reg8::E => r.e,
        Reg8::H => r.h,
        Reg8::L => r.l,
    }
}

pub open spec fn set8(r: Register, x: Reg8, v: u8) -> Register {
    match x {
        Reg8::A => Register { a: v, ..r },
        Reg8::B => Register { b: v, ..r },
        Reg8::C => Register { c: v, ..r },
        Reg8::D => Register { d: v, ..r },
        Reg8::E => Register { e: v, ..r },
        Reg8::H => Register { h: v, ..r },
        Reg8::L => Register { l: v, ..r },
    }
}

/// LD of an immediate byte into `x`.
pub open spec fn sem_ld_imm8(r: Register, m: MemView, x: Reg8) -> Outcome {
    match operand(r, m, 1) {
        None => Outcome::Panic,
        Some(Err(e)) => fail(r, m, e),
        Some(Ok(v)) => advance(set8(r, x, v), m, 2),
    }
}

/// LD of an immediate word (low byte first) into the pair `hi`, `lo`.
pub open spec fn sem_ld_imm16(r: Register, m: MemView, hi: Reg8, lo: Reg8) -> Outcome {
    match operand(r, m, 1) {
        None => Outcome::Panic,
        Some(Err(e)) => fail(r, m, e),
        Some(Ok(lsb)) => match operand(r, m, 2) {
            None => Outcome::Panic,
            Some(Err(e)) => fail(r, m, e),
            Some(Ok(msb)) => advance(set8(set8(r, hi, msb), lo, lsb), m, 3),
        },
    }
}

/// LD from register `src` to register `dst`.
pub open spec fn sem_ld_r_r(r: Register, m: MemView, dst: Reg8, src: Reg8) -> Outcome {
    advance(set8(r, dst, get8(r, src)), m, 1)
}

pub open spec fn sem_ld_to_a_from_deref_de(r: Register, m: MemView) -> Outcome {
    match load(m, pair(r.d, r.e)) {
        None => Outcome::Panic,
        Some(Err(e)) => fail(r, m, e),
        Some(Ok(v)) => advance(Register { a: v, ..r }, m, 1),
    }
}

pub open spec fn sem_ld_to_sp_from_immediate(r: Register, m: MemView) -> Outcome {
    match operand_u16(r, m) {
        None => Outcome::Panic,
        Some(Err(e)) => fail(r, m, e),
        Some(Ok(v)) => advance(Register { sp: v, ..r }, m, 3),
    }
}

pub open spec fn sem_ld_to_deref_label_from_a(r: Register, m: MemView) -> Outcome {
    match operand_u16(r, m) {
        None => Outcome::Panic,
        Some(Err(e)) => fail(r, m, e),
        Some(Ok(addr)) => store(r, m, addr, r.a, 3),
    }
}

pub open spec fn sem_ld_to_deref_hl_from_immediate(r: Register, m: MemView) -> Outcome {
    match operand(r, m, 1) {
        None => Outcome::Panic,
        Some(Err(e)) => fail(r, m, e),
        Some(Ok(v)) => store(r, m, pair(r.h, r.l), v, 2),
    }
}

/// LD (HL+/-) A: stores `a` at HL, then moves HL by `delta`.
pub open spec fn sem_ld_to_deref_hl_step_from_a(r: Register, m: MemView, delta: int) -> Outcome {
    let hl = pair(r.h, r.l);
    match MemView::write_result(hl) {
        Err(e) => fail(r, m.write(hl, r.a), e),
        Ok(()) => if hl + delta < 0 || hl + delta > 0xFFFF {
            Outcome::Panic
        } else {
            let n = (hl + delta) as u16;
            advance(Register { h: (n / 256) as u8, l: (n % 256) as u8, ..r }, m.write(hl, r.a), 1)
        },
    }
}

pub open spec fn sem_ld_to_a_from_deref_label(r: Register, m: MemView) -> Outcome {
    match operand_u16(r, m) {
        None => Outcome::Panic,
        Some(Err(e)) => fail(r, m, e),
        Some(Ok(addr)) => match load(m, addr) {
            None => Outcome::Panic,
            Some(Err(e)) => fail(r, m, e),
            Some(Ok(v)) => advance(Register { a: v, ..r }, m, 3),
        },
    }
}

pub open spec fn sem_ld_to_a_from_deref_hl_inc(r: Register, m: MemView) -> Outcome {
    let hl = pair(r.h, r.l);
    match load(m, hl) {
        None => Outcome::Panic,
        Some(Err(e)) => fail(r, m, e),
        Some(Ok(v)) => if hl == 0xFFFF {
            Outcome::Panic
        } else {
            let n = (hl + 1) as u16;
            advance(Register { a: v, h: (n / 256) as u8, l: (n % 256) as u8, ..r }, m, 1)
        },
    }
}

/// A write to the high page: 0xFFFF is the interrupt enable register.
pub open spec fn store_high(r: Register, m: MemView, addr: u16, v: u8, n: int) -> Outcome {
    if addr == 0xFFFF {
        advance(Register { ie: v, ..r }, m, n)
    } else {
        store(r, m, addr, v, n)
    }
}

pub open spec fn sem_ldh_to_immediate_from_a(r: Register, m: MemView) -> Outcome {
    match operand(r, m, 1) {
        None => Outcome::Panic,
        Some(Err(e)) => fail(r, m, e),
        Some(Ok(im)) => store_high(r, m, (0xFF00 + im) as u16, r.a, 2),
    }
}

pub open spec fn sem_ldh_to_a_from_immediate(r: Register, m: MemView) -> Outcome {
    match operand(r, m, 1) {
        None => Outcome::Panic,
        Some(Err(e)) => fail(r, m, e),
        Some(Ok(im)) => {
            let addr = (0xFF00 + im) as u16;
            if addr == 0xFFFF {
                advance(Register { a: r.ie, ..r }, m, 2)
            } else {
                match load(m, addr) {
                    None => Outcome::Panic,
                    Some(Err(e)) => fail(r, m, e),
                    Some(Ok(v)) => advance(Register { a: v, ..r }, m, 2),
                }
            }
        },
    }
}

pub open spec fn sem_ldh_to_deref_c_from_a(r: Register, m: MemView) -> Outcome {
    store_high(r, m, (0xFF00 + r.c) as u16, r.a, 1)
}

pub open spec fn sem_inc_c(r: Register, m: MemView) -> Outcome {
    let c = ((r.c + 1) % 256) as u8;
    advance(
        Register { c, f: with_znh(r.f, bool_u8(c == 0), 0, bool_u8(r.c % 16 == 15)), ..r },
        m,
        1,
    )
}

pub open spec fn sem_inc_de(r: Register, m: MemView) -> Outcome {
    let de = ((pair(r.d, r.e) + 1) % 65536) as u16;
    advance(Register { d: (de / 256) as u8, e: (de % 256) as u8, ..r }, m, 1)
}

pub open spec fn sem_dec_bc(r: Register, m: MemView) -> Outcome {
    let bc = ((pair(r.b, r.c) + 65535) % 65536) as u16;
    advance(Register { b: (bc / 256) as u8, c: (bc % 256) as u8, ..r }, m, 1)
}

/// DEC of an 8-bit register.
pub open spec fn sem_dec8(r: Register, m: MemView, x: Reg8) -> Outcome {
    let v = ((get8(r, x) + 255) % 256) as u8;
    advance(
        Register { f: with_znh(r.f, bool_u8(v == 0), 1, bool_u8(v % 16 == 15)), ..set8(r, x, v) },
        m,
        1,
    )
}

/// A logic operation's result `a`: Z from the result, H as given, N and C cleared.
pub open spec fn logic_result(r: Register, m: MemView, a: u8, h: u8, n: int) -> Outcome {
    advance(Register { a, f: with_flags(r.f, bool_u8(a == 0), 0, h, 0), ..r }, m, n)
}

pub open spec fn sem_or_a(r: Register, m: MemView, x: Reg8) -> Outcome {
    logic_result(r, m, r.a | get8(r, x), 0, 1)
}

pub open spec fn sem_and_immediate(r: Register, m: MemView) -> Outcome {
    match operand(r, m, 1) {
        None => Outcome::Panic,
        Some(Err(e)) => fail(r, m, e),
        Some(Ok(im)) => logic_result(r, m, r.a & im, 1, 2),
    }
}

pub open spec fn sem_and_c(r: Register, m: MemView) -> Outcome {
    logic_result(r, m, r.a & r.c, 1, 1)
}

/// XOR A A: `a` becomes zero and all flags are cleared.
pub open spec fn sem_xor_a_a(r: Register, m: MemView) -> Outcome {
    advance(Register { a: 0, f: with_flags(r.f, 0, 0, 0, 0), ..r }, m, 1)
}

pub open spec fn sem_xor_a_c(r: Register, m: MemView) -> Outcome {
    logic_result(r, m, r.a ^ r.c, 0, 1)
}

pub open spec fn sem_cpl(r: Register, m: MemView) -> Outcome {
    advance(Register { a: !r.a, f: with_flag(with_flag(r.f, N, 1), H, 1), ..r }, m, 1)
}

pub open spec fn sem_rrca(r: Register, m: MemView) -> Outcome {
    advance(
        Register {
            a: (r.a / 2 + (r.a % 2) * 128) as u8,
            f: with_flags(r.f, 0, 0, 0, r.a % 2),
            ..r
        },
        m,
        1,
    )
}

/// Pushes the address `op_size` bytes after the current instruction (high
/// byte first) and jumps to `addr`.
pub open spec fn call_to(r: Register, m: MemView, addr: u16, op_size: int) -> Outcome {
    if r.pc + op_size > 0xFFFF || r.sp < 1 {
        Outcome::Panic
    } else {
        let ret = (r.pc + op_size) as u16;
        let sp1 = (r.sp - 1) as u16;
        let r1 = Register { sp: sp1, ..r };
        let m1 = m.write(sp1, (ret / 256) as u8);
        match MemView::write_result(sp1) {
            Err(e) => fail(r1, m1, e),
            Ok(()) => if sp1 < 1 {
                Outcome::Panic
            } else {
                let sp2 = (sp1 - 1) as u16;
                let r2 = Register { sp: sp2, ..r };
                let m2 = m1.write(sp2, (ret % 256) as u8);
                match MemView::write_result(sp2) {
                    Err(e) => fail(r2, m2, e),
                    Ok(()) => Outcome::Done { reg: Register { pc: addr, ..r2 }, mem: m2, res: Ok(()) },
                }
            },
        }
    }
}

pub open spec fn sem_call(r: Register, m: MemView) -> Outcome {
    match operand_u16(r, m) {
        None => Outcome::Panic,
        Some(Err(e)) => fail(r, m, e),
        Some(Ok(addr)) => call_to(r, m, addr, 3),
    }
}

pub open spec fn sem_rst_28(r: Register, m: MemView) -> Outcome {
    call_to(r, m, 0x28, 1)
}

/// Pops a word (low byte first) from the stack and hands it to `k`.
pub open spec fn pop_then(r: Register, m: MemView, is_ret: bool) -> Outcome {
    match load(m, r.sp) {
        None => Outcome::Panic,
        Some(Err(e)) => fail(r, m, e),
        Some(Ok(lsb)) => if r.sp == 0xFFFF {
            Outcome::Panic
        } else {
            let sp1 = (r.sp + 1) as u16;
            let r1 = Register { sp: sp1, ..r };
            match load(m, sp1) {
                None => Outcome::Panic,
                Some(Err(e)) => fail(r1, m, e),
                Some(Ok(msb)) => if sp1 == 0xFFFF {
                    Outcome::Panic
                } else {
                    let r2 = Register { sp: (sp1 + 1) as u16, ..r };
                    if is_ret {
                        Outcome::Done { reg: Register { pc: pair(msb, lsb), ..r2 }, mem: m, res: Ok(()) }
                    } else {
                        advance(Register { h: msb, l: lsb, ..r2 }, m, 1)
                    }
                },
            }
        },
    }
}

pub open spec fn sem_ret(r: Register, m: MemView) -> Outcome {
    pop_then(r, m, true)
}

pub open spec fn sem_pop_hl(r: Register, m: MemView) -> Outcome {
    pop_then(r, m, false)
}

/// The CB-prefixed instructions: only SWAP A is implemented.
pub open spec fn sem_prefix(r: Register, m: MemView) -> Outcome {
    match operand(r, m, 1) {
        None => Outcome::Panic,
        Some(Err(e)) => fail(r, m, e),
        Some(Ok(op)) => if op == 0x37 {
            let a = ((r.a % 16) * 16 + r.a / 16) as u8;
            advance(Register { a, f: with_flags(r.f, bool_u8(a == 0), 0, 0, 0), ..r }, m, 2)
        } else {
            fail(r, m, ExecErr::GeneralError("invalid prefix instruction"))
        },
    }
}

/// The meaning of the instruction with op code `op`.
pub open spec fn sem_instr(op: u8, r: Register, m: MemView) -> Outcome {
    match op {
        0x00 => sem_nop(r, m),
        0x01 => sem_ld_imm16(r, m, Reg8::B, Reg8::C),
        0x05 => sem_dec8(r, m, Reg8::B),
        0x06 => sem_ld_imm8(r, m, Reg8::B),
        0x0B => sem_dec_bc(r, m),
        0x0C => sem_inc_c(r, m),
        0x0D => sem_dec8(r, m, Reg8::C),
        0x0E => sem_ld_imm8(r, m, Reg8::C),
        0x0F => sem_rrca(r, m),
        0x11 => sem_ld_imm16(r, m, Reg8::D, Reg8::E),
        0x13 => sem_inc_de(r, m),
        0x16 => sem_ld_imm8(r, m, Reg8::D),
        0x18 => sem_jr(r, m),
        0x1A => sem_ld_to_a_from_deref_de(r, m),
        0x20 => sem_jr_if_nz(r, m),
        0x21 => sem_ld_imm16(r, m, Reg8::H, Reg8::L),
        0x22 => sem_ld_to_deref_hl_step_from_a(r, m, 1),
        0x2A => sem_ld_to_a_from_deref_hl_inc(r, m),
        0x2F => sem_cpl(r, m),
        0x31 => sem_ld_to_sp_from_immediate(r, m),
        0x32 => sem_ld_to_deref_hl_step_from_a(r, m, -1),
        0x36 => sem_ld_to_deref_hl_from_immediate(r, m),
        0x38 => sem_jr_if_c(r, m),
        0x3E => sem_ld_imm8(r, m, Reg8::A),
        0x47 => sem_ld_r_r(r, m, Reg8::B, Reg8::A),
        0x4F => sem_ld_r_r(r, m, Reg8::C, Reg8::A),
        0x5F => sem_ld_r_r(r, m, Reg8::E, Reg8::A),
        0x78 => sem_ld_r_r(r, m, Reg8::A, Reg8::B),
        0x79 => sem_ld_r_r(r, m, Reg8::A, Reg8::C),
        0x87 => sem_add_a_a(r, m),
        0xA1 => sem_and_c(r, m),
        0xA9 => sem_xor_a_c(r, m),
        0xAF => sem_xor_a_a(r, m),
        0xB0 => sem_or_a(r, m, Reg8::B),
        0xB1 => sem_or_a(r, m, Reg8::C),
        0xC3 => sem_jp(r, m),
        0xC9 => sem_ret(r, m),
        0xCB => sem_prefix(r, m),
        0xCD => sem_call(r, m),
        0xE0 => sem_ldh_to_immediate_from_a(r, m),
        0xE1 => sem_pop_hl(r, m),
        0xE2 => sem_ldh_to_deref_c_from_a(r, m),
        0xE6 => sem_and_immediate(r, m),
        0xEA => sem_ld_to_deref_label_from_a(r, m),
        0xEF => sem_rst_28(r, m),
        0xF0 => sem_ldh_to_a_from_immediate(r, m),
        0xF3 => sem_di(r, m),
        0xFA => sem_ld_to_a_from_deref_label(r, m),
        0xFB => sem_ei(r, m),
        0xFE => sem_cp_immediate(r, m),
        _ => sem_invalid(r, m),
    }
}

/// One execution step: fetch the op code at the program counter and run it.
pub open spec fn sem_step(r: Register, m: MemView) -> Outcome {
    match load(m, r.pc) {
        None => Outcome::Panic,
        Some(Err(e)) => fail(r, m, e),
        Some(Ok(op)) => sem_instr(op, r, m),
    }
}

} // verus!

verus! {

/// A flag is one of the four bits Z, N, H and C of the flag register.
pub open spec fn is_flag(flag: u8) -> bool {
    flag == Z || flag == N || flag == H || flag == C
}

/// Setting a flag from a value makes the flag read back as "value is
/// non-zero" and leaves the other three flags as they were.
pub proof fn law_flag_round_trip(f: u8, flag: u8, v: u8, other: u8)
    requires
        is_flag(flag),
        is_flag(other),
        other != flag,
    ensures
        (with_flag(f, flag, v) & flag != 0) == (v != 0),
        with_flag(f, flag, v) & other == f & other,
{
    assert((f | flag) & flag != 0 && (f & !flag) & flag == 0 && (f | flag) & other == f & other && (
    f & !flag) & other == f & other) by (bit_vector)
        requires
            flag == 0x80 || flag == 0x40 || flag == 0x20 || flag == 0x10,
            other == 0x80 || other == 0x40 || other == 0x20 || other == 0x10,
            other != flag,
    ;
}

/// Splitting a word into a register pair and joining the pair again gives
/// the word back, and joining then splitting gives the bytes back.
pub proof fn law_pair_round_trip(v: u16, hi: u8, lo: u8)
    ensures
        pair((v / 256) as u8, (v % 256) as u8) == v,
        pair(hi, lo) / 256 == hi,
        pair(hi, lo) % 256 == lo,
{
}

/// Pushing a return address `op_size` bytes on and jumping (a CALL, an RST
/// or an interrupt) followed by a RET returns to that address with the
/// stack pointer restored and the other registers unchanged, when the
/// return address went to memory outside the bank control area.
pub proof fn law_call_to_then_ret(r: Register, m: MemView, addr: u16, op_size: int)
    requires
        m.wf(),
        call_to(r, m, addr, op_size) is Done,
        call_to(r, m, addr, op_size)->res is Ok,
        !crate::memory::is_bank_control((r.sp - 1) as u16),
        !crate::memory::is_bank_control((r.sp - 2) as u16),
    ensures
        ({
            let r1 = call_to(r, m, addr, op_size)->reg;
            let m1 = call_to(r, m, addr, op_size)->mem;
            &&& sem_ret(r1, m1) is Done
            &&& sem_ret(r1, m1)->res is Ok
            &&& sem_ret(r1, m1)->reg == (Register { pc: (r.pc + op_size) as u16, ..r })
            &&& sem_ret(r1, m1)->mem == m1
        }),
{
    let ret = (r.pc + op_size) as u16;
    let sp1 = (r.sp - 1) as u16;
    let sp2 = (r.sp - 2) as u16;
    let m1 = m.write(sp1, (ret / 256) as u8);
    let m2 = m1.write(sp2, (ret % 256) as u8);
    crate::memory::law_read_after_write(m, sp1, (ret / 256) as u8);
    crate::memory::lemma_write_keeps_shape(m, sp1, (ret / 256) as u8);
    crate::memory::law_read_after_write(m1, sp2, (ret % 256) as u8);
    crate::memory::law_write_keeps_other_reads(m1, sp2, (ret % 256) as u8, sp1);
    law_pair_round_trip(ret, 0, 0);
}

/// A CALL followed by a RET returns to the instruction after the CALL with
/// the stack pointer restored and the other registers unchanged, when the
/// return address went to writable memory outside the bank control area.
pub proof fn law_call_then_ret(r: Register, m: MemView)
    requires
        m.wf(),
        sem_call(r, m) is Done,
        sem_call(r, m)->res is Ok,
        !crate::memory::is_bank_control((r.sp - 1) as u16),
        !crate::memory::is_bank_control((r.sp - 2) as u16),
    ensures
        ({
            let r1 = sem_call(r, m)->reg;
            let m1 = sem_call(r, m)->mem;
            &&& sem_ret(r1, m1) is Done
            &&& sem_ret(r1, m1)->res is Ok
            &&& sem_ret(r1, m1)->reg == (Register { pc: (r.pc + 3) as u16, ..r })
            &&& sem_ret(r1, m1)->mem == m1
        }),
{
    let addr = match m.read_u16((r.pc + 1) as u16) {
        Ok(a) => a,
        Err(_) => 0,
    };
    law_call_to_then_ret(r, m, addr, 3);
}

/// An RST 0x28 followed by a RET returns to the instruction after the RST,
/// under the same condition.
pub proof fn law_rst_then_ret(r: Register, m: MemView)
    requires
        m.wf(),
        sem_rst_28(r, m) is Done,
        sem_rst_28(r, m)->res is Ok,
        !crate::memory::is_bank_control((r.sp - 1) as u16),
        !crate::memory::is_bank_control((r.sp - 2) as u16),
    ensures
        ({
            let r1 = sem_rst_28(r, m)->reg;
            let m1 = sem_rst_28(r, m)->mem;
            &&& sem_ret(r1, m1) is Done
            &&& sem_ret(r1, m1)->res is Ok
            &&& sem_ret(r1, m1)->reg == (Register { pc: (r.pc + 1) as u16, ..r })
            &&& sem_ret(r1, m1)->mem == m1
        }),
{
    law_call_to_then_ret(r, m, 0x28, 1);
}

} // verus!

verus! {

/// The length of the instructions that fall through to the next
/// instruction; `None` for jumps, calls, returns and invalid op codes.
pub open spec fn straight_line_len(op: u8) -> Option<int> {
    if op == 0x00 || op == 0x05 || op == 0x0B || op == 0x0C || op == 0x0D || op == 0x0F || op == 0x13
        || op == 0x1A || op == 0x22 || op == 0x2A || op == 0x2F || op == 0x32 || op == 0x47 || op
        == 0x4F || op == 0x5F || op == 0x78 || op == 0x79 || op == 0x87 || op == 0xA1 || op == 0xA9
        || op == 0xAF || op == 0xB0 || op == 0xB1 || op == 0xE1 || op == 0xE2 || op == 0xF3 || op
        == 0xFB {
        Some(1)
    } else if op == 0x06 || op == 0x0E || op == 0x16 || op == 0x36 || op == 0x3E || op == 0xCB || op
        == 0xE0 || op == 0xE6 || op == 0xF0 || op == 0xFE {
        Some(2)
    } else if op == 0x01 || op == 0x11 || op == 0x21 || op == 0x31 || op == 0xEA || op == 0xFA {
        Some(3)
    } else {
        None
    }
}

/// The instructions that may write to memory: the stores, CALL and RST.
pub open spec fn writes_memory(op: u8) -> bool {
    op == 0x22 || op == 0x32 || op == 0x36 || op == 0xE0 || op == 0xE2 || op == 0xEA || op == 0xCD
        || op == 0xEF
}

/// Every instruction that falls through moves the program counter on by
/// its length when it succeeds.
#[verifier::rlimit(100)]
#[verifier::spinoff_prover]
pub proof fn law_straight_line_advances_pc(op: u8, r: Register, m: MemView)
    requires
        sem_instr(op, r, m) is Done,
        sem_instr(op, r, m)->res is Ok,
        straight_line_len(op) is Some,
    ensures
        sem_instr(op, r, m)->reg.pc == r.pc + straight_line_len(op)->0,
{
}

/// An instruction that fails leaves the program counter on itself.
#[verifier::rlimit(100)]
#[verifier::spinoff_prover]
pub proof fn law_failure_keeps_pc(op: u8, r: Register, m: MemView)
    requires
        sem_instr(op, r, m) is Done,
        sem_instr(op, r, m)->res is Err,
    ensures
        sem_instr(op, r, m)->reg.pc == r.pc,
{
}

/// Only the stores, CALL and RST change the memory.
#[verifier::rlimit(100)]
#[verifier::spinoff_prover]
pub proof fn law_only_stores_write(op: u8, r: Register, m: MemView)
    requires
        sem_instr(op, r, m) is Done,
        !writes_memory(op),
    ensures
        sem_instr(op, r, m)->mem == m,
{
}

} // verus!

verus! {

/// No instruction changes the sizes of the memory areas.
#[verifier::rlimit(100)]
#[verifier::spinoff_prover]
pub proof fn law_step_keeps_memory_shape(op: u8, r: Register, m: MemView)
    requires
        m.wf(),
        sem_instr(op, r, m) is Done,
    ensures
        sem_instr(op, r, m)->mem.wf(),
{
    broadcast use crate::memory::lemma_write_keeps_shape;

}

} // verus!

verus! {

/// LD (HL+),A and LD (HL-),A store A at HL and step HL as one 16-bit
/// register pair: after a successful step, H:L is the old H:L plus one
/// (0x22) or minus one (0x32), with the carry or borrow reaching H.
pub proof fn law_ld_hl_step_moves_pair(op: u8, r: Register, m: MemView)
    requires
        op == 0x22 || op == 0x32,
        sem_instr(op, r, m) is Done,
        sem_instr(op, r, m)->res is Ok,
    ensures
        ({
            let r2 = sem_instr(op, r, m)->reg;
            &&& op == 0x22 ==> r2.h * 256 + r2.l == r.h * 256 + r.l + 1
            &&& op == 0x32 ==> r2.h * 256 + r2.l == r.h * 256 + r.l - 1
            &&& r2.pc == r.pc + 1
            &&& r2.a == r.a
        }),
{
    let hl = pair(r.h, r.l);
    assert(hl == r.h * 256 + r.l);
    let delta: int = if op == 0x22 { 1 } else { -1 };
    if 0 <= hl + delta <= 0xFFFF {
        let n = (hl + delta) as u16;
        law_pair_round_trip(n, 0, 0);
    }
}

} // verus!
