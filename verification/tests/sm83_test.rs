use soma::io::IO;
use soma::memory::MemoryController;
use soma::rom::ROM;
use soma::sm83::{ExecErr, RegBuilder, Register, SM83};

// op codes of the SM83 instructions under test
const CALL: u8 = 0xCD;
const CPL: u8 = 0x2F;
const CP_IMMEDIATE: u8 = 0xFE;
const DEC_B: u8 = 0x05;
const DEC_BC: u8 = 0x0B;
const DEC_C: u8 = 0x0D;
const DI: u8 = 0xF3;
const EI: u8 = 0xFB;
const INC_C: u8 = 0x0C;
const INC_DE: u8 = 0x13;
const INVALID: u8 = 0xD3;
const JP: u8 = 0xC3;
const JR: u8 = 0x18;
const JR_IF_C: u8 = 0x38;
const JR_IF_NZ: u8 = 0x20;
const LDH_TO_A_FROM_IMMEDIATE: u8 = 0xF0;
const LDH_TO_DEREF_C_FROM_A: u8 = 0xE2;
const LDH_TO_IMMEDIATE_FROM_A: u8 = 0xE0;
const LD_TO_A_FROM_B: u8 = 0x78;
const LD_TO_A_FROM_DEREF_DE: u8 = 0x1A;
const LD_TO_A_FROM_DEREF_HL_INC: u8 = 0x2A;
const LD_TO_A_FROM_DEREF_LABEL: u8 = 0xFA;
const LD_TO_A_FROM_IMMEDIATE: u8 = 0x3E;
const LD_TO_BC_FROM_IMMEDIATE: u8 = 0x01;
const LD_TO_B_FROM_IMMEDIATE: u8 = 0x06;
const LD_TO_C_FROM_IMMEDIATE: u8 = 0x0E;
const LD_TO_DEREF_HL_DEC_FROM_A: u8 = 0x32;
const LD_TO_DEREF_HL_FROM_IMMEDIATE: u8 = 0x36;
const LD_TO_DEREF_HL_INC_FROM_A: u8 = 0x22;
const LD_TO_DEREF_LABEL_FROM_A: u8 = 0xEA;
const LD_TO_DE_FROM_IMMEDIATE: u8 = 0x11;
const LD_TO_HL_FROM_IMMEDIATE: u8 = 0x21;
const LD_TO_SP_FROM_IMMEDIATE: u8 = 0x31;
const NOP: u8 = 0x00;
const OR_A_C: u8 = 0xB1;
const RET: u8 = 0xC9;
const XOR_A_A: u8 = 0xAF;


#[test]
fn sm83_test_test_err() -> Result<(), ExecErr> {
    let cases = [(
        [INVALID],
        ExecErr::InvalidInstruction(INVALID, 0),
    )];

    for (mem, err) in cases {
        let rom = ROM::new_copy_from_slice(&mem);
        let r = exec(IO::init(), Register::zero(), rom);
        assert!(r.is_err(), "expected error '{:?}', but got Ok", err);
        match r {
            Ok(_) => assert!(false, "error expected"),
            Err(e) => assert_eq!(e, err),
        }
    }
    Ok(())
}

#[test]
fn test_nop() -> Result<(), ExecErr> {
    let cases = [([NOP])];

    for mem in cases {
        let rom = ROM::new_copy_from_slice(&mem);
        let (sm83, _) = exec(IO::init(), Register::zero(), rom)?;
        assert_eq!(sm83.pc(), 1, "nop");
        assert_equal_v_regs(&sm83.reg, &Register::zero(), "nop");
    }
    Ok(())
}

#[test]
fn test_interrupt_enablement() -> Result<(), ExecErr> {
    let cases = [
        ("(ei)", [EI], true),
        ("(di)", [DI], false),
    ];

    for (exp, mem, ime_flag) in cases {
        let rom = ROM::new_copy_from_slice(&mem);
        let (sm83, _) = exec(IO::init(), Register::zero(), rom)?;
        assert_eq!(
            sm83.reg.ime, ime_flag,
            "{}, want ime {}, got {}",
            exp, ime_flag, sm83.reg.ime
        );
        assert_eq!(sm83.pc(), 1);
    }
    Ok(())
}

#[test]
fn sm83_test_test_jp() -> Result<(), ExecErr> {
    let cases = [(
        "(jp 0x150)",
        [JP, 0xAA, 0xFF],
        0xFFAA,
    )];

    for (exp, mem, pc) in cases {
        let rom = ROM::new_copy_from_slice(&mem);
        let (sm83, _) = exec(IO::init(), Register::zero(), rom)?;
        assert_eq!(
            sm83.pc(),
            pc,
            "{}, want pc 0x{:x}, got 0x{:x}",
            exp,
            pc,
            sm83.pc()
        );
    }
    Ok(())
}

#[test]
fn test_jr() -> Result<(), ExecErr> {
    let cases: [(&str, Register, &[u8], u16); 7] = [
        (
            "(jr 0xFE)", //self-jump
            RegBuilder::new().pc(1).reg(),
            &[0x0, JR, 0xFE],
            1,
        ),
        (
            "(jr 0xF9)",
            RegBuilder::new().pc(7).reg(),
            &[
                0x0,
                0x0,
                0x0,
                0x0,
                0x0,
                0x0,
                0x0,
                JR,
                0xF9,
            ],
            2,
        ),
        (
            "(jr 0x02)",
            RegBuilder::new().pc(0).reg(),
            &[JR, 0x02],
            4,
        ),
        (
            "(jr #c 0xF9)",
            RegBuilder::new().pc(7).f_c(1).reg(),
            &[
                0x0,
                0x0,
                0x0,
                0x0,
                0x0,
                0x0,
                0x0,
                JR_IF_C,
                0xF9,
            ],
            2,
        ),
        (
            "(jr #c 0xF9)",
            RegBuilder::new().pc(7).f_c(0).reg(),
            &[
                0x0,
                0x0,
                0x0,
                0x0,
                0x0,
                0x0,
                0x0,
                JR_IF_C,
                0xF9,
            ],
            9,
        ),
        (
            "(jr #nz 0xF8) if #z not zero",
            RegBuilder::new().pc(8).f_z(1).reg(),
            &[
                0x0,
                0x0,
                0x0,
                0x0,
                0x0,
                0x0,
                0x0,
                0x0,
                JR_IF_NZ,
                0xF8, // -7 jump
            ],
            10, // don't jump, as z is zero
        ),
        (
            "(jr #nz 0xF8) if #z is zero",
            RegBuilder::new().pc(8).f_z(0).reg(),
            &[
                0x0,
                0x0,
                0x0,
                0x0,
                0x0,
                0x0,
                0x0,
                0x0,
                JR_IF_NZ,
                0xF8, // -7 jump
            ],
            2, // jump back to pc=2, as z is not zero
        ),
    ];

    for (exp, reg_init, mem, pc) in cases {
        let rom = ROM::new_copy_from_slice(mem);
        let (sm83, _) = exec(IO::init(), reg_init, rom)?;
        assert_eq!(
            sm83.pc(),
            pc,
            "{}, want pc 0x{:x}, got 0x{:x}",
            exp,
            pc,
            sm83.pc()
        );
    }
    Ok(())
}

#[test]
fn sm83_test_test_ld() -> Result<(), ExecErr> {
    let cases: [(&str, IO, Register, &[u8], u16, Register, &[(u16, u8)]); 15] = [
        (
            "(ld %a 1)",
            IO::init(),
            Register::zero(),
            &[LD_TO_A_FROM_IMMEDIATE, 1],
            2,
            RegBuilder::new().a(1).reg(),
            &[],
        ),
        (
            "(ld %b 65)",
            IO::init(),
            Register::zero(),
            &[LD_TO_B_FROM_IMMEDIATE, 65],
            2,
            RegBuilder::new().b(65).reg(),
            &[],
        ),
        (
            "(ld %c 42)",
            IO::init(),
            Register::zero(),
            &[LD_TO_C_FROM_IMMEDIATE, 42],
            2,
            RegBuilder::new().c(42).reg(),
            &[],
        ),
        (
            "(ld ('label) %a)",
            IO::init(),
            RegBuilder::new().a(0xAB).reg(),
            &[
                LD_TO_DEREF_LABEL_FROM_A,
                0x26, // IO-Port Address
                0xFF,
            ],
            3,
            RegBuilder::new().a(0xAB).reg(), // reg a stays unchanged
            &[(0xFF26, 0xAB)],
        ),
        (
            "(ld (%hl +) %a)",
            IO::init(),
            RegBuilder::new().a(0xAB).hl(0xFF26).reg(),
            &[LD_TO_DEREF_HL_INC_FROM_A],
            1,
            RegBuilder::new().a(0xAB).hl(0xFF27).reg(), // reg a stays unchanged
            &[(0xFF26, 0xAB)], // address before increment stores register value
        ),
        (
            "(ld (%hl -) %a)",
            IO::init(),
            RegBuilder::new().a(0xAB).hl(0xFF26).reg(),
            &[LD_TO_DEREF_HL_DEC_FROM_A],
            1,
            RegBuilder::new().a(0xAB).hl(0xFF25).reg(), // reg a stays unchanged
            &[(0xFF26, 0xAB)], // address after increment stores register value
        ),
        (
            "(ld %a ('label))",
            IO::init_with_value(0xFF44, 23)?,
            Register::zero(),
            &[
                LD_TO_A_FROM_DEREF_LABEL,
                0x44,
                0xFF,
            ],
            3,
            RegBuilder::new().a(23).reg(),
            &[],
        ),
        (
            "(ld %a (%de))",
            IO::init(),
            RegBuilder::new().d(0x00).e(0x04).reg(),
            &[
                LD_TO_A_FROM_DEREF_DE,
                0x00, //0x01
                0x00, //0x02
                0x00, //0x03
                42,   //0x04
            ],
            1,
            RegBuilder::new().d(0x00).e(0x04).a(42).reg(),
            &[],
        ),
        (
            "(ld %a (%hl +))",
            IO::init(),
            RegBuilder::new().h(0x00).l(0x05).reg(),
            &[
                LD_TO_A_FROM_DEREF_HL_INC,
                0x00, //0x01
                0x00, //0x02
                0x00, //0x03
                0x00, //0x04
                32,   //0x05
            ],
            1,
            RegBuilder::new().h(0x00).l(0x06).a(32).reg(),
            &[],
        ),
        (
            "(ld %de 0x8F01)",
            IO::init(),
            Register::zero(),
            &[
                LD_TO_DE_FROM_IMMEDIATE,
                0x8F,
                0x01,
            ],
            3,
            RegBuilder::new().d(0x01).e(0x8F).reg(),
            &[],
        ),
        (
            "(ld %hl 0x9000)",
            IO::init(),
            Register::zero(),
            &[
                LD_TO_HL_FROM_IMMEDIATE,
                0x90,
                0x00,
            ],
            3,
            RegBuilder::new().h(0x00).l(0x90).reg(),
            &[],
        ),
        (
            "(ld (%hl) 0x11)",
            IO::init(),
            RegBuilder::new().h(0xC0).l(0x10).reg(),
            &[
                LD_TO_DEREF_HL_FROM_IMMEDIATE,
                0x11,
            ],
            2,
            RegBuilder::new().h(0xC0).l(0x10).reg(),
            &[(0xC010, 0x11)],
        ),
        (
            "(ld %bc 0x6004)",
            IO::init(),
            Register::zero(),
            &[
                LD_TO_BC_FROM_IMMEDIATE,
                0x60,
                0x04,
            ],
            3,
            RegBuilder::new().b(0x04).c(0x60).reg(),
            &[],
        ),
        (
            "(ld %sp 0xFF03)",
            IO::init(),
            Register::zero(),
            &[
                LD_TO_SP_FROM_IMMEDIATE,
                0xFF,
                0x03,
            ],
            3,
            RegBuilder::new().sp(0xFF03).reg(),
            &[],
        ),
        (
            "(ld %a %b)",
            IO::init(),
            RegBuilder::new().a(0x01).b(0x66).reg(),
            &[LD_TO_A_FROM_B],
            1,
            RegBuilder::new().a(0x66).b(0x66).reg(),
            &[],
        ),
    ];

    for (exp, io, reg_start, mem, pc_at, reg_after, mem_checks) in cases {
        let rom = ROM::new_copy_from_slice(mem);
        let (sm83, mc) = exec(io, reg_start, rom)?;
        assert_eq!(
            sm83.pc(),
            pc_at,
            "expected pc at 0x{:x}, was at 0x{:x} for {}",
            pc_at,
            sm83.pc(),
            exp,
        );
        assert_equal_v_regs(&sm83.reg, &reg_after, exp);

        for check in mem_checks {
            let mem_value = mc.read(check.0)?;
            assert_eq!(
                mem_value, check.1,
                "expected memory location 0x{:x} to have value 0x{:x}. But was 0x{:x}",
                check.0, check.1, mem_value
            );
        }
    }
    Ok(())
}

#[test]
fn test_ldh() -> Result<(), ExecErr> {
    let cases: [(
        &str,
        IO,
        Register,
        &[u8],
        u16,
        Register,
        &[(u16, u8)],
        &[(u16, u8)],
    ); 3] = [
        (
            "(ldh (0xE0) %a)",
            IO::init(),
            RegBuilder::new().a(0x42).reg(),
            &[LDH_TO_IMMEDIATE_FROM_A, 0xE0],
            2,
            RegBuilder::new().a(0x42).reg(),
            &[],
            &[(0xFFE0, 0x42)],
        ),
        (
            "(ldh %a (0xE0))",
            IO::init(),
            RegBuilder::new().a(0x0).reg(),
            &[LDH_TO_A_FROM_IMMEDIATE, 0xE0],
            2,
            RegBuilder::new().a(0x66).reg(),
            &[(0xFFE0, 0x66)],
            &[(0xFFE0, 0x66)],
        ),
        (
            "(ldh (%c) %a)",
            IO::init(),
            RegBuilder::new().c(0xE0).a(0x66).reg(),
            &[LDH_TO_DEREF_C_FROM_A],
            1,
            RegBuilder::new().c(0xE0).a(0x66).reg(),
            &[],
            &[(0xFFE0, 0x66)],
        ),
    ];

    for (exp, io, reg_start, mem, pc_at, reg_after, mem_prep, mem_checks) in cases {
        let rom = ROM::new_copy_from_slice(mem);

        let mut mc = MemoryController::new(io, rom);
        for prep in mem_prep {
            mc.write(prep.0, prep.1)?;
        }

        let (sm83, mc) = exec_with_mc(mc, reg_start)?;

        assert_eq!(
            sm83.pc(),
            pc_at,
            "expected pc at 0x{:x}, was at 0x{:x} for {}",
            pc_at,
            sm83.pc(),
            exp,
        );
        assert_equal_v_regs(&sm83.reg, &reg_after, exp);

        for check in mem_checks {
            let mem_value = mc.read(check.0)?;
            assert_eq!(
                mem_value, check.1,
                "expected memory location 0x{:x} to have value 0x{:x}. But was 0x{:x}",
                check.0, check.1, mem_value
            );
        }
    }

    Ok(())
}

#[test]
fn test_cp() -> Result<(), ExecErr> {
    let cases: [(&str, Register, &[u8], Register); 2] = [
        (
            "(cp 0x90) with a = 1 (not equal)",
            RegBuilder::new().a(1).reg(),
            &[CP_IMMEDIATE, 0x90],
            RegBuilder::new().a(1).f_z(1).f_n(1).f_h(1).f_c(1).reg(),
        ),
        (
            "(cp 0x90) with a = 0x90 (equal)",
            RegBuilder::new().a(0x90).reg(),
            &[CP_IMMEDIATE, 0x90],
            RegBuilder::new().a(0x90).f_z(0).f_n(1).f_h(0).f_c(0).reg(),
        ),
    ];

    for (exp, reg_start, mem, reg_after) in cases {
        let rom = ROM::new_copy_from_slice(mem);
        let (sm83, _) = exec(IO::init(), reg_start, rom)?;
        assert_eq!(sm83.pc(), mem.len() as u16);
        assert_equal_v_regs(&sm83.reg, &reg_after, exp);
    }
    Ok(())
}

#[test]
fn test_inc() -> Result<(), ExecErr> {
    let cases = [
        (
            "(inc %c), zero result",
            RegBuilder::new().c(0xFF).f_z(0).f_n(1).f_h(1).reg(),
            &[INC_C],
            RegBuilder::new().c(0x00).f_z(1).f_n(0).f_h(1).reg(),
        ),
        (
            "(inc %c), non-zero result",
            RegBuilder::new().c(0x00).f_z(1).f_n(1).f_h(1).reg(),
            &[INC_C],
            RegBuilder::new().c(0x01).f_z(0).f_n(0).f_h(0).reg(),
        ),
        (
            "(inc %c), half-carry",
            RegBuilder::new().c(0x0F).f_z(1).f_n(1).f_h(0).reg(),
            &[INC_C],
            RegBuilder::new().c(0x10).f_z(0).f_n(0).f_h(1).reg(),
        ),
        (
            "(inc %de) with zero %de",
            RegBuilder::new().de(0x00).reg(),
            &[INC_DE],
            RegBuilder::new().de(0x01).reg(),
        ),
        (
            "(inc %de) with non-zero %de",
            RegBuilder::new().de(0x666).reg(),
            &[INC_DE],
            RegBuilder::new().de(0x667).reg(),
        ),
        (
            "(inc %de) with overflow",
            RegBuilder::new().de(0xFFFF).reg(),
            &[INC_DE],
            RegBuilder::new().de(0x0).reg(),
        ),
    ];

    for (exp, reg_init, mem, reg_after) in cases {
        let rom = ROM::new_copy_from_slice(mem);
        let (sm83, _) = exec(IO::init(), reg_init, rom)?;
        assert_eq!(
            sm83.pc(),
            1,
            "{}, want pc 0x{:x}, got 0x{:x}",
            exp,
            1,
            sm83.pc()
        );
        assert_equal_v_regs(&sm83.reg, &reg_after, exp);
    }
    Ok(())
}

#[test]
fn test_dec() -> Result<(), ExecErr> {
    let cases = [
        (
            "(dec %b) with 1 %b",
            RegBuilder::new().b(0x01).f_z(0).f_h(0).reg(),
            &[DEC_B],
            RegBuilder::new().b(0x00).f_z(1).f_n(1).f_h(0).reg(),
        ),
        (
            "(dec %b) with 0 %b",
            RegBuilder::new().b(0x0).f_z(1).f_h(0).reg(),
            &[DEC_B],
            RegBuilder::new().b(0xFF).f_z(0).f_n(1).f_h(1).reg(),
        ),
        (
            "(dec %b) no half carry",
            RegBuilder::new().b(0x15).f_z(1).f_h(1).reg(),
            &[DEC_B],
            RegBuilder::new().b(0x14).f_z(0).f_n(1).f_h(0).reg(),
        ),
        (
            "(dec %b) half carry",
            RegBuilder::new().b(0x10).f_z(1).f_h(0).reg(),
            &[DEC_B],
            RegBuilder::new().b(0x0F).f_z(0).f_n(1).f_h(1).reg(),
        ),
        (
            "(dec %c) with 1 %c",
            RegBuilder::new().c(0x01).f_z(0).f_h(0).reg(),
            &[DEC_C],
            RegBuilder::new().c(0x00).f_z(1).f_n(1).f_h(0).reg(),
        ),
        (
            "(dec %c) with 0 %c",
            RegBuilder::new().c(0x0).f_z(1).f_h(0).reg(),
            &[DEC_C],
            RegBuilder::new().c(0xFF).f_z(0).f_n(1).f_h(1).reg(),
        ),
        (
            "(dec %c) no half carry",
            RegBuilder::new().c(0x15).f_z(1).f_h(1).reg(),
            &[DEC_C],
            RegBuilder::new().c(0x14).f_z(0).f_n(1).f_h(0).reg(),
        ),
        (
            "(dec %c) half carry",
            RegBuilder::new().c(0x10).f_z(1).f_h(0).reg(),
            &[DEC_C],
            RegBuilder::new().c(0x0F).f_z(0).f_n(1).f_h(1).reg(),
        ),
        (
            "(dec %bc) with 1 %bc",
            RegBuilder::new().bc(0x01).reg(),
            &[DEC_BC],
            RegBuilder::new().bc(0x00).reg(),
        ),
        (
            "(dec %bc) with 0 %bc",
            RegBuilder::new().bc(0x0).reg(),
            &[DEC_BC],
            RegBuilder::new().bc(0xFFFF).reg(),
        ),
    ];

    for (exp, reg_init, mem, reg_after) in cases {
        let rom = ROM::new_copy_from_slice(mem);
        let (sm83, _) = exec(IO::init(), reg_init, rom)?;
        assert_eq!(
            sm83.pc(),
            1,
            "{}, want pc 0x{:x}, got 0x{:x}",
            exp,
            1,
            sm83.pc()
        );
        assert_equal_v_regs(&sm83.reg, &reg_after, exp);
    }
    Ok(())
}

#[test]
fn test_or() -> Result<(), ExecErr> {
    let cases = [
        (
            "(or %a %c) non-zero result",
            RegBuilder::new().a(0x01).c(0x10).f_z(1).reg(),
            &[OR_A_C],
            RegBuilder::new().a(0x11).c(0x10).f_z(0).reg(),
        ),
        (
            "(or %a %c) zero result",
            RegBuilder::new().a(0x00).c(0x00).f_z(0).reg(),
            &[OR_A_C],
            RegBuilder::new().a(0x00).c(0x00).f_z(1).reg(),
        ),
    ];

    for (exp, reg_init, mem, reg_after) in cases {
        let rom = ROM::new_copy_from_slice(mem);
        let (sm83, _) = exec(IO::init(), reg_init, rom)?;
        assert_eq!(
            sm83.pc(),
            1,
            "{}, want pc 0x{:x}, got 0x{:x}",
            exp,
            1,
            sm83.pc()
        );
        assert_equal_v_regs(&sm83.reg, &reg_after, exp);
    }
    Ok(())
}

#[test]
fn test_xor() -> Result<(), ExecErr> {
    let cases = [
        (
            "(xor %a %a) - with zero reg",
            RegBuilder::new().a(0x00).f_z(1).f_n(1).f_h(1).f_c(1).reg(), // flags are all reset
            &[XOR_A_A],
            RegBuilder::new().a(0x00).f_z(0).f_n(0).f_h(0).f_c(0).reg(),
        ),
        (
            "(xor %a %a) - with non-zero reg",
            RegBuilder::new().a(0x10).f_z(1).f_n(1).f_h(1).f_c(1).reg(),
            &[XOR_A_A],
            RegBuilder::new().a(0x00).f_z(0).f_n(0).f_h(0).f_c(0).reg(),
        ),
    ];

    for (exp, reg_init, mem, reg_after) in cases {
        let rom = ROM::new_copy_from_slice(mem);
        let (sm83, _) = exec(IO::init(), reg_init, rom)?;
        assert_eq!(
            sm83.pc(),
            1,
            "{}, want pc 0x{:x}, got 0x{:x}",
            exp,
            1,
            sm83.pc()
        );
        assert_equal_v_regs(&sm83.reg, &reg_after, exp);
    }
    Ok(())
}

#[test]
fn test_cpl() -> Result<(), ExecErr> {
    let cases = [
        (
            "(cpl) zero",
            RegBuilder::new().a(0x00).f_n(0).f_h(1).reg(),
            &[CPL],
            RegBuilder::new().a(0xFF).f_n(1).f_h(1).reg(),
        ),
        (
            "(cpl) FF",
            RegBuilder::new().a(0xFF).f_n(0).f_h(1).reg(),
            &[CPL],
            RegBuilder::new().a(0x00).f_n(1).f_h(1).reg(),
        ),
        (
            "(cpl) mixed",
            RegBuilder::new().a(0b01010101).f_n(0).f_h(1).reg(),
            &[CPL],
            RegBuilder::new().a(0b10101010).f_n(1).f_h(1).reg(),
        ),
    ];

    for (exp, reg_init, mem, reg_after) in cases {
        let rom = ROM::new_copy_from_slice(mem);
        let (sm83, _) = exec(IO::init(), reg_init, rom)?;
        assert_eq!(
            sm83.pc(),
            1,
            "{}, want pc 0x{:x}, got 0x{:x}",
            exp,
            1,
            sm83.pc()
        );
        assert_equal_v_regs(&sm83.reg, &reg_after, exp);
    }
    Ok(())
}

#[test]
fn test_call() -> Result<(), ExecErr> {
    let mut mem = [INVALID; 0x166 + 4];
    mem[0x167] = CALL;
    mem[0x168] = 0x50;
    mem[0x169] = 0x01;
    let cases = [("(call 0x150)", mem, 0x167, 0x150)];

    for (exp, mem, pc_start, pc_after) in cases {
        let rom = ROM::new_copy_from_slice(&mem);
        let io = IO::init();
        let regs = RegBuilder::new().pc(pc_start).sp(0xFFFE).reg();
        let (sm83, mc) = exec(io, regs, rom)?;

        assert_eq!(
            sm83.pc(),
            pc_after,
            "{}, want pc 0x{:x}, got 0x{:x}",
            exp,
            pc_after,
            sm83.pc()
        );
        assert_eq!(sm83.reg.sp, 0xFFFC);
        assert_eq!(
            mc.read(0xFFFC)?,
            0x6A,
            "got 0x{:x}, want 0x6A",
            mc.read(0xFFFC)?
        );
        assert_eq!(
            mc.read(0xFFFD)?,
            0x01,
            "got 0x{:x}, want 0x01",
            mc.read(0xFFFD)?
        );
    }
    Ok(())
}

#[test]
fn test_ret() -> Result<(), ExecErr> {
    let cases = [(
        "(ret)",
        [RET],
        0xFFFC,
        0xFFFE,
        0,
        0x168,
        0x68,
        0x01,
    )];

    for (exp, mem, sp_start, sp_after, pc_start, pc_after, sp_low, sp_high) in cases {
        let rom = ROM::new_copy_from_slice(&mem);
        let mut mc = MemoryController::new(IO::init(), rom);
        mc.write(sp_start, sp_low)?;
        mc.write(sp_start + 1, sp_high)?;
        let (sm83, _) = exec_with_mc(mc, RegBuilder::new().pc(pc_start).sp(sp_start).reg())?;
        assert_eq!(
            sm83.reg.sp, sp_after,
            "{}, want sp 0x{:x}, got 0x{:x}",
            exp, sp_after, sm83.reg.sp
        );
        assert_eq!(
            sm83.pc(),
            pc_after,
            "{}, want pc 0x{:x}, got 0x{:x}",
            exp,
            pc_after,
            sm83.pc()
        );
    }
    Ok(())
}

// helper

/// conly compares the value register a to l, without pc and sp.
fn assert_equal_v_regs(l: &Register, r: &Register, exp: &str) {
    assert_eq!(l.a, r.a, "reg a: {}", exp);
    assert_eq!(l.b, r.b, "reg b: {}", exp);
    assert_eq!(l.c, r.c, "reg c: {}", exp);
    assert_eq!(l.d, r.d, "reg d: {}", exp);
    assert_eq!(l.e, r.e, "reg e: {}", exp);
    assert_eq!(l.f, r.f, "reg f: {}", exp);
    assert_eq!(l.h, r.h, "reg h: {}", exp);
    assert_eq!(l.l, r.l, "reg l: {}", exp);
}

fn exec(io: IO, reg: Register, rom: ROM) -> Result<(SM83, MemoryController), ExecErr> {
    exec_with_mc(MemoryController::new(io, rom), reg)
}

fn exec_with_mc(
    mut mc: MemoryController,
    reg: Register,
) -> Result<(SM83, MemoryController), ExecErr> {
    let mut sm83 = SM83::init();
    sm83.reg = reg;
    sm83.execute(&mut mc)?;
    Ok((sm83, mc))
}
