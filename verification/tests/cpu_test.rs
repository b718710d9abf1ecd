use soma::interrupt::vblank_interrupt;
use soma::io::IO;
use soma::memory::MemoryController;
use soma::rom::ROM;
use soma::sm83::{ExecErr, RegBuilder, Register, SM83, C, H, N, Z};

fn run(reg: Register, rom: &[u8]) -> (Result<u8, ExecErr>, SM83, MemoryController) {
    let mut mc = MemoryController::new(IO::init(), ROM::new_copy_from_slice(rom));
    let mut sm83 = SM83::init();
    sm83.reg = reg;
    let r = sm83.execute(&mut mc);
    (r, sm83, mc)
}

#[test]
fn execute_returns_op_code() {
    let (r, sm83, _) = run(Register::zero(), &[0x00]);
    assert_eq!(r, Ok(0x00));
    assert_eq!(sm83.pc(), 1);
}

#[test]
fn call_then_ret_returns_after_call() -> Result<(), ExecErr> {
    // 0x00: call 0x0010; 0x10: ret
    let mut rom = [0u8; 0x11];
    rom[0] = 0xCD;
    rom[1] = 0x10;
    rom[2] = 0x00;
    rom[0x10] = 0xC9;
    let mut mc = MemoryController::new(IO::init(), ROM::new_copy_from_slice(&rom));
    let mut sm83 = SM83::init();
    sm83.reg = RegBuilder::new().sp(0xDFF0).a(5).reg();
    sm83.execute(&mut mc)?;
    assert_eq!(sm83.pc(), 0x10);
    assert_eq!(sm83.reg.sp, 0xDFEE);
    sm83.execute(&mut mc)?;
    assert_eq!(sm83.pc(), 3);
    assert_eq!(sm83.reg.sp, 0xDFF0);
    assert_eq!(sm83.reg.a, 5);
    Ok(())
}

#[test]
fn rst_pushes_next_address() -> Result<(), ExecErr> {
    let mut rom = [0u8; 8];
    rom[5] = 0xEF;
    let mut mc = MemoryController::new(IO::init(), ROM::new_copy_from_slice(&rom));
    let mut sm83 = SM83::init();
    sm83.reg = RegBuilder::new().pc(5).sp(0xC010).reg();
    sm83.execute(&mut mc)?;
    assert_eq!(sm83.pc(), 0x28);
    assert_eq!(sm83.reg.sp, 0xC00E);
    assert_eq!(mc.read(0xC00E)?, 6);
    assert_eq!(mc.read(0xC00F)?, 0);
    Ok(())
}

#[test]
fn pop_hl_reads_stack() -> Result<(), ExecErr> {
    let mut mc = MemoryController::new(IO::init(), ROM::new_copy_from_slice(&[0xE1]));
    mc.write(0xC000, 0x34)?;
    mc.write(0xC001, 0x12)?;
    let mut sm83 = SM83::init();
    sm83.reg = RegBuilder::new().sp(0xC000).reg();
    sm83.execute(&mut mc)?;
    assert_eq!(sm83.reg.hl(), 0x1234);
    assert_eq!(sm83.reg.sp, 0xC002);
    assert_eq!(sm83.pc(), 1);
    Ok(())
}

#[test]
fn failing_call_keeps_pc_and_moves_sp() {
    // the stack points into ROM: the first push is refused
    let (r, sm83, _) = run(RegBuilder::new().sp(0x0100).reg(), &[0xCD, 0x50, 0x01]);
    assert_eq!(r, Err(ExecErr::GeneralError("memory location not writable")));
    assert_eq!(sm83.pc(), 0);
    assert_eq!(sm83.reg.sp, 0x00FF);
}

#[test]
fn prefix_swap_and_invalid_prefix() {
    let (r, sm83, _) = run(RegBuilder::new().a(0xAB).f(0xF0).reg(), &[0xCB, 0x37]);
    assert_eq!(r, Ok(0xCB));
    assert_eq!(sm83.reg.a, 0xBA);
    assert_eq!(sm83.reg.f, 0x00);
    assert_eq!(sm83.pc(), 2);
    let (r, sm83, _) = run(RegBuilder::new().a(0x00).reg(), &[0xCB, 0x37]);
    assert_eq!(r, Ok(0xCB));
    assert_eq!(sm83.reg.f, Z);
    let (r, sm83, _) = run(RegBuilder::new().a(0xAB).reg(), &[0xCB, 0x00]);
    assert_eq!(r, Err(ExecErr::GeneralError("invalid prefix instruction")));
    assert_eq!(sm83.pc(), 0);
    assert_eq!(sm83.reg.a, 0xAB);
}

#[test]
fn add_and_logic_flags() {
    let (_, s, _) = run(RegBuilder::new().a(0x88).reg(), &[0x87]);
    assert_eq!(s.reg.a, 0x10);
    assert_eq!(s.reg.f, H | C);
    let (_, s, _) = run(RegBuilder::new().a(0x80).reg(), &[0x87]);
    assert_eq!(s.reg.a, 0x00);
    assert_eq!(s.reg.f, Z | C);
    let (_, s, _) = run(RegBuilder::new().a(0xF0).c(0x0F).reg(), &[0xA1]);
    assert_eq!(s.reg.a, 0x00);
    assert_eq!(s.reg.f, Z | H);
    let (_, s, _) = run(RegBuilder::new().a(0xF0).reg(), &[0xE6, 0x30]);
    assert_eq!(s.reg.a, 0x30);
    assert_eq!(s.reg.f, H);
    assert_eq!(s.pc(), 2);
    let (_, s, _) = run(RegBuilder::new().a(0xF0).c(0xFF).reg(), &[0xA9]);
    assert_eq!(s.reg.a, 0x0F);
    assert_eq!(s.reg.f, 0);
    let (_, s, _) = run(RegBuilder::new().a(0x01).b(0x02).f(0xF0).reg(), &[0xB0]);
    assert_eq!(s.reg.a, 0x03);
    assert_eq!(s.reg.f, 0);
    let (_, s, _) = run(RegBuilder::new().a(0x01).reg(), &[0x0F]);
    assert_eq!(s.reg.a, 0x80);
    assert_eq!(s.reg.f, C);
}

#[test]
fn register_moves() {
    let (_, s, _) = run(RegBuilder::new().a(0x42).reg(), &[0x47]);
    assert_eq!(s.reg.b, 0x42);
    let (_, s, _) = run(RegBuilder::new().a(0x43).reg(), &[0x4F]);
    assert_eq!(s.reg.c, 0x43);
    let (_, s, _) = run(RegBuilder::new().a(0x44).reg(), &[0x5F]);
    assert_eq!(s.reg.e, 0x44);
    let (_, s, _) = run(RegBuilder::new().c(0x45).reg(), &[0x79]);
    assert_eq!(s.reg.a, 0x45);
    let (_, s, _) = run(Register::zero(), &[0x16, 0x99]);
    assert_eq!(s.reg.d, 0x99);
    assert_eq!(s.pc(), 2);
}

#[test]
fn high_page_and_interrupt_enable() -> Result<(), ExecErr> {
    // ldh (0xFF) %a writes the interrupt enable register
    let (r, s, _) = run(RegBuilder::new().a(0x1F).reg(), &[0xE0, 0xFF]);
    assert_eq!(r, Ok(0xE0));
    assert_eq!(s.reg.ie, 0x1F);
    // ldh %a (0xFF) reads it back
    let mut reg = Register::zero();
    reg.ie = 0x05;
    let (_, s, _) = run(reg, &[0xF0, 0xFF]);
    assert_eq!(s.reg.a, 0x05);
    Ok(())
}

#[test]
fn invalid_op_code_reports_address() {
    let (r, s, _) = run(RegBuilder::new().pc(2).reg(), &[0x00, 0x00, 0xD3]);
    assert_eq!(r, Err(ExecErr::InvalidInstruction(0xD3, 2)));
    assert_eq!(s.pc(), 2);
}

#[test]
fn flag_and_pair_round_trips() {
    let mut reg = Register::zero();
    for flag in [Z, N, H, C] {
        reg.set_flag(flag, 7);
        assert_eq!(reg.get_flag(flag), 1);
    }
    assert_eq!(reg.f, 0xF0);
    reg.set_flag(N, 0);
    assert_eq!(reg.get_flag(N), 0);
    assert_eq!(reg.get_flag(Z), 1);
    assert_eq!(reg.f, 0xB0);
    reg.set_bc(0x1234);
    assert_eq!((reg.b, reg.c, reg.bc()), (0x12, 0x34, 0x1234));
    reg.set_de(0xBEEF);
    assert_eq!(reg.de(), 0xBEEF);
    reg.set_hl(0x00FF);
    assert_eq!((reg.h, reg.l), (0x00, 0xFF));
    let r = Register::a(9);
    assert_eq!(r.a, 9);
    assert!(r.ime);
}

#[test]
fn vblank_interrupt_calls_0x40() -> Result<(), ExecErr> {
    let mut mc = MemoryController::new(IO::init(), ROM::new_copy_from_slice(&[0x00]));
    let mut sm83 = SM83::init();
    sm83.reg = RegBuilder::new().pc(0x1234).sp(0xC100).reg();
    sm83.reg.ie = 0x01;
    vblank_interrupt(&mut sm83, &mut mc)?;
    assert_eq!(sm83.pc(), 0x40);
    assert_eq!(sm83.reg.sp, 0xC0FE);
    assert_eq!(mc.read(0xC0FE)?, 0x34);
    assert_eq!(mc.read(0xC0FF)?, 0x12);
    // disabled: nothing happens
    sm83.reg.ime = false;
    vblank_interrupt(&mut sm83, &mut mc)?;
    assert_eq!(sm83.pc(), 0x40);
    sm83.reg.ime = true;
    sm83.reg.ie = 0x02;
    vblank_interrupt(&mut sm83, &mut mc)?;
    assert_eq!(sm83.pc(), 0x40);
    assert_eq!(sm83.reg.sp, 0xC0FE);
    Ok(())
}

#[test]
fn rst_then_ret_returns_after_rst() -> Result<(), ExecErr> {
    // 0x05: rst 0x28; 0x28: ret
    let mut rom = [0u8; 0x29];
    rom[5] = 0xEF;
    rom[0x28] = 0xC9;
    let mut mc = MemoryController::new(IO::init(), ROM::new_copy_from_slice(&rom));
    let mut sm83 = SM83::init();
    sm83.reg = RegBuilder::new().pc(5).sp(0xFFF0).b(9).reg();
    sm83.execute(&mut mc)?;
    sm83.execute(&mut mc)?;
    assert_eq!(sm83.pc(), 6);
    assert_eq!(sm83.reg.sp, 0xFFF0);
    assert_eq!(sm83.reg.b, 9);
    Ok(())
}
