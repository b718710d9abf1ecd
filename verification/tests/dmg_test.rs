use soma::dmg::{DMG, FB_RGB_SIZE, LY_ADDR};
use soma::rom::ROM;
use soma::sm83::ExecErr;

fn dmg_with(code: &[u8]) -> DMG {
    let mut image = vec![0u8; 0x100];
    image.extend_from_slice(code);
    DMG::init(ROM::new_copy_from_slice(&image))
}

#[test]
fn dmg_starts_at_0x100() {
    let dmg = dmg_with(&[]);
    assert_eq!(dmg.sm83.pc(), 0x100);
    assert_eq!(dmg.sm83.reg.sp, 0xFFFE);
    assert!(!dmg.sm83.halted());
}

#[test]
fn dmg_step_reports_pc_and_op_code() -> Result<(), ExecErr> {
    let mut dmg = dmg_with(&[0x3E, 0x07, 0x00]);
    let s = dmg.step()?;
    assert_eq!((s.pc, s.op_code), (0x100, 0x3E));
    assert_eq!(dmg.sm83.reg.a, 7);
    let s = dmg.step()?;
    assert_eq!((s.pc, s.op_code), (0x102, 0x00));
    Ok(())
}

#[test]
fn halted_dmg_does_not_step() {
    let mut dmg = dmg_with(&[0x00]);
    dmg.sm83.halted = true;
    assert_eq!(dmg.step().err(), Some(ExecErr::GeneralError("Halted")));
    assert_eq!(dmg.sm83.pc(), 0x100);
}

#[test]
fn scanline_is_stored() -> Result<(), ExecErr> {
    let mut dmg = dmg_with(&[]);
    dmg.update_scanline(42)?;
    assert_eq!(dmg.mc.read(LY_ADDR)?, 42);
    Ok(())
}

#[test]
fn fb_rgb_draws_tiles_and_keeps_the_rest() -> Result<(), ExecErr> {
    let mut dmg = dmg_with(&[]);
    // tile data at 0x8000, tile 1: first row bytes 0b1000_0001, 0b1100_0000
    dmg.mc.write(0xFF40, 0x10)?;
    dmg.mc.write(0x8010, 0b1000_0001)?;
    dmg.mc.write(0x8011, 0b1100_0000)?;
    // tile (1, 0) of the screen shows tile 1
    dmg.mc.write(0x9801, 1)?;
    let mut fb = vec![0x55u8; FB_RGB_SIZE + 4];
    dmg.fb_rgb(&mut fb)?;
    let px = |x: usize, y: usize| (fb[(y * 160 + x) * 3], fb[(y * 160 + x) * 3 + 1], fb[(y * 160 + x) * 3 + 2]);
    // tile (0, 0) shows tile 0, all colour 0
    assert_eq!(px(0, 0), (0xEA, 0xEA, 0xEA));
    // tile (1, 0), row 0: pixel 0 has both bits (3), pixel 1 the second (1), pixel 7 the first (2)
    assert_eq!(px(8, 0), (0x1F, 0x60, 0x18));
    assert_eq!(px(9, 0), (0x91, 0xCC, 0x78));
    assert_eq!(px(10, 0), (0xEA, 0xEA, 0xEA));
    assert_eq!(px(15, 0), (0x51, 0x8C, 0x52));
    assert_eq!(px(8, 1), (0xEA, 0xEA, 0xEA));
    assert_eq!(px(159, 143), (0xEA, 0xEA, 0xEA));
    assert_eq!(&fb[FB_RGB_SIZE..], &[0x55, 0x55, 0x55, 0x55]);
    Ok(())
}

#[test]
fn fb_rgb_tile_data_at_0x8800() -> Result<(), ExecErr> {
    let mut dmg = dmg_with(&[]);
    dmg.mc.write(0x8800, 0xFF)?;
    let mut fb = vec![0u8; FB_RGB_SIZE];
    dmg.fb_rgb(&mut fb)?;
    assert_eq!(&fb[0..3], &[0x51, 0x8C, 0x52]);
    Ok(())
}

#[test]
fn step_panics_only_past_the_address_space() -> Result<(), ExecErr> {
    let mut dmg = dmg_with(&[0x00]);
    assert!(!dmg.step_panics());
    // 0xFFFF cannot be read
    dmg.sm83.reg.pc = 0xFFFF;
    assert!(dmg.step_panics());
    // a NOP (the zeroed I/O byte) at 0xFFFE moves on to 0xFFFF
    dmg.sm83.reg.pc = 0xFFFE;
    assert!(!dmg.step_panics());
    // LD A,d8 at 0xFFFE would read its operand from 0xFFFF
    dmg.mc.write(0xFFFE, 0x3E)?;
    assert!(dmg.step_panics());
    // RET with the stack pointer at 0xFFFF
    dmg.mc.write(0xFFFE, 0xC9)?;
    dmg.sm83.reg.sp = 0xFFFF;
    assert!(dmg.step_panics());
    // a halted CPU does not run at all
    dmg.sm83.halted = true;
    assert!(!dmg.step_panics());
    Ok(())
}
