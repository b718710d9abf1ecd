use soma::debugger::{
    byte_text, emulation_control, flag, resume_control, step_buttons_enabled, val_u16, val_u8, AsmViewAt, Breakpoints,
    DebuggerState, RegValueDisplay, StepControl,
};
use soma::rom::ROM;

#[test]
fn byte_values_in_each_display() {
    assert_eq!(val_u8(RegValueDisplay::Hex, 0x3E), "3E");
    assert_eq!(val_u8(RegValueDisplay::Hex, 0x05), "05");
    assert_eq!(val_u8(RegValueDisplay::Decimal, 0), "0");
    assert_eq!(val_u8(RegValueDisplay::Decimal, 255), "255");
    assert_eq!(val_u8(RegValueDisplay::Binary, 5), "00000101");
}

#[test]
fn word_values_in_each_display() {
    assert_eq!(val_u16(RegValueDisplay::Hex, 0x1234), "1234");
    assert_eq!(val_u16(RegValueDisplay::Hex, 0x00AB), "00AB");
    assert_eq!(val_u16(RegValueDisplay::Decimal, 65535), "65535");
    assert_eq!(val_u16(RegValueDisplay::Decimal, 100), "100");
    assert_eq!(val_u16(RegValueDisplay::Binary, 0x8001), "1000000000000001");
}

#[test]
fn flags_show_one_bit() {
    assert_eq!(flag(0x80, 0x80), "1");
    assert_eq!(flag(0x10, 0x80), "0");
    assert_eq!(flag(0xF0, 0x20), "1");
}

#[test]
fn instruction_bytes_column() {
    let rom = ROM::new_copy_from_slice(&[0x3E, 0x07, 0xC3]);
    let gap = " ".repeat(11);
    assert_eq!(byte_text(0, 1, &rom), format!("3E      {}", gap));
    assert_eq!(byte_text(0, 2, &rom), format!("3E 07   {}", gap));
    assert_eq!(byte_text(0, 3, &rom), format!("3E 07 C3{}", gap));
    assert_eq!(byte_text(0, 0, &rom), format!("        {}", gap));
}

#[test]
fn breakpoints_toggle() {
    let mut b = Breakpoints::new();
    assert!(!b.has_breakpoint_at(0x100));
    b.toggle_breakpoint(0x100);
    assert!(b.has_breakpoint_at(0x100));
    assert!(!b.has_breakpoint_at(0x101));
    b.toggle_breakpoint(0x100);
    assert!(!b.has_breakpoint_at(0x100));
}

#[test]
fn step_control_protocol() {
    assert_eq!(emulation_control(StepControl::Halt), (false, StepControl::Halt));
    assert_eq!(emulation_control(StepControl::NextStep), (true, StepControl::Halt));
    assert_eq!(emulation_control(StepControl::Run), (true, StepControl::Run));
    assert_eq!(emulation_control(StepControl::Resume), (true, StepControl::Resume));
    assert_eq!(step_buttons_enabled(StepControl::Halt), (true, true));
    assert_eq!(step_buttons_enabled(StepControl::Run), (false, false));
    assert_eq!(step_buttons_enabled(StepControl::NextStep), (false, false));
}

#[test]
fn jump_dialog() {
    let mut s = DebuggerState::new();
    assert!(s.reg_value_display == RegValueDisplay::Hex);
    assert!(matches!(s.asm_view_at, AsmViewAt::PC));
    s.open_jump_dialog();
    assert!(s.jump_to_dialog_state.show);
    s.jump_to_dialog_state.input_text = "1a0".to_string();
    s.confirm_jump();
    assert!(matches!(s.asm_view_at, AsmViewAt::FixedPos(0x1A0)));
    assert!(!s.jump_to_dialog_state.show);
    assert_eq!(s.jump_to_dialog_state.input_text, "");

    s.open_jump_dialog();
    s.jump_to_dialog_state.input_text = "xyz".to_string();
    s.confirm_jump();
    assert!(matches!(s.asm_view_at, AsmViewAt::FixedPos(0x1A0)));
    assert_eq!(s.jump_to_dialog_state.input_text, "");

    s.open_jump_dialog();
    s.jump_to_dialog_state.input_text = "200".to_string();
    s.cancel_jump();
    assert!(matches!(s.asm_view_at, AsmViewAt::FixedPos(0x1A0)));
    assert!(!s.jump_to_dialog_state.show);
}

#[test]
fn view_follows_pc_or_stays_fixed() {
    let mut s = DebuggerState::new();
    assert_eq!(s.view_position(0x150), (0x150, true));
    s.asm_view_at = AsmViewAt::FixedPos(0x200);
    assert_eq!(s.view_position(0x150), (0x200, false));
}

#[test]
fn step_and_resume_buttons() {
    let mut s = DebuggerState::new();
    s.asm_view_at = AsmViewAt::FixedPos(0x300);
    assert_eq!(s.step_clicked(), StepControl::NextStep);
    assert!(matches!(s.asm_view_at, AsmViewAt::PC));
    assert_eq!(resume_control(StepControl::Halt), Some(StepControl::Resume));
    assert_eq!(resume_control(StepControl::Run), None);
    assert_eq!(resume_control(StepControl::NextStep), None);
}
