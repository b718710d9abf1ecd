use std::collections::HashMap;

use soma::disasm::{
    centre_index, disassemble_pc, instr_in_range, instr_label, predict_disassemble_around_pc, viewport_range,
    visible_rows, DisassembleInstr, INVALID_OP_CODE,
};
use soma::dmg::DMG;
use soma::rom::ROM;

fn dmg_with(code: &[u8]) -> DMG {
    let mut image = vec![0u8; 0x100];
    image.extend_from_slice(code);
    DMG::init(ROM::new_copy_from_slice(&image))
}

/// Every byte a one byte instruction, but 0x3E (two bytes) and 0xC3 (three).
fn table() -> Vec<(u8, u8)> {
    (0..=255u8)
        .map(|b| match b {
            0x3E => (0x3E, 2),
            0xC3 => (0xC3, 3),
            _ => (b, 1),
        })
        .collect()
}

fn entry(cache: &HashMap<u16, DisassembleInstr>, a: u16) -> Option<(bool, u8, u8)> {
    cache.get(&a).map(|i| (i.confirmed, i.op_code, i.len))
}

#[test]
fn disassemble_pc_keeps_confirmed_entries() {
    let dmg = dmg_with(&[0x3E, 0x07, 0x00]);
    let t = table();
    let mut cache = HashMap::new();
    disassemble_pc(0x100, &dmg, &mut cache, true, &t);
    assert_eq!(entry(&cache, 0x100), Some((true, 0x3E, 2)));
    disassemble_pc(0x100, &dmg, &mut cache, false, &t);
    assert_eq!(entry(&cache, 0x100), Some((true, 0x3E, 2)));
    disassemble_pc(0x102, &dmg, &mut cache, false, &t);
    assert_eq!(entry(&cache, 0x102), Some((false, 0x00, 1)));
    disassemble_pc(0x102, &dmg, &mut cache, true, &t);
    assert_eq!(entry(&cache, 0x102), Some((true, 0x00, 1)));
}

#[test]
fn listing_walks_cached_instructions() {
    let dmg = dmg_with(&[0x3E, 0x07, 0x00, 0x00]);
    let t = table();
    let mut cache = HashMap::new();
    disassemble_pc(0x100, &dmg, &mut cache, true, &t);
    let listed: Vec<(u16, Option<u8>)> =
        instr_in_range(&cache, 0x100, 0x104).into_iter().map(|(a, i)| (a, i.map(|i| i.len))).collect();
    assert_eq!(listed, vec![(0x100, Some(2)), (0x102, None), (0x103, None)]);
    assert_eq!(instr_in_range(&cache, 0x100, 0x100).len(), 0);
}

#[test]
fn prediction_follows_instruction_lengths() {
    let dmg = dmg_with(&[0x3E, 0x07, 0xC3, 0x00, 0x01, 0x00]);
    let t = table();
    let mut cache = HashMap::new();
    predict_disassemble_around_pc(0x100, 0x105, &dmg, &mut cache, &t);
    assert_eq!(entry(&cache, 0x100), Some((false, 0x3E, 2)));
    assert_eq!(entry(&cache, 0x101), None);
    assert_eq!(entry(&cache, 0x102), Some((false, 0xC3, 3)));
    assert_eq!(entry(&cache, 0x105), Some((false, 0x00, 1)));
    assert_eq!(cache.len(), 3);
}

#[test]
fn prediction_resyncs_on_confirmed_instruction() {
    // 0x3E at 0x100 would swallow 0x101, where a confirmed instruction is
    let dmg = dmg_with(&[0x3E, 0x00, 0x00]);
    let t = table();
    let mut cache = HashMap::new();
    disassemble_pc(0x101, &dmg, &mut cache, true, &t);
    predict_disassemble_around_pc(0x100, 0x101, &dmg, &mut cache, &t);
    assert_eq!(entry(&cache, 0x100), Some((false, INVALID_OP_CODE, 1)));
    assert_eq!(entry(&cache, 0x101), Some((true, 0x00, 1)));
    // the marking loop also covers 0x102 up to 2 * 0x101 - 1
    assert_eq!(entry(&cache, 0x102), Some((false, INVALID_OP_CODE, 1)));
    assert_eq!(entry(&cache, 0x201), Some((false, INVALID_OP_CODE, 1)));
    assert_eq!(entry(&cache, 0x202), None);
    assert_eq!(cache.len(), 2 + 0x100);
}

#[test]
fn prediction_marks_past_the_confirmed_instruction() {
    // a two byte instruction at 0x101 runs into the confirmed one at 0x102;
    // the marking loop runs on from 0x103 to 2 * 0x102 - 1, confirmed
    // instructions included
    let dmg = dmg_with(&[0x00, 0x3E, 0x00, 0x00]);
    let t = table();
    let mut cache = HashMap::new();
    disassemble_pc(0x102, &dmg, &mut cache, true, &t);
    disassemble_pc(0x103, &dmg, &mut cache, true, &t);
    predict_disassemble_around_pc(0x101, 0x103, &dmg, &mut cache, &t);
    assert_eq!(entry(&cache, 0x101), Some((false, INVALID_OP_CODE, 1)));
    assert_eq!(entry(&cache, 0x102), Some((true, 0x00, 1)));
    assert_eq!(entry(&cache, 0x103), Some((false, INVALID_OP_CODE, 1)));
    assert_eq!(entry(&cache, 0x203), Some((false, INVALID_OP_CODE, 1)));
    assert_eq!(cache.len(), 2 + 0x101);
}

#[test]
fn instruction_labels() {
    let valid = DisassembleInstr { confirmed: true, op_code: 0x3E, len: 2 };
    let guessed = DisassembleInstr { confirmed: false, op_code: 0x3E, len: 2 };
    let invalid = DisassembleInstr { confirmed: true, op_code: INVALID_OP_CODE, len: 1 };
    assert_eq!(instr_label(Some(valid), "(ld %a 0x7)", 0x3E), ("(ld %a 0x7)".to_string(), true));
    assert_eq!(instr_label(Some(guessed), "(ld %a 0x7)", 0x3E), ("(ld %a 0x7)".to_string(), false));
    assert_eq!(instr_label(Some(invalid), "(!!!)", 0xDD), ("(!!!) op_code=0xdd".to_string(), false));
    assert_eq!(instr_label(Some(invalid), "(!!!)", 0x0B), ("(!!!) op_code=0xb".to_string(), false));
    assert_eq!(instr_label(None, "ignored", 0x00), ("???".to_string(), false));
}

#[test]
fn viewport_is_clamped() {
    assert_eq!(viewport_range(0x100, 10, 0x8000), (0x100 - 30, 0x100 + 30));
    assert_eq!(viewport_range(10, 10, 0x8000), (0, 40));
    assert_eq!(viewport_range(0x7FF0, 10, 0x8000), (0x7FF0 - 30, 0x8000));
}

#[test]
fn centre_is_found_or_zero() {
    let listed = vec![(0x100u16, None), (0x101, None), (0x102, None)];
    assert_eq!(centre_index(&listed, 0x101), 1);
    assert_eq!(centre_index(&listed, 0x200), 0);
}

#[test]
fn visible_rows_around_centre() {
    assert_eq!(visible_rows(50, 20, 100, 0x8000), (40, 60));
    // near the start the end moves on
    assert_eq!(visible_rows(3, 20, 100, 0x8000), (0, 20));
    // near the end the start moves back
    assert_eq!(visible_rows(98, 20, 100, 0x8000), (80, 100));
}

#[test]
fn prediction_reports_unreadable_bytes() {
    let dmg = dmg_with(&[0x00]);
    let t = table();
    let mut cache = HashMap::new();
    assert!(soma::disasm::try_predict_disassemble_around_pc(0x100, 0x101, &dmg, &mut cache, &t));
    assert_eq!(cache.len(), 2);
    let mut cache = HashMap::new();
    assert!(!soma::disasm::try_predict_disassemble_around_pc(0xFFFE, 0xFFFF, &dmg, &mut cache, &t));
}

#[test]
fn asm_view_lists_rows_around_the_centre() {
    let dmg = dmg_with(&[0x3E, 0x07, 0xC3, 0x00, 0x01, 0x00]);
    let t = table();
    let mut cache = HashMap::new();
    let (listing, start, end) =
        soma::disasm::asm_view_listing(0x100, true, 4, &dmg, &mut cache, &t).expect("listing");
    let addrs: Vec<u16> = listing.iter().map(|e| e.0).collect();
    let mut expected: Vec<u16> = (0xF4..0x100).collect();
    expected.extend_from_slice(&[0x100, 0x102, 0x105]);
    assert_eq!(addrs, expected);
    assert_eq!((start, end), (10, 14));
    assert_eq!(entry(&cache, 0x100), Some((true, 0x3E, 2)));
    assert_eq!(entry(&cache, 0x102), Some((false, 0xC3, 3)));
}

#[test]
fn asm_view_past_the_rom_is_not_listed() {
    let dmg = dmg_with(&[0x00]);
    let t = table();
    let mut cache = HashMap::new();
    // the viewport would start after the end of the ROM
    assert!(soma::disasm::asm_view_listing(0x2000, false, 4, &dmg, &mut cache, &t).is_none());
}
