use soma::io::IO;
use soma::memory::MemoryController;
use soma::rom::{ROM, MAX_ROM_SIZE};
use soma::sm83::ExecErr;
use soma::ROM as BorrowedRom;

fn mc_with(data: &[u8]) -> MemoryController {
    MemoryController::new(IO::init(), ROM::new_copy_from_slice(data))
}

#[test]
fn rom_copy_pads_with_zero() {
    let rom = ROM::new_copy_from_slice(&[1, 2, 3]);
    assert_eq!(rom.size(), 3);
    assert_eq!(rom.read_u8(0), Ok(1));
    assert_eq!(rom.read_u8(2), Ok(3));
    assert_eq!(rom.read_u8(3), Ok(0));
    assert_eq!(rom.read_u8(MAX_ROM_SIZE - 1), Ok(0));
    assert_eq!(rom.read_u16(1), Ok(0x0302));
}

#[test]
fn borrowed_rom_reads_little_endian() {
    let data = [0x34u8, 0x12, 0xFF];
    let rom = BorrowedRom::new(&data);
    assert_eq!(rom.read_u8(2), 0xFF);
    assert_eq!(rom.read_u16(0), 0x1234);
    assert_eq!(rom.read_u16(1), 0xFF12);
}

#[test]
fn io_write_then_read() {
    let mut io = IO::init();
    assert_eq!(io.write(0xFF44, 9), Ok(()));
    assert_eq!(io.read(0xFF44), 9);
    assert_eq!(io.read(0xFF00), 0);
    assert_eq!(io.write(0xFFFF, 1), Err(ExecErr::GeneralError("illegal IO address")));
    assert!(IO::init_with_value(0xFFFF, 1).is_err());
    let io = IO::init_with_value(0xFFFE, 7).unwrap();
    assert_eq!(io.read(0xFFFE), 7);
}

#[test]
fn read_after_write_in_each_writable_area() -> Result<(), ExecErr> {
    let mut mc = mc_with(&[0xAA]);
    for (addr, v) in [(0x8000u16, 1u8), (0x9FFF, 2), (0xC000, 3), (0xDFFF, 4), (0xFE00, 5), (0xFEFF, 6), (0xFF00, 7), (0xFFFE, 8)] {
        mc.write(addr, v)?;
        assert_eq!(mc.read(addr)?, v, "addr 0x{:x}", addr);
    }
    // other locations keep their values
    assert_eq!(mc.read(0x8001)?, 0);
    assert_eq!(mc.read(0x0000)?, 0xAA);
    Ok(())
}

#[test]
fn memory_errors() {
    let mut mc = mc_with(&[0x11, 0x22, 0x33]);
    assert_eq!(mc.read(0xA000), Err(ExecErr::GeneralError("mem read error")));
    assert_eq!(mc.read(0xE000), Err(ExecErr::GeneralError("mem read error")));
    assert_eq!(mc.write(0x0000, 1), Err(ExecErr::GeneralError("memory location not writable")));
    assert_eq!(mc.write(0x4000, 1), Err(ExecErr::GeneralError("memory location not writable")));
    assert_eq!(mc.write(0xA000, 1), Err(ExecErr::GeneralError("memory location not writable")));
    assert_eq!(mc.write(0xFFFF, 1), Err(ExecErr::GeneralError("illegal IO address")));
    assert_eq!(mc.read_u16(0x0000), Ok(0x2211));
    assert_eq!(mc.read_u16(0x3FFF), Err(ExecErr::GeneralError("mem read addr outside ROM space")));
    assert_eq!(mc.read_u16(0x8000), Err(ExecErr::GeneralError("mem read addr outside ROM space")));
    // selecting a bank is accepted and changes no byte
    assert_eq!(mc.write(0x2000, 0x07), Ok(()));
    assert_eq!(mc.read(0x0001), Ok(0x22));
    mc.rom = None;
    assert_eq!(mc.read(0x0000), Err(ExecErr::GeneralError("no ROM attached")));
    assert_eq!(mc.read(0x4000), Err(ExecErr::GeneralError("no ROM attached")));
    assert_eq!(mc.read_u16(0x0000), Err(ExecErr::GeneralError("no ROM attached")));
}

#[test]
fn readable_locations() -> Result<(), ExecErr> {
    let mut mc = MemoryController::new(IO::init(), ROM::new_copy_from_slice(&[1, 2, 3]));
    assert!(mc.readable(0x0000));
    assert!(mc.readable(0x3FFF));
    // the switchable bank maps past the 16 KiB ROM buffer
    assert!(!mc.readable(0x4000));
    assert!(!mc.readable(0x7FFF));
    assert!(mc.readable(0x8000));
    assert!(mc.readable(0xA000));
    assert!(mc.readable(0xFFFE));
    assert!(!mc.readable(0xFFFF));
    // bank 0 has no offset to read from either
    mc.write(0x2000, 0)?;
    assert!(!mc.readable(0x4000));
    Ok(())
}
