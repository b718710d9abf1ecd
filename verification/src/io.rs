//! The I/O port registers (0xFF00 to 0xFFFE).

use vstd::prelude::*;
use crate::sm83::ExecErr;

verus! {

/// Number of I/O port registers.
pub const IO_SIZE: usize = 255;

/// First address of the I/O address space.
pub const IO_BASE: u16 = 0xFF00;

/// The I/O port registers, one byte per address from 0xFF00 to 0xFFFE.
pub struct IO {
    values: [u8; 255],
}

impl View for IO {
    type V = Seq<u8>;

    closed spec fn view(&self) -> Seq<u8> {
        self.values@
    }
}

impl IO {
    pub proof fn lemma_len(&self)
        ensures
            self@.len() == IO_SIZE,
    {
    }

    /// All ports set to zero.
    pub fn init() -> (io: IO)
        ensures
            io@ == Seq::new(IO_SIZE as nat, |i: int| 0u8),
    {
        let io = IO { values: [0u8; 255] };
        assert(io@ =~= Seq::new(IO_SIZE as nat, |i: int| 0u8));
        io
    }

    /// For testing, init IO with a predefined value. The address must be in
    /// the I/O address space.
    pub fn init_with_value(addr: u16, v: u8) -> (r: Result<IO, ExecErr>)
        requires
            addr >= IO_BASE,
        ensures
            addr < 0xFFFF ==> (r matches Ok(io) && io@ == Seq::new(IO_SIZE as nat, |i: int| 0u8).update(
                addr - IO_BASE,
                v,
            )),
            addr == 0xFFFF ==> r == Err::<IO, ExecErr>(ExecErr::GeneralError("illegal IO address")),
    {
        let mut io = IO::init();
        match io.write(addr, v) {
            Ok(()) => Ok(io),
            Err(e) => Err(e),
        }
    }

    /// Writes `v` to the port at the absolute address `addr`, which must be in
    /// the I/O address space. 0xFFFF is not a port and is refused.
    pub fn write(&mut self, addr: u16, v: u8) -> (r: Result<(), ExecErr>)
        requires
            addr >= IO_BASE,
        ensures
            addr < 0xFFFF ==> r == Ok::<(), ExecErr>(()) && final(self)@ == old(self)@.update(
                addr - IO_BASE,
                v,
            ),
            addr == 0xFFFF ==> r == Err::<(), ExecErr>(ExecErr::GeneralError("illegal IO address"))
                && final(self)@ == old(self)@,
    {
        let offset = (addr - IO_BASE) as usize;
        if offset >= IO_SIZE {
            return Err(ExecErr::GeneralError("illegal IO address"));
        }
        self.values[offset] = v;
        no_op();
        Ok(())
    }

    /// Reads the port at the absolute address `addr` (0xFF00 to 0xFFFE).
    pub fn read(&self, addr: u16) -> (v: u8)
        requires
            IO_BASE <= addr < 0xFFFF,
        ensures
            v == self@[addr - IO_BASE],
    {
        self.values[(addr - IO_BASE) as usize]
    }
}

/// The effect of writing to a port: none of the ports has one yet.
fn no_op() {
}

} // verus!
