//! A Game Boy (DMG) emulator core: the SM83 CPU, its memory map, the screen
//! rendering and the debugger protocol logic, with contracts checked by Verus.

use vstd::prelude::*;

pub mod bytes;
pub mod debugger;
pub mod disasm;
pub mod dmg;
pub mod fault;
pub mod gdb;
pub mod interrupt;
pub mod io;
pub mod memory;
pub mod rom;
pub mod semantics;
pub mod sm83;
pub mod text;

verus! {

/// A ROM image borrowed from the caller.
///
/// A ROM can contain more than u16::MAX data (the maximum address space
/// of the SM83). This is why the indexes on read are usize on the ROM.
pub struct ROM<'a> {
    data: &'a [u8],
}

impl<'a> View for ROM<'a> {
    type V = Seq<u8>;

    closed spec fn view(&self) -> Seq<u8> {
        self.data@
    }
}

impl<'a> ROM<'a> {
    pub fn new(data: &'a [u8]) -> (rom: ROM<'a>)
        ensures
            rom@ == data@,
    {
        ROM { data }
    }

    /// The byte at `ix`, which must lie inside the image.
    pub fn read_u8(&self, ix: usize) -> (v: u8)
        requires
            ix < self@.len(),
        ensures
            v == self@[ix as int],
    {
        self.data[ix]
    }

    /// The little-endian word at `ix`, which must lie inside the image.
    pub fn read_u16(&self, ix: usize) -> (v: u16)
        requires
            ix + 1 < self@.len(),
        ensures
            v == self@[ix + 1] * 256 + self@[ix as int],
    {
        bytes::u16_from_le(self.data[ix], self.data[ix + 1])
    }
}

} // verus!
