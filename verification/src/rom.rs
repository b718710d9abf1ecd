//! Cartridge ROM storage.

use vstd::prelude::*;

verus! {

/// The largest ROM image (in bytes) that a [`ROM`] can hold.
pub const MAX_ROM_SIZE: usize = 16384;

/// A ROM image copied into a fixed buffer of [`MAX_ROM_SIZE`] bytes; the
/// bytes after the image are zero.
///
/// A ROM can contain more than u16::MAX data (the maximum address space
/// of the SM83). This is why the indexes on read are usize on the ROM.
pub struct ROM {
    data_buffer: [u8; 16384],
    size: usize,
}

impl ROM {
    /// The image fits into the buffer.
    #[verifier::type_invariant]
    spec fn size_fits(&self) -> bool {
        self.size <= MAX_ROM_SIZE
    }

    /// The whole buffer: the image followed by zeros.
    pub closed spec fn buffer(&self) -> Seq<u8> {
        self.data_buffer@
    }

    /// The length of the image the ROM was created from.
    pub closed spec fn spec_size(&self) -> nat {
        self.size as nat
    }

    pub proof fn lemma_buffer_len(&self)
        ensures
            self.buffer().len() == MAX_ROM_SIZE,
    {
    }

    /// Copies `data_in` into a new ROM; the image must fit into the buffer.
    pub fn new_copy_from_slice(data_in: &[u8]) -> (rom: ROM)
        requires
            data_in@.len() <= MAX_ROM_SIZE,
        ensures
            rom.buffer().len() == MAX_ROM_SIZE,
            rom.spec_size() == data_in@.len(),
            forall|i: int| 0 <= i < data_in@.len() ==> #[trigger] rom.buffer()[i] == data_in@[i],
            forall|i: int| data_in@.len() <= i < MAX_ROM_SIZE ==> #[trigger] rom.buffer()[i] == 0,
    {
        let mut data_buffer = [0u8; 16384];
        let len = data_in.len();
        let mut i: usize = 0;
        while i < len
            invariant
                len == data_in@.len(),
                len <= MAX_ROM_SIZE,
                i <= len,
                data_buffer@.len() == MAX_ROM_SIZE,
                forall|j: int| 0 <= j < i ==> #[trigger] data_buffer@[j] == data_in@[j],
                forall|j: int| len <= j < MAX_ROM_SIZE ==> #[trigger] data_buffer@[j] == 0,
            decreases len - i,
        {
            data_buffer[i] = data_in[i];
            i = i + 1;
        }
        ROM { data_buffer, size: len }
    }

    pub fn size(&self) -> (s: usize)
        ensures
            s == self.spec_size(),
            s <= MAX_ROM_SIZE,
    {
        proof {
            use_type_invariant(self);
        }
        self.size
    }

    /// Reads the byte at `ix` of the buffer, which must lie inside it.
    pub fn read_u8(&self, ix: usize) -> (r: Result<u8, &'static str>)
        requires
            ix < MAX_ROM_SIZE,
        ensures
            r == Ok::<u8, &'static str>(self.buffer()[ix as int]),
    {
        Ok(self.data_buffer[ix])
    }

    /// Reads the little-endian word at `ix`.
    pub fn read_u16(&self, ix: usize) -> (r: Result<u16, &'static str>)
        requires
            ix + 1 < MAX_ROM_SIZE,
        ensures
            r == Ok::<u16, &'static str>(
                (self.buffer()[ix + 1] * 256 + self.buffer()[ix as int]) as u16,
            ),
    {
        Ok(crate::bytes::u16_from_le(self.data_buffer[ix], self.data_buffer[ix + 1]))
    }
}

} // verus!
