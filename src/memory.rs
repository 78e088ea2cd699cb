use vstd::prelude::*;
use crate::bus::{ROM_END, ROM_SIZE};
use crate::error::MemoryError;

verus! {

/// A flat 64 KiB address space without devices: ROM below 0x8000, and RAM,
/// stack and a plain byte window above it.
pub struct Memory {
    data: Vec<u8>,
}

impl View for Memory {
    type V = Seq<u8>;

    closed spec fn view(&self) -> Seq<u8> {
        self.data@
    }
}

impl Memory {
    pub open spec fn wf(&self) -> bool {
        self@.len() == 0x10000
    }

    pub fn new() -> (r: Self)
        ensures
            r.wf(),
            forall|i: int| 0 <= i < 0x10000 ==> r@[i] == 0,
    {
        Memory { data: vec![0u8; 0x10000] }
    }

    /// Copies `rom` to the start of the address space.
    pub fn load_rom(&mut self, rom: &[u8]) -> (r: Result<(), MemoryError>)
        requires
            old(self).wf(),
        ensures
            final(self).wf(),
            rom@.len() <= ROM_SIZE ==> r is Ok && final(self)@ == rom@ + old(self)@.subrange(
                rom@.len() as int,
                0x10000,
            ),
            rom@.len() > ROM_SIZE ==> r == Err::<(), MemoryError>(MemoryError::InvalidRomSize(rom@.len() as usize))
                && final(self)@ == old(self)@,
    {
        if rom.len() > 0x8000 {
            return Err(MemoryError::InvalidRomSize(rom.len()));
        }
        let mut i: usize = 0;
        while i < rom.len()
            invariant
                self.wf(),
                i <= rom@.len() <= ROM_SIZE,
                forall|j: int| 0 <= j < i ==> self@[j] == rom@[j],
                forall|j: int| i <= j < 0x10000 ==> self@[j] == old(self)@[j],
            decreases rom@.len() - i,
        {
            self.data.set(i, rom[i]);
            i = i + 1;
        }
        assert(self@ =~= rom@ + old(self)@.subrange(rom@.len() as int, 0x10000));
        Ok(())
    }

    pub fn read_u8(&self, address: u16) -> (r: u8)
        requires
            self.wf(),
        ensures
            r == self@[address as int],
    {
        self.data[address as usize]
    }

    /// Writes a byte; ROM refuses.
    pub fn write_u8(&mut self, address: u16, value: u8) -> (r: Result<(), MemoryError>)
        requires
            old(self).wf(),
        ensures
            final(self).wf(),
            address <= ROM_END ==> r == Err::<(), MemoryError>(MemoryError::WriteNotPermitted(address))
                && final(self)@ == old(self)@,
            address > ROM_END ==> r is Ok && final(self)@ == old(self)@.update(address as int, value),
    {
        if address <= ROM_END {
            return Err(MemoryError::WriteNotPermitted(address));
        }
        self.data.set(address as usize, value);
        Ok(())
    }

    /// Reads the little-endian word at `address` and `address + 1` (wrapping).
    pub fn read_u16(&self, address: u16) -> (r: u16)
        requires
            self.wf(),
        ensures
            r == crate::bus::le_word(self@[address as int], self@[(address as int + 1) % 0x10000]),
    {
        let lo = self.data[address as usize];
        let hi = self.data[address.wrapping_add(1) as usize];
        crate::bus::make_word(lo, hi)
    }

    /// Writes a little-endian word; refused when either byte is in ROM.
    pub fn write_u16(&mut self, address: u16, value: u16) -> (r: Result<(), MemoryError>)
        requires
            old(self).wf(),
        ensures
            final(self).wf(),
            address <= ROM_END ==> r == Err::<(), MemoryError>(MemoryError::WriteNotPermitted(address))
                && final(self)@ == old(self)@,
            address == 0xFFFF ==> r == Err::<(), MemoryError>(MemoryError::WriteNotPermitted(0)) && final(self)@
                == old(self)@,
            ROM_END < address < 0xFFFF ==> r is Ok && final(self)@ == old(self)@.update(
                address as int,
                crate::bus::low_byte(value),
            ).update(address + 1, crate::bus::high_byte(value)),
    {
        if address <= ROM_END {
            return Err(MemoryError::WriteNotPermitted(address));
        }
        if address == 0xFFFF {
            return Err(MemoryError::WriteNotPermitted(0));
        }
        let (lo, hi) = crate::bus::split_word(value);
        self.data.set(address as usize, lo);
        self.data.set((address + 1) as usize, hi);
        Ok(())
    }
}

} // verus!
