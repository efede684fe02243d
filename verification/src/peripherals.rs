//! The capability set the core consumes from its embedding host: RAM over a
//! 16-bit address space, a fixed number of bit-packed pixel rows (bit 0 is
//! the leftmost pixel), a 16-key bitmask, and an audio-enable level.
//!
//! The trait carries full contracts over abstract views of the host state,
//! so the execution engine is verified against any conforming host.
//! `MemoryPeripherals` is a plain in-memory host for embedders and tests.

use vstd::prelude::*;
use vstd::pervasive::VecAdditionalExecFns;

verus! {

/// Host-owned peripheral state, exposed to the core through reads and
/// writes of plain values. A conforming implementation touches nothing but
/// the part each method names: writing RAM leaves rows, keys and sound as
/// they were, and so on.
pub trait Peripherals: Sized {
    /// One byte per address of the 16-bit space (only the low 12 bits are
    /// architecturally meaningful; the rest exist so that wrapped pointer
    /// arithmetic stays in range).
    spec fn ram(&self) -> Seq<u8>;

    /// The 32 bit-packed pixel rows; bit 0 of a row is the leftmost pixel.
    spec fn rows(&self) -> Seq<u64>;

    /// Keypad bitmask: bit i set means key i is currently down.
    spec fn keys(&self) -> u16;

    /// Audio level last handed to the host; nonzero enables the tone.
    spec fn sound(&self) -> u8;

    fn read_ram(&self, addr: u16) -> (r: u8)
        requires
            self.ram().len() == 0x10000,
        ensures
            r == self.ram()[addr as int],
    ;

    fn write_ram(&mut self, addr: u16, val: u8)
        requires
            old(self).ram().len() == 0x10000,
        ensures
            final(self).ram() == old(self).ram().update(addr as int, val),
            final(self).rows() == old(self).rows(),
            final(self).keys() == old(self).keys(),
            final(self).sound() == old(self).sound(),
    ;

    fn get_pixel_row(&self, y: u8) -> (r: u64)
        requires
            self.rows().len() == 32,
            y < 32,
        ensures
            r == self.rows()[y as int],
    ;

    fn set_pixel_row(&mut self, y: u8, row: u64)
        requires
            old(self).rows().len() == 32,
            y < 32,
        ensures
            final(self).rows() == old(self).rows().update(y as int, row),
            final(self).ram() == old(self).ram(),
            final(self).keys() == old(self).keys(),
            final(self).sound() == old(self).sound(),
    ;

    fn get_keys(&self) -> (r: u16)
        ensures
            r == self.keys(),
    ;

    fn set_sound(&mut self, val: u8)
        ensures
            final(self).sound() == val,
            final(self).ram() == old(self).ram(),
            final(self).rows() == old(self).rows(),
            final(self).keys() == old(self).keys(),
    ;
}

/// A host made of plain buffers: 64 KiB of RAM, 32 pixel rows, a keypad
/// bitmask and a sound level. The embedding program loads a ROM by writing
/// bytes, feeds key state through `set_keys`, and reads rows back out.
pub struct MemoryPeripherals {
    pub ram_bytes: Vec<u8>,
    pub pixel_rows: [u64; 32],
    pub key_mask: u16,
    pub sound_level: u8,
}

impl MemoryPeripherals {
    /// A host with all RAM and all pixels zero, no key down, sound off.
    pub fn new() -> (p: MemoryPeripherals)
        ensures
            p.ram().len() == 0x10000,
            forall|i: int| 0 <= i < 0x10000 ==> p.ram()[i] == 0,
            p.rows().len() == 32,
            forall|i: int| 0 <= i < 32 ==> p.rows()[i] == 0,
            p.keys() == 0,
            p.sound() == 0,
    {
        let mut ram_bytes: Vec<u8> = Vec::new();
        let mut i: usize = 0;
        while i < 0x10000
            invariant
                i <= 0x10000,
                ram_bytes@.len() == i,
                forall|j: int| 0 <= j < i ==> ram_bytes@[j] == 0,
            decreases 0x10000 - i,
        {
            ram_bytes.push(0);
            i += 1;
        }
        MemoryPeripherals { ram_bytes, pixel_rows: [0; 32], key_mask: 0, sound_level: 0 }
    }

    /// Host-side keypad update: replaces the current key bitmask.
    pub fn set_keys(&mut self, mask: u16)
        ensures
            final(self).keys() == mask,
            final(self).ram() == old(self).ram(),
            final(self).rows() == old(self).rows(),
            final(self).sound() == old(self).sound(),
    {
        self.key_mask = mask;
    }
}

impl Peripherals for MemoryPeripherals {
    open spec fn ram(&self) -> Seq<u8> {
        self.ram_bytes@
    }

    open spec fn rows(&self) -> Seq<u64> {
        self.pixel_rows@
    }

    open spec fn keys(&self) -> u16 {
        self.key_mask
    }

    open spec fn sound(&self) -> u8 {
        self.sound_level
    }

    fn read_ram(&self, addr: u16) -> (r: u8) {
        self.ram_bytes[addr as usize]
    }

    fn write_ram(&mut self, addr: u16, val: u8) {
        self.ram_bytes.set(addr as usize, val);
    }

    fn get_pixel_row(&self, y: u8) -> (r: u64) {
        self.pixel_rows[y as usize]
    }

    fn set_pixel_row(&mut self, y: u8, row: u64) {
        self.pixel_rows[y as usize] = row;
    }

    fn get_keys(&self) -> (r: u16) {
        self.key_mask
    }

    fn set_sound(&mut self, val: u8) {
        self.sound_level = val;
    }
}

} // verus!
