//! Flash held in RAM, for running the storage on a host (tests,
//! simulation) without flash hardware.

use vstd::prelude::*;
use crate::runtime::log_nv::{FlashDriver, FlashMemory, mem_write, mem_erase};

verus! {

/// Flash of `bytes.len()` bytes kept in RAM; addresses past the end read
/// as erased flash.
pub struct RamFlash {
    bytes: Vec<u8>,
    sector: usize,
}

impl RamFlash {
    /// Erased flash of `capacity` bytes with sectors of `sector_size` bytes.
    pub fn new(capacity: usize, sector_size: usize) -> (r: Self)
        ensures
            r.spec_capacity() == capacity,
            r.spec_sector_size() == sector_size,
            forall|a: int| #[trigger] (r.memory())(a) == 0xFFu8,
    {
        let mut bytes: Vec<u8> = Vec::new();
        let mut i: usize = 0;
        while i < capacity
            invariant
                i <= capacity,
                bytes@.len() == i,
                forall|k: int| 0 <= k < i ==> bytes@[k] == 0xFFu8,
            decreases capacity - i,
        {
            bytes.push(0xFF);
            i += 1;
        }
        RamFlash { bytes, sector: sector_size }
    }

    /// The flash contents.
    pub fn bytes(&self) -> (r: &[u8])
        ensures
            r@.len() == self.spec_capacity(),
            forall|a: int| 0 <= a < r@.len() ==> r@[a] == #[trigger] (self.memory())(a),
    {
        self.bytes.as_slice()
    }
}

impl FlashDriver for RamFlash {
    closed spec fn memory(&self) -> FlashMemory {
        |a: int| if 0 <= a < self.bytes@.len() { self.bytes@[a] } else { 0xFFu8 }
    }

    closed spec fn spec_sector_size(&self) -> nat {
        self.sector as nat
    }

    closed spec fn spec_capacity(&self) -> nat {
        self.bytes@.len()
    }

    fn read(&self, offset: u32, buf: &mut [u8]) {
        let mut i: usize = 0;
        while i < buf.len()
            invariant
                i <= buf@.len(),
                buf@.len() == old(buf)@.len(),
                forall|k: int| 0 <= k < i ==> #[trigger] buf@[k] == (self.memory())(offset + k),
            decreases buf@.len() - i,
        {
            let len = self.bytes.len();
            let start = offset as usize;
            let b: u8 = if start < len && i < len - start {
                self.bytes[start + i]
            } else {
                0xFF
            };
            buf[i] = b;
            i += 1;
        }
    }

    fn write(&mut self, offset: u32, data: &[u8]) {
        let ghost m0 = self.memory();
        let start = offset as usize;
        let n = self.bytes.len();
        let mut i: usize = 0;
        while i < data.len()
            invariant
                i <= data@.len(),
                start == offset,
                n == self.bytes@.len(),
                start + data@.len() <= self.bytes@.len(),
                self.bytes@.len() == old(self).bytes@.len(),
                self.sector == old(self).sector,
                forall|a: int| 0 <= a < self.bytes@.len() ==> #[trigger] self.bytes@[a] == if start <= a < start + i {
                    data@[a - start]
                } else {
                    old(self).bytes@[a]
                },
            decreases data@.len() - i,
        {
            self.bytes.set(start + i, data[i]);
            i += 1;
        }
        assert(self.memory() =~= mem_write(m0, offset as int, data@));
    }

    fn erase_sector(&mut self, offset: u32) {
        let ghost m0 = self.memory();
        let start = offset as usize;
        let n = self.bytes.len();
        let mut i: usize = 0;
        while i < self.sector
            invariant
                i <= self.sector,
                start == offset,
                n == self.bytes@.len(),
                start + self.sector <= self.bytes@.len(),
                self.bytes@.len() == old(self).bytes@.len(),
                self.sector == old(self).sector,
                forall|a: int| 0 <= a < self.bytes@.len() ==> #[trigger] self.bytes@[a] == if start <= a < start + i {
                    0xFFu8
                } else {
                    old(self).bytes@[a]
                },
            decreases self.sector - i,
        {
            self.bytes.set(start + i, 0xFF);
            i += 1;
        }
        assert(self.memory() =~= mem_erase(m0, offset as int, self.sector as int));
    }

    fn sector_size(&self) -> usize {
        self.sector
    }
}

} // verus!
