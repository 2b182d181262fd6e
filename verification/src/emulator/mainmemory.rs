//! Main memory: a flat byte array mapped at a fixed start address. Every
//! access turns the bus-global address into a local index, and an access
//! outside the array is an address fault.

use vstd::prelude::*;

use crate::common::util;
use crate::emulator::memory::{address_to_index, Fault, Memory};

verus! {

pub struct MainMemory {
    pub data: Vec<u8>,
    pub offset: u32,
}

/// Whether a byte address falls inside this device's mapped range.
pub open spec fn mm_contains(m: &MainMemory, addr: u32) -> bool {
    m.offset <= addr && addr - m.offset < m.data@.len()
}

impl Memory for MainMemory {
    open spec fn wf(&self) -> bool {
        self.data@.len() <= 0xFFFF_FFFF
    }

    open spec fn read_spec(&self, addr: u32) -> Result<u8, Fault> {
        if mm_contains(self, addr) {
            Ok(self.data@[addr - self.offset])
        } else {
            Err(Fault::AddressFault)
        }
    }

    open spec fn read_dw_spec(&self, addr: u32) -> Result<u32, Fault> {
        let i = addr - self.offset;
        if addr % 4 != 0 {
            Err(Fault::AlignmentFault)
        } else if self.offset <= addr && i + 4 <= self.data@.len() {
            Ok(
                util::u32_of_bytes(
                    self.data@[i],
                    self.data@[i + 1],
                    self.data@[i + 2],
                    self.data@[i + 3],
                ),
            )
        } else {
            Err(Fault::AddressFault)
        }
    }

    open spec fn read_all_spec(&self, addr: u32, number: u32) -> Result<Seq<u8>, Fault> {
        let i = addr - self.offset;
        if addr % 4 != 0 {
            Err(Fault::AlignmentFault)
        } else if number == 0 {
            Ok(Seq::empty())
        } else if self.offset <= addr && i + number <= self.data@.len() && addr + number <= 0x1_0000_0000 {
            Ok(self.data@.subrange(i, i + number))
        } else {
            Err(Fault::AddressFault)
        }
    }

    open spec fn write_result(&self, addr: u32, value: u8) -> Result<(), Fault> {
        if mm_contains(self, addr) {
            Ok(())
        } else {
            Err(Fault::AddressFault)
        }
    }

    open spec fn write_post(&self, addr: u32, value: u8, post: Self) -> bool {
        &&& post.offset == self.offset
        &&& post.data@ == if mm_contains(self, addr) {
            self.data@.update(addr - self.offset, value)
        } else {
            self.data@
        }
    }

    open spec fn write_dw_result(&self, addr: u32, value: u32) -> Result<(), Fault> {
        if addr % 4 != 0 {
            Err(Fault::AlignmentFault)
        } else if self.offset <= addr && addr - self.offset + 4 <= self.data@.len() {
            Ok(())
        } else {
            Err(Fault::AddressFault)
        }
    }

    open spec fn write_dw_post(&self, addr: u32, value: u32, post: Self) -> bool {
        let i = addr - self.offset;
        let b = util::bytes_of_u32(value);
        &&& post.offset == self.offset
        &&& post.data@ == if self.write_dw_result(addr, value) is Ok {
            self.data@.update(i, b[0]).update(i + 1, b[1]).update(i + 2, b[2]).update(i + 3, b[3])
        } else {
            self.data@
        }
    }

    open spec fn write_all_result(&self, bytes: Seq<u8>, addr: u32) -> Result<(), Fault> {
        if self.offset <= addr && addr - self.offset + bytes.len() <= self.data@.len() {
            Ok(())
        } else {
            Err(Fault::AddressFault)
        }
    }

    open spec fn write_all_post(&self, bytes: Seq<u8>, addr: u32, post: Self) -> bool {
        let i = addr - self.offset;
        &&& post.offset == self.offset
        &&& post.data@ == if self.write_all_result(bytes, addr) is Ok {
            self.data@.subrange(0, i) + bytes + self.data@.subrange(
                i + bytes.len(),
                self.data@.len() as int,
            )
        } else {
            self.data@
        }
    }

    open spec fn read_instruction_spec(&self, addr: u32) -> Result<Seq<u8>, Fault> {
        if addr % 8 != 0 {
            Err(Fault::AlignmentFault)
        } else if self.offset <= addr && addr - self.offset + 8 <= self.data@.len() {
            Ok(self.data@.subrange(addr - self.offset, addr - self.offset + 8))
        } else {
            Err(Fault::AddressFault)
        }
    }

    open spec fn size_spec(&self) -> u32 {
        self.data@.len() as u32
    }

    fn read(&self, addr: u32) -> (r: Result<u8, Fault>) {
        if addr >= self.offset {
            let index = address_to_index(addr - self.offset);
            if index < self.data.len() {
                Ok(self.data[index])
            } else {
                Err(Fault::AddressFault)
            }
        } else {
            Err(Fault::AddressFault)
        }
    }

    fn read_doubleword(&self, addr: u32) -> (r: Result<u32, Fault>) {
        if addr % 4 != 0 {
            return Err(Fault::AlignmentFault);
        }
        if addr < self.offset {
            return Err(Fault::AddressFault);
        }
        let index = address_to_index(addr - self.offset);
        if self.data.len() < 4 || index > self.data.len() - 4 {
            return Err(Fault::AddressFault);
        }
        Ok(
            util::bytes_to_u32(
                self.data[index],
                self.data[index + 1],
                self.data[index + 2],
                self.data[index + 3],
            ),
        )
    }

    fn read_all(&self, addr: u32, number: u32) -> (r: Result<Vec<u8>, Fault>) {
        if addr % 4 != 0 {
            return Err(Fault::AlignmentFault);
        }
        if number == 0 {
            return Ok(Vec::new());
        }
        if addr < self.offset {
            return Err(Fault::AddressFault);
        }
        let index = address_to_index(addr - self.offset);
        let count = number as usize;
        if count > self.data.len() || index > self.data.len() - count {
            return Err(Fault::AddressFault);
        }
        if addr as u64 + number as u64 > 0x1_0000_0000u64 {
            return Err(Fault::AddressFault);
        }
        let mut result: Vec<u8> = Vec::new();
        let mut k: usize = 0;
        while k < count
            invariant
                k <= count,
                index + count <= usize::MAX,
                index + count <= self.data@.len(),
                result@ == self.data@.subrange(index as int, index + k),
            decreases count - k,
        {
            result.push(self.data[index + k]);
            proof {
                assert(result@ =~= self.data@.subrange(index as int, index + k + 1));
            }
            k = k + 1;
        }
        Ok(result)
    }

    fn write(&mut self, addr: u32, value: u8) -> (r: Result<(), Fault>) {
        if addr >= self.offset {
            let index = address_to_index(addr - self.offset);
            if index < self.data.len() {
                self.data[index] = value;
                Ok(())
            } else {
                Err(Fault::AddressFault)
            }
        } else {
            Err(Fault::AddressFault)
        }
    }

    fn write_doubleword(&mut self, addr: u32, value: u32) -> (r: Result<(), Fault>) {
        if addr % 4 != 0 {
            return Err(Fault::AlignmentFault);
        }
        if addr < self.offset {
            return Err(Fault::AddressFault);
        }
        let index = address_to_index(addr - self.offset);
        if self.data.len() < 4 || index > self.data.len() - 4 {
            return Err(Fault::AddressFault);
        }
        let bytes = util::u32_to_bytes(value);
        self.data[index] = bytes[0];
        self.data[index + 1] = bytes[1];
        self.data[index + 2] = bytes[2];
        self.data[index + 3] = bytes[3];
        Ok(())
    }

    fn write_all(&mut self, bytes: &[u8], addr: u32) -> (r: Result<(), Fault>) {
        if addr < self.offset {
            return Err(Fault::AddressFault);
        }
        let index = address_to_index(addr - self.offset);
        if bytes.len() > self.data.len() || index > self.data.len() - bytes.len() {
            return Err(Fault::AddressFault);
        }
        let ghost pre = self.data@;
        let mut k: usize = 0;
        while k < bytes.len()
            invariant
                index + bytes@.len() <= usize::MAX,
                index + bytes.len() <= self.data@.len(),
                k <= bytes@.len(),
                self.data@.len() == pre.len(),
                self.offset == old(self).offset,
                self.data@ =~= pre.subrange(0, index as int) + bytes@.subrange(0, k as int)
                    + pre.subrange(index + k, pre.len() as int),
            decreases bytes@.len() - k,
        {
            self.data[index + k] = bytes[k];
            proof {
                assert(self.data@ =~= pre.subrange(0, index as int) + bytes@.subrange(
                    0,
                    k + 1,
                ) + pre.subrange(index + k + 1, pre.len() as int));
            }
            k = k + 1;
        }
        proof {
            assert(bytes@.subrange(0, bytes@.len() as int) =~= bytes@);
        }
        Ok(())
    }

    fn read_instruction(&self, addr: u32) -> (r: Result<[u8; 8], Fault>) {
        if addr % 8 != 0 {
            return Err(Fault::AlignmentFault);
        }
        if addr < self.offset {
            return Err(Fault::AddressFault);
        }
        let index = address_to_index(addr - self.offset);
        if self.data.len() < 8 || index > self.data.len() - 8 {
            return Err(Fault::AddressFault);
        }
        let r = [
            self.data[index],
            self.data[index + 1],
            self.data[index + 2],
            self.data[index + 3],
            self.data[index + 4],
            self.data[index + 5],
            self.data[index + 6],
            self.data[index + 7],
        ];
        proof {
            assert(r@ =~= self.data@.subrange(addr - self.offset, addr - self.offset + 8));
        }
        Ok(r)
    }

    fn size(&self) -> (r: u32) {
        self.data.len() as u32
    }
}

impl MainMemory {
    pub fn new(offset: u32, size: u32) -> (r: Self)
        ensures
            r.offset == offset,
            r.data@ == Seq::new(size as nat, |i: int| 0u8),
            r.wf(),
    {
        let mut data: Vec<u8> = Vec::new();
        let mut i: u32 = 0;
        while i < size
            invariant
                i <= size,
                data@ == Seq::new(i as nat, |j: int| 0u8),
            decreases size - i,
        {
            data.push(0);
            proof {
                assert(data@ =~= Seq::new((i + 1) as nat, |j: int| 0u8));
            }
            i = i + 1;
        }
        MainMemory { offset, data }
    }
}

} // verus!
