//! An early, word-addressed memory: a flat array of 32-bit words, indexed by
//! 4-byte-aligned addresses. Callers must stay aligned and in bounds.

use vstd::prelude::*;

verus! {

pub struct Memory {
    pub data: Vec<u32>,
}

impl Memory {
    pub fn new(size: u32) -> (r: Self)
        ensures
            r.data@ == Seq::new(size as nat, |i: int| 0u32),
    {
        let mut data: Vec<u32> = Vec::new();
        let mut i: u32 = 0;
        while i < size
            invariant
                i <= size,
                data@ == Seq::new(i as nat, |j: int| 0u32),
            decreases size - i,
        {
            data.push(0);
            proof {
                assert(data@ =~= Seq::new((i + 1) as nat, |j: int| 0u32));
            }
            i = i + 1;
        }
        proof {
            assert(data@ =~= Seq::new(size as nat, |j: int| 0u32));
        }
        Memory { data }
    }

    pub fn address_to_index(&self, addr: u32) -> (r: usize)
        requires
            addr % 4 == 0,
        ensures
            r == addr / 4,
    {
        (addr as usize) / 4
    }

    pub fn read(&self, addr: u32) -> (r: u32)
        requires
            addr % 4 == 0,
            addr / 4 < self.data@.len(),
        ensures
            r == self.data@[addr as int / 4],
    {
        self.data[self.address_to_index(addr)]
    }

    pub fn read_instruction(&self, addr: u32) -> (r: [u32; 2])
        requires
            addr % 4 == 0,
            addr / 4 + 1 < self.data@.len(),
        ensures
            r@ == seq![self.data@[addr as int / 4], self.data@[addr as int / 4 + 1]],
    {
        let index = self.address_to_index(addr);
        let r = [self.data[index], self.data[index + 1]];
        proof {
            assert(r@ =~= seq![self.data@[addr as int / 4], self.data@[addr as int / 4 + 1]]);
        }
        r
    }

    pub fn write(&mut self, addr: u32, value: u32)
        requires
            addr % 4 == 0,
            addr / 4 < old(self).data@.len(),
        ensures
            final(self).data@ == old(self).data@.update(addr as int / 4, value),
    {
        let index = self.address_to_index(addr);
        self.data[index] = value;
    }

    pub fn write_instruction(&mut self, addr: u32, instruction: [u32; 2])
        requires
            addr % 4 == 0,
            addr / 4 + 1 < old(self).data@.len(),
        ensures
            final(self).data@ == old(self).data@.update(addr as int / 4, instruction@[0]).update(
                addr as int / 4 + 1,
                instruction@[1],
            ),
    {
        let index = self.address_to_index(addr);
        self.data[index] = instruction[0];
        self.data[index + 1] = instruction[1];
    }
}

} // verus!
