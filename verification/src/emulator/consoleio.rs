//! Console I/O: an eight-byte window with no readable storage. Reads inside
//! the window return 0; a byte written at the window's first address is one
//! character of output, collected in order for the host to display; a
//! doubleword write is truncated to its most significant byte, modeling a
//! narrow hardware port.

use vstd::prelude::*;

use crate::emulator::memory::{Fault, Memory};

verus! {

pub struct ConsoleIO {
    pub offset: u32,
    pub output: Vec<u8>,
}

/// Whether a byte address falls inside the eight-byte console window.
pub open spec fn con_contains(c: &ConsoleIO, addr: u32) -> bool {
    c.offset <= addr && addr - c.offset < 8
}

impl Memory for ConsoleIO {
    open spec fn wf(&self) -> bool {
        true
    }

    open spec fn read_spec(&self, addr: u32) -> Result<u8, Fault> {
        if con_contains(self, addr) {
            Ok(0u8)
        } else {
            Err(Fault::AddressFault)
        }
    }

    open spec fn read_dw_spec(&self, addr: u32) -> Result<u32, Fault> {
        if addr % 4 != 0 {
            Err(Fault::AlignmentFault)
        } else if self.offset <= addr && addr - self.offset + 4 <= 8 {
            Ok(0u32)
        } else {
            Err(Fault::AddressFault)
        }
    }

    open spec fn read_all_spec(&self, addr: u32, number: u32) -> Result<Seq<u8>, Fault> {
        if addr % 4 != 0 {
            Err(Fault::AlignmentFault)
        } else if number == 0 {
            Ok(Seq::empty())
        } else if self.offset <= addr && addr - self.offset + number <= 8 {
            Ok(Seq::new(number as nat, |i: int| 0u8))
        } else {
            Err(Fault::AddressFault)
        }
    }

    open spec fn write_result(&self, addr: u32, value: u8) -> Result<(), Fault> {
        if addr == self.offset {
            Ok(())
        } else {
            Err(Fault::AddressFault)
        }
    }

    open spec fn write_post(&self, addr: u32, value: u8, post: Self) -> bool {
        &&& post.offset == self.offset
        &&& post.output@ == if addr == self.offset {
            self.output@.push(value)
        } else {
            self.output@
        }
    }

    open spec fn write_dw_result(&self, addr: u32, value: u32) -> Result<(), Fault> {
        if addr % 4 != 0 {
            Err(Fault::AlignmentFault)
        } else {
            self.write_result(addr, (value / 0x100_0000) as u8)
        }
    }

    open spec fn write_dw_post(&self, addr: u32, value: u32, post: Self) -> bool {
        &&& post.offset == self.offset
        &&& post.output@ == if addr % 4 == 0 && addr == self.offset {
            self.output@.push((value / 0x100_0000) as u8)
        } else {
            self.output@
        }
    }

    open spec fn write_all_result(&self, bytes: Seq<u8>, addr: u32) -> Result<(), Fault> {
        Err(Fault::AddressFault)
    }

    open spec fn write_all_post(&self, bytes: Seq<u8>, addr: u32, post: Self) -> bool {
        &&& post.offset == self.offset
        &&& post.output@ == self.output@
    }

    open spec fn read_instruction_spec(&self, addr: u32) -> Result<Seq<u8>, Fault> {
        Err(Fault::AddressFault)
    }

    open spec fn size_spec(&self) -> u32 {
        8
    }

    fn read(&self, addr: u32) -> (r: Result<u8, Fault>) {
        if addr >= self.offset && addr - self.offset < 8 {
            Ok(0)
        } else {
            Err(Fault::AddressFault)
        }
    }

    fn read_doubleword(&self, addr: u32) -> (r: Result<u32, Fault>) {
        if addr % 4 != 0 {
            Err(Fault::AlignmentFault)
        } else if addr >= self.offset && addr - self.offset <= 4 {
            Ok(0)
        } else {
            Err(Fault::AddressFault)
        }
    }

    fn read_all(&self, addr: u32, number: u32) -> (r: Result<Vec<u8>, Fault>) {
        if addr % 4 != 0 {
            return Err(Fault::AlignmentFault);
        }
        if number == 0 {
            return Ok(Vec::new());
        }
        if addr < self.offset || number > 8 || addr - self.offset > 8 - number {
            return Err(Fault::AddressFault);
        }
        let mut result: Vec<u8> = Vec::new();
        let mut k: u32 = 0;
        while k < number
            invariant
                k <= number,
                result@ == Seq::new(k as nat, |i: int| 0u8),
            decreases number - k,
        {
            result.push(0);
            proof {
                assert(result@ =~= Seq::new((k + 1) as nat, |i: int| 0u8));
            }
            k = k + 1;
        }
        Ok(result)
    }

    fn write(&mut self, addr: u32, value: u8) -> (r: Result<(), Fault>) {
        if addr == self.offset {
            self.output.push(value);
            Ok(())
        } else {
            Err(Fault::AddressFault)
        }
    }

    fn write_doubleword(&mut self, addr: u32, value: u32) -> (r: Result<(), Fault>) {
        if addr % 4 != 0 {
            return Err(Fault::AlignmentFault);
        }
        let byte = (value / 0x100_0000) as u8;
        self.write(addr, byte)
    }

    fn write_all(&mut self, bytes: &[u8], addr: u32) -> (r: Result<(), Fault>) {
        Err(Fault::AddressFault)
    }

    fn read_instruction(&self, addr: u32) -> (r: Result<[u8; 8], Fault>) {
        Err(Fault::AddressFault)
    }

    fn size(&self) -> (r: u32) {
        8
    }
}

impl ConsoleIO {
    pub fn new(offset: u32) -> (r: Self)
        ensures
            r.offset == offset,
            r.output@ == Seq::<u8>::empty(),
    {
        ConsoleIO { offset, output: Vec::new() }
    }
}

} // verus!
