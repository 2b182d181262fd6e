//! The device capability surface and the memory-mapped address bus. Every
//! fault an access can raise is an explicit `Fault` value, never an abort, so
//! a host can report the fault and stop cleanly.

use vstd::prelude::*;

use crate::common::util;
use crate::emulator::consoleio::ConsoleIO;
use crate::emulator::constants::{
    CONSOLEIO_END, CONSOLEIO_START, MEMORY_END, MEMORY_SIZE, MEMORY_START,
};
use crate::emulator::mainmemory::MainMemory;

verus! {

/// The fatal execution-time conditions: an access outside every mapped
/// device, a misaligned doubleword or instruction access, a division by
/// zero, and the `Invalid` opcode sentinel.
#[derive(Debug, Clone, Copy, PartialEq, Eq, Structural)]
pub enum Fault {
    AddressFault,
    AlignmentFault,
    DivideByZeroFault,
    InvalidInstructionFault,
}

/// The capability surface of a memory-mapped device. Each implementation
/// defines spec functions that pin down exactly what its reads return and how
/// its writes change it; the executable methods are bound to those
/// definitions.
pub trait Memory: Sized {
    spec fn wf(&self) -> bool;

    /// What a single-byte read at an address returns.
    spec fn read_spec(&self, addr: u32) -> Result<u8, Fault>;

    /// What a doubleword read at an address returns.
    spec fn read_dw_spec(&self, addr: u32) -> Result<u32, Fault>;

    /// What a multi-byte read starting at an address returns.
    spec fn read_all_spec(&self, addr: u32, number: u32) -> Result<Seq<u8>, Fault>;

    /// What a single-byte write returns.
    spec fn write_result(&self, addr: u32, value: u8) -> Result<(), Fault>;

    /// How a single-byte write changes the device.
    spec fn write_post(&self, addr: u32, value: u8, post: Self) -> bool;

    /// What a doubleword write returns.
    spec fn write_dw_result(&self, addr: u32, value: u32) -> Result<(), Fault>;

    /// How a doubleword write changes the device.
    spec fn write_dw_post(&self, addr: u32, value: u32, post: Self) -> bool;

    /// What a block write returns.
    spec fn write_all_result(&self, bytes: Seq<u8>, addr: u32) -> Result<(), Fault>;

    /// How a block write changes the device.
    spec fn write_all_post(&self, bytes: Seq<u8>, addr: u32, post: Self) -> bool;

    /// What an eight-byte instruction fetch at an address returns.
    spec fn read_instruction_spec(&self, addr: u32) -> Result<Seq<u8>, Fault>;

    /// How many bytes the device spans.
    spec fn size_spec(&self) -> u32;

    fn read(&self, addr: u32) -> (r: Result<u8, Fault>)
        requires
            self.wf(),
        ensures
            r == self.read_spec(addr),
    ;

    fn read_doubleword(&self, addr: u32) -> (r: Result<u32, Fault>)
        requires
            self.wf(),
        ensures
            r == self.read_dw_spec(addr),
    ;

    fn read_all(&self, addr: u32, number: u32) -> (r: Result<Vec<u8>, Fault>)
        requires
            self.wf(),
        ensures
            match r {
                Ok(v) => self.read_all_spec(addr, number) == Ok::<Seq<u8>, Fault>(v@),
                Err(e) => self.read_all_spec(addr, number) == Err::<Seq<u8>, Fault>(e),
            },
    ;

    fn write(&mut self, addr: u32, value: u8) -> (r: Result<(), Fault>)
        requires
            old(self).wf(),
        ensures
            final(self).wf(),
            r == old(self).write_result(addr, value),
            old(self).write_post(addr, value, *final(self)),
    ;

    fn write_doubleword(&mut self, addr: u32, value: u32) -> (r: Result<(), Fault>)
        requires
            old(self).wf(),
        ensures
            final(self).wf(),
            r == old(self).write_dw_result(addr, value),
            old(self).write_dw_post(addr, value, *final(self)),
    ;

    fn write_all(&mut self, bytes: &[u8], addr: u32) -> (r: Result<(), Fault>)
        requires
            old(self).wf(),
        ensures
            final(self).wf(),
            r == old(self).write_all_result(bytes@, addr),
            old(self).write_all_post(bytes@, addr, *final(self)),
    ;

    fn read_instruction(&self, addr: u32) -> (r: Result<[u8; 8], Fault>)
        requires
            self.wf(),
        ensures
            match r {
                Ok(b) => self.read_instruction_spec(addr) == Ok::<Seq<u8>, Fault>(b@),
                Err(e) => self.read_instruction_spec(addr) == Err::<Seq<u8>, Fault>(e),
            },
    ;

    fn size(&self) -> (r: u32)
        requires
            self.wf(),
        ensures
            r == self.size_spec(),
    ;
}

/// What a doubleword read derived from four single-byte reads returns: an
/// alignment fault off a 4-byte boundary, the first failing byte's fault, or
/// the four bytes combined big-endian.
pub open spec fn dw_read_spec<M: Memory>(device: &M, addr: u32) -> Result<u32, Fault> {
    if addr % 4 != 0 {
        Err(Fault::AlignmentFault)
    } else {
        match device.read_spec(addr) {
            Err(e) => Err(e),
            Ok(b0) => match device.read_spec((addr + 1) as u32) {
                Err(e) => Err(e),
                Ok(b1) => match device.read_spec((addr + 2) as u32) {
                    Err(e) => Err(e),
                    Ok(b2) => match device.read_spec((addr + 3) as u32) {
                        Err(e) => Err(e),
                        Ok(b3) => Ok(util::u32_of_bytes(b0, b1, b2, b3)),
                    },
                },
            },
        }
    }
}

/// Whether an access at this address is aligned; an access off the boundary
/// is an alignment fault.
pub fn check_alignment(addr: u32, align: u32) -> (r: Result<(), Fault>)
    requires
        align > 0,
    ensures
        r == if addr % align == 0 {
            Ok::<(), Fault>(())
        } else {
            Err::<(), Fault>(Fault::AlignmentFault)
        },
{
    if addr % align != 0 {
        Err(Fault::AlignmentFault)
    } else {
        Ok(())
    }
}

/// A bus-global address as a storage index; devices subtract their own start
/// before calling this.
pub fn address_to_index(addr: u32) -> (r: usize)
    ensures
        r == addr as int,
{
    addr as usize
}

/// Reads a big-endian doubleword through four single-byte reads of a device,
/// after checking 4-byte alignment.
pub fn read_doubleword<M: Memory>(device: &M, addr: u32) -> (r: Result<u32, Fault>)
    requires
        device.wf(),
    ensures
        r == dw_read_spec(device, addr),
{
    if addr % 4 != 0 {
        return Err(Fault::AlignmentFault);
    }
    let b0 = match device.read(addr) {
        Ok(b) => b,
        Err(e) => {
            return Err(e);
        },
    };
    let b1 = match device.read(addr + 1) {
        Ok(b) => b,
        Err(e) => {
            return Err(e);
        },
    };
    let b2 = match device.read(addr + 2) {
        Ok(b) => b,
        Err(e) => {
            return Err(e);
        },
    };
    let b3 = match device.read(addr + 3) {
        Ok(b) => b,
        Err(e) => {
            return Err(e);
        },
    };
    Ok(util::bytes_to_u32(b0, b1, b2, b3))
}

/// Writes a big-endian doubleword through four single-byte writes of a
/// device, after checking 4-byte alignment. All four writes are attempted in
/// order and the first failure is reported, so a failing write may leave the
/// earlier bytes written, exactly as four explicit writes would.
pub fn write_doubleword<M: Memory>(device: &mut M, addr: u32, value: u32) -> (r: Result<
    (),
    Fault,
>)
    requires
        old(device).wf(),
    ensures
        final(device).wf(),
        addr % 4 != 0 ==> r == Err::<(), Fault>(Fault::AlignmentFault) && *final(device) == *old(
            device,
        ),
        addr % 4 == 0 ==> exists|m1: M, m2: M, m3: M|
            #![trigger m1.write_post((addr + 1) as u32, util::bytes_of_u32(value)[1], m2), m2.write_post((addr + 2) as u32, util::bytes_of_u32(value)[2], m3)]
            {
                let b = util::bytes_of_u32(value);
                &&& old(device).write_post(addr, b[0], m1)
                &&& m1.write_post((addr + 1) as u32, b[1], m2)
                &&& m2.write_post((addr + 2) as u32, b[2], m3)
                &&& m3.write_post((addr + 3) as u32, b[3], *final(device))
                &&& r == (match old(device).write_result(addr, b[0]) {
                    Err(e) => Err::<(), Fault>(e),
                    Ok(_) => match m1.write_result((addr + 1) as u32, b[1]) {
                        Err(e) => Err::<(), Fault>(e),
                        Ok(_) => match m2.write_result((addr + 2) as u32, b[2]) {
                            Err(e) => Err::<(), Fault>(e),
                            Ok(_) => m3.write_result((addr + 3) as u32, b[3]),
                        },
                    },
                })
            },
{
    if addr % 4 != 0 {
        return Err(Fault::AlignmentFault);
    }
    let bytes = util::u32_to_bytes(value);
    let r0 = device.write(addr, bytes[0]);
    let ghost m1 = *device;
    let r1 = device.write(addr + 1, bytes[1]);
    let ghost m2 = *device;
    let r2 = device.write(addr + 2, bytes[2]);
    let ghost m3 = *device;
    let r3 = device.write(addr + 3, bytes[3]);
    if r0.is_err() {
        r0
    } else if r1.is_err() {
        r1
    } else if r2.is_err() {
        r2
    } else {
        r3
    }
}

/// What a single-byte read of the bus returns: main memory's byte in its
/// range, 0 inside the console window, and an address fault anywhere else.
pub open spec fn bus_read(mem: Seq<u8>, addr: u32) -> Result<u8, Fault>
    recommends
        mem.len() == MEMORY_SIZE,
{
    if MEMORY_START <= addr && addr <= MEMORY_END {
        Ok(mem[addr - MEMORY_START])
    } else if CONSOLEIO_START <= addr && addr <= CONSOLEIO_END {
        Ok(0u8)
    } else {
        Err(Fault::AddressFault)
    }
}

/// What a doubleword read of the bus returns: built from four single-byte
/// reads after a 4-byte alignment check.
pub open spec fn bus_read_dw(mem: Seq<u8>, addr: u32) -> Result<u32, Fault>
    recommends
        mem.len() == MEMORY_SIZE,
{
    let i = addr - MEMORY_START;
    if addr % 4 != 0 {
        Err(Fault::AlignmentFault)
    } else if MEMORY_START <= addr && addr <= MEMORY_END {
        if i + 4 <= mem.len() {
            Ok(util::u32_of_bytes(mem[i], mem[i + 1], mem[i + 2], mem[i + 3]))
        } else {
            Err(Fault::AddressFault)
        }
    } else if CONSOLEIO_START <= addr && addr <= CONSOLEIO_END {
        if addr - CONSOLEIO_START + 4 <= 8 {
            Ok(0u32)
        } else {
            Err(Fault::AddressFault)
        }
    } else {
        Err(Fault::AddressFault)
    }
}

/// How a single-byte write changes the bus: a main-memory byte is updated, a
/// byte written at the console window's first address becomes one character
/// of output, any other console offset and every unmapped address fault. The
/// result pairs the main-memory bytes with the console output.
pub open spec fn bus_write(mem: Seq<u8>, out: Seq<u8>, addr: u32, value: u8) -> Result<
    (Seq<u8>, Seq<u8>),
    Fault,
>
    recommends
        mem.len() == MEMORY_SIZE,
{
    if MEMORY_START <= addr && addr <= MEMORY_END {
        Ok((mem.update(addr - MEMORY_START, value), out))
    } else if CONSOLEIO_START <= addr && addr <= CONSOLEIO_END {
        if addr == CONSOLEIO_START {
            Ok((mem, out.push(value)))
        } else {
            Err(Fault::AddressFault)
        }
    } else {
        Err(Fault::AddressFault)
    }
}

/// How a doubleword write changes the bus: dispatched to the device that owns
/// the start address, then held to that device's doubleword rules — four
/// big-endian bytes into main memory, or the most significant byte to the
/// console port.
pub open spec fn bus_write_dw(mem: Seq<u8>, out: Seq<u8>, addr: u32, value: u32) -> Result<
    (Seq<u8>, Seq<u8>),
    Fault,
>
    recommends
        mem.len() == MEMORY_SIZE,
{
    let b = util::bytes_of_u32(value);
    let i = addr - MEMORY_START;
    if MEMORY_START <= addr && addr <= MEMORY_END {
        if addr % 4 != 0 {
            Err(Fault::AlignmentFault)
        } else if i + 4 <= mem.len() {
            Ok((mem.update(i, b[0]).update(i + 1, b[1]).update(i + 2, b[2]).update(i + 3, b[3]),
            out))
        } else {
            Err(Fault::AddressFault)
        }
    } else if CONSOLEIO_START <= addr && addr <= CONSOLEIO_END {
        if addr % 4 != 0 {
            Err(Fault::AlignmentFault)
        } else if addr == CONSOLEIO_START {
            Ok((mem, out.push(b[0])))
        } else {
            Err(Fault::AddressFault)
        }
    } else {
        Err(Fault::AddressFault)
    }
}

/// What an instruction fetch of the bus returns: eight bytes of main memory
/// at an 8-byte-aligned address; fetches always go to main memory.
pub open spec fn bus_read_instr(mem: Seq<u8>, addr: u32) -> Result<Seq<u8>, Fault>
    recommends
        mem.len() == MEMORY_SIZE,
{
    if addr % 8 != 0 {
        Err(Fault::AlignmentFault)
    } else if MEMORY_START <= addr && addr - MEMORY_START + 8 <= mem.len() {
        Ok(mem.subrange(addr - MEMORY_START, addr - MEMORY_START + 8))
    } else {
        Err(Fault::AddressFault)
    }
}

/// The memory-mapped address bus: main memory at its fixed range and the
/// console window, with every other address unmapped. The ranges are
/// disjoint, so dispatch never has to choose between overlapping devices.
pub struct AddressSpace {
    pub memory: MainMemory,
    pub console: ConsoleIO,
}

impl Memory for AddressSpace {
    open spec fn wf(&self) -> bool {
        &&& self.memory.wf()
        &&& self.memory.offset == MEMORY_START
        &&& self.memory.data@.len() == MEMORY_SIZE
        &&& self.console.offset == CONSOLEIO_START
    }

    open spec fn read_spec(&self, addr: u32) -> Result<u8, Fault> {
        bus_read(self.memory.data@, addr)
    }

    open spec fn read_dw_spec(&self, addr: u32) -> Result<u32, Fault> {
        bus_read_dw(self.memory.data@, addr)
    }

    open spec fn read_all_spec(&self, addr: u32, number: u32) -> Result<Seq<u8>, Fault> {
        if MEMORY_START <= addr && addr <= MEMORY_END {
            self.memory.read_all_spec(addr, number)
        } else if CONSOLEIO_START <= addr && addr <= CONSOLEIO_END {
            self.console.read_all_spec(addr, number)
        } else {
            Err(Fault::AddressFault)
        }
    }

    open spec fn write_result(&self, addr: u32, value: u8) -> Result<(), Fault> {
        match bus_write(self.memory.data@, self.console.output@, addr, value) {
            Ok(_) => Ok(()),
            Err(e) => Err(e),
        }
    }

    open spec fn write_post(&self, addr: u32, value: u8, post: Self) -> bool {
        &&& post.memory.offset == self.memory.offset
        &&& post.console.offset == self.console.offset
        &&& match bus_write(self.memory.data@, self.console.output@, addr, value) {
            Ok((m, o)) => post.memory.data@ == m && post.console.output@ == o,
            Err(_) => post.memory.data@ == self.memory.data@ && post.console.output@
                == self.console.output@,
        }
    }

    open spec fn write_dw_result(&self, addr: u32, value: u32) -> Result<(), Fault> {
        match bus_write_dw(self.memory.data@, self.console.output@, addr, value) {
            Ok(_) => Ok(()),
            Err(e) => Err(e),
        }
    }

    open spec fn write_dw_post(&self, addr: u32, value: u32, post: Self) -> bool {
        &&& post.memory.offset == self.memory.offset
        &&& post.console.offset == self.console.offset
        &&& match bus_write_dw(self.memory.data@, self.console.output@, addr, value) {
            Ok((m, o)) => post.memory.data@ == m && post.console.output@ == o,
            Err(_) => post.memory.data@ == self.memory.data@ && post.console.output@
                == self.console.output@,
        }
    }

    open spec fn write_all_result(&self, bytes: Seq<u8>, addr: u32) -> Result<(), Fault> {
        if MEMORY_START <= addr && addr <= MEMORY_END {
            self.memory.write_all_result(bytes, addr)
        } else if CONSOLEIO_START <= addr && addr <= CONSOLEIO_END {
            self.console.write_all_result(bytes, addr)
        } else {
            Err(Fault::AddressFault)
        }
    }

    open spec fn write_all_post(&self, bytes: Seq<u8>, addr: u32, post: Self) -> bool {
        &&& post.memory.offset == self.memory.offset
        &&& post.console.offset == self.console.offset
        &&& if MEMORY_START <= addr && addr <= MEMORY_END {
            self.memory.write_all_post(bytes, addr, post.memory) && post.console.output@
                == self.console.output@
        } else if CONSOLEIO_START <= addr && addr <= CONSOLEIO_END {
            self.console.write_all_post(bytes, addr, post.console) && post.memory.data@
                == self.memory.data@
        } else {
            post.memory.data@ == self.memory.data@ && post.console.output@
                == self.console.output@
        }
    }

    open spec fn read_instruction_spec(&self, addr: u32) -> Result<Seq<u8>, Fault> {
        bus_read_instr(self.memory.data@, addr)
    }

    open spec fn size_spec(&self) -> u32 {
        0xFFFF_FFFF
    }

    fn read(&self, addr: u32) -> (r: Result<u8, Fault>) {
        if MEMORY_START <= addr && addr <= MEMORY_END {
            self.memory.read(addr)
        } else if CONSOLEIO_START <= addr && addr <= CONSOLEIO_END {
            self.console.read(addr)
        } else {
            Err(Fault::AddressFault)
        }
    }

    fn read_doubleword(&self, addr: u32) -> (r: Result<u32, Fault>) {
        if addr % 4 != 0 {
            return Err(Fault::AlignmentFault);
        }
        if MEMORY_START <= addr && addr <= MEMORY_END {
            self.memory.read_doubleword(addr)
        } else if CONSOLEIO_START <= addr && addr <= CONSOLEIO_END {
            self.console.read_doubleword(addr)
        } else {
            Err(Fault::AddressFault)
        }
    }

    fn read_all(&self, addr: u32, number: u32) -> (r: Result<Vec<u8>, Fault>) {
        if MEMORY_START <= addr && addr <= MEMORY_END {
            self.memory.read_all(addr, number)
        } else if CONSOLEIO_START <= addr && addr <= CONSOLEIO_END {
            self.console.read_all(addr, number)
        } else {
            Err(Fault::AddressFault)
        }
    }

    fn write(&mut self, addr: u32, value: u8) -> (r: Result<(), Fault>) {
        if MEMORY_START <= addr && addr <= MEMORY_END {
            self.memory.write(addr, value)
        } else if CONSOLEIO_START <= addr && addr <= CONSOLEIO_END {
            self.console.write(addr, value)
        } else {
            Err(Fault::AddressFault)
        }
    }

    fn write_doubleword(&mut self, addr: u32, value: u32) -> (r: Result<(), Fault>) {
        if MEMORY_START <= addr && addr <= MEMORY_END {
            self.memory.write_doubleword(addr, value)
        } else if CONSOLEIO_START <= addr && addr <= CONSOLEIO_END {
            self.console.write_doubleword(addr, value)
        } else {
            Err(Fault::AddressFault)
        }
    }

    fn write_all(&mut self, bytes: &[u8], addr: u32) -> (r: Result<(), Fault>) {
        if MEMORY_START <= addr && addr <= MEMORY_END {
            self.memory.write_all(bytes, addr)
        } else if CONSOLEIO_START <= addr && addr <= CONSOLEIO_END {
            self.console.write_all(bytes, addr)
        } else {
            Err(Fault::AddressFault)
        }
    }

    fn read_instruction(&self, addr: u32) -> (r: Result<[u8; 8], Fault>) {
        self.memory.read_instruction(addr)
    }

    fn size(&self) -> (r: u32) {
        // the full 32-bit address space
        0xFFFF_FFFF
    }
}

impl Default for AddressSpace {
    fn default() -> (r: Self)
        ensures
            r.wf(),
            r.memory.data@ == Seq::new(MEMORY_SIZE as nat, |i: int| 0u8),
            r.console.output@ == Seq::<u8>::empty(),
    {
        AddressSpace {
            memory: MainMemory::new(MEMORY_START, MEMORY_SIZE),
            console: ConsoleIO::new(CONSOLEIO_START),
        }
    }
}

} // verus!
