//! The fetch-decode-execute engine: nineteen wrapping 32-bit registers, the
//! Zero/Negative/Carry status flags, and a cycle-counted loop over the bus.
//! Every fatal condition is returned as a `Fault`, never an abort, so a host
//! can report the fault, inspect the registers, and stop cleanly.

use vstd::prelude::*;

use vstd::wrapping::u32_specs;

use crate::common::encoding::{decode_spec, DecodedInstruction};
use crate::common::instruction::Instruction;
use crate::emulator::constants::{MEMORY_END, MEMORY_SIZE, MEMORY_START};
use crate::emulator::memory::{
    bus_read, bus_read_dw, bus_read_instr, bus_write, bus_write_dw, AddressSpace, Fault, Memory,
};

verus! {

#[derive(Debug, Clone, Copy, PartialEq, Eq, Structural)]
pub enum Register {
    R0,
    R1,
    R2,
    R3,
    R4,
    R5,
    R6,
    R7,
    R8,
    R9,
    R10,
    R11,
    R12,
    R13,
    R14,
    R15,
    PC,
    SP,
    SR,
}

/// The register file slot of each named register; the explicit mapping keeps
/// the named set and the array positions from drifting apart.
pub open spec fn reg_index(r: Register) -> int {
    match r {
        Register::R0 => 0,
        Register::R1 => 1,
        Register::R2 => 2,
        Register::R3 => 3,
        Register::R4 => 4,
        Register::R5 => 5,
        Register::R6 => 6,
        Register::R7 => 7,
        Register::R8 => 8,
        Register::R9 => 9,
        Register::R10 => 10,
        Register::R11 => 11,
        Register::R12 => 12,
        Register::R13 => 13,
        Register::R14 => 14,
        Register::R15 => 15,
        Register::PC => 16,
        Register::SP => 17,
        Register::SR => 18,
    }
}

impl Register {
    pub fn index(self) -> (r: usize)
        ensures
            r == reg_index(self),
    {
        match self {
            Register::R0 => 0,
            Register::R1 => 1,
            Register::R2 => 2,
            Register::R3 => 3,
            Register::R4 => 4,
            Register::R5 => 5,
            Register::R6 => 6,
            Register::R7 => 7,
            Register::R8 => 8,
            Register::R9 => 9,
            Register::R10 => 10,
            Register::R11 => 11,
            Register::R12 => 12,
            Register::R13 => 13,
            Register::R14 => 14,
            Register::R15 => 15,
            Register::PC => 16,
            Register::SP => 17,
            Register::SR => 18,
        }
    }
}

#[derive(Debug, Clone, Copy, PartialEq, Eq, Structural)]
pub enum StatusBit {
    Zero,
    Negative,
    Carry,
}

/// The status register bit of each flag.
pub open spec fn bit_index(b: StatusBit) -> u32 {
    match b {
        StatusBit::Zero => 0,
        StatusBit::Negative => 1,
        StatusBit::Carry => 2,
    }
}

impl StatusBit {
    pub fn index(self) -> (r: u32)
        ensures
            r == bit_index(self),
    {
        match self {
            StatusBit::Zero => 0,
            StatusBit::Negative => 1,
            StatusBit::Carry => 2,
        }
    }
}

/// A word with one bit forced to the given value.
pub open spec fn set_bit(value: u32, bit: u32, set: bool) -> u32
    recommends
        bit < 32,
{
    if set {
        value | (1u32 << bit)
    } else {
        value & !(1u32 << bit)
    }
}

/// Whether one bit of a word is set.
pub open spec fn get_bit(value: u32, bit: u32) -> bool
    recommends
        bit < 32,
{
    value & (1u32 << bit) != 0
}

/// The status register after a compare of `left` against `right`: Zero iff
/// the wrapping difference is 0, Carry iff the subtrahend is greater (an
/// unsigned borrow occurred), Negative iff the difference's sign bit is set.
/// Only the three flag bits change.
pub open spec fn compare_flags(sr: u32, left: u32, right: u32) -> u32 {
    let result = u32_specs::wrapping_sub(left, right);
    set_bit(set_bit(set_bit(sr, 0, result == 0), 2, right > left), 1, result & 0x8000_0000 != 0)
}

/// The machine state the contracts speak of: the register file, main
/// memory's bytes, the console output so far, and the halt flag.
#[verifier::ext_equal]
pub ghost struct CpuView {
    pub regs: Seq<u32>,
    pub mem: Seq<u8>,
    pub out: Seq<u8>,
    pub halt: bool,
}

/// A view with one register changed.
pub open spec fn with_reg(pre: CpuView, reg: int, value: u32) -> CpuView {
    CpuView { regs: pre.regs.update(reg, value), ..pre }
}

/// The state after the saved word is pushed: SP moves down four bytes and
/// the word is stored there, or the state is unchanged on a fault.
pub open spec fn push_spec(pre: CpuView, value: u32) -> Result<CpuView, Fault> {
    let nsp = u32_specs::wrapping_sub(pre.regs[17], 4);
    match bus_write_dw(pre.mem, pre.out, nsp, value) {
        Ok((m, o)) => Ok(CpuView { regs: pre.regs.update(17, nsp), mem: m, out: o, ..pre }),
        Err(f) => Err(f),
    }
}

/// The state after a pop into a register: the word at SP is read into the
/// register, then SP moves up four bytes.
pub open spec fn pop_spec(pre: CpuView, reg: int) -> Result<CpuView, Fault> {
    match bus_read_dw(pre.mem, pre.regs[17]) {
        Ok(v) => {
            let regs1 = pre.regs.update(reg, v);
            Ok(CpuView { regs: regs1.update(17, u32_specs::wrapping_add(regs1[17], 4)), ..pre })
        },
        Err(f) => Err(f),
    }
}

/// One instruction's effect on the machine state, after the fetch already
/// advanced PC: wrapping 32-bit unsigned arithmetic throughout, memory
/// through the bus, and every fatal condition an explicit fault that leaves
/// the state unchanged. A register index outside the file is reported as an
/// invalid-instruction fault, since no well-formed program encodes one.
pub open spec fn step(pre: CpuView, d: DecodedInstruction) -> Result<CpuView, Fault>
    recommends
        pre.regs.len() == 19,
{
    let r1 = d.reg_1 as int;
    let r2 = d.reg_2 as int;
    let r3 = d.reg_3 as int;
    let regs = pre.regs;
    match d.instruction_type {
        Instruction::NOp => Ok(pre),
        Instruction::Halt => Ok(CpuView { halt: true, ..pre }),
        Instruction::Move => if d.reg_1 < 19 && d.reg_2 < 19 {
            Ok(with_reg(pre, r1, regs[r2]))
        } else {
            Err(Fault::InvalidInstructionFault)
        },
        Instruction::Increment => if d.reg_1 < 19 {
            Ok(with_reg(pre, r1, u32_specs::wrapping_add(regs[r1], 1)))
        } else {
            Err(Fault::InvalidInstructionFault)
        },
        Instruction::Decrement => if d.reg_1 < 19 {
            Ok(with_reg(pre, r1, u32_specs::wrapping_sub(regs[r1], 1)))
        } else {
            Err(Fault::InvalidInstructionFault)
        },
        Instruction::Add => if d.reg_1 < 19 && d.reg_2 < 19 && d.reg_3 < 19 {
            Ok(with_reg(pre, r1, u32_specs::wrapping_add(regs[r2], regs[r3])))
        } else {
            Err(Fault::InvalidInstructionFault)
        },
        Instruction::Subtract => if d.reg_1 < 19 && d.reg_2 < 19 && d.reg_3 < 19 {
            Ok(with_reg(pre, r1, u32_specs::wrapping_sub(regs[r2], regs[r3])))
        } else {
            Err(Fault::InvalidInstructionFault)
        },
        Instruction::Multiply => if d.reg_1 < 19 && d.reg_2 < 19 && d.reg_3 < 19 {
            Ok(with_reg(pre, r1, u32_specs::wrapping_mul(regs[r2], regs[r3])))
        } else {
            Err(Fault::InvalidInstructionFault)
        },
        Instruction::Divide => if d.reg_1 < 19 && d.reg_2 < 19 && d.reg_3 < 19 {
            if regs[r3] == 0 {
                Err(Fault::DivideByZeroFault)
            } else {
                Ok(with_reg(pre, r1, (regs[r2] / regs[r3]) as u32))
            }
        } else {
            Err(Fault::InvalidInstructionFault)
        },
        Instruction::Compare => if d.reg_1 < 19 && d.reg_2 < 19 {
            Ok(with_reg(pre, 18, compare_flags(regs[18], regs[r1], regs[r2])))
        } else {
            Err(Fault::InvalidInstructionFault)
        },
        Instruction::CompareImmediate => if d.reg_1 < 19 {
            Ok(with_reg(pre, 18, compare_flags(regs[18], regs[r1], d.operand)))
        } else {
            Err(Fault::InvalidInstructionFault)
        },
        Instruction::AddImmediate => if d.reg_1 < 19 && d.reg_2 < 19 {
            Ok(with_reg(pre, r1, u32_specs::wrapping_add(regs[r2], d.operand)))
        } else {
            Err(Fault::InvalidInstructionFault)
        },
        Instruction::SubtractImmediate => if d.reg_1 < 19 && d.reg_2 < 19 {
            Ok(with_reg(pre, r1, u32_specs::wrapping_sub(regs[r2], d.operand)))
        } else {
            Err(Fault::InvalidInstructionFault)
        },
        Instruction::Or => if d.reg_1 < 19 && d.reg_2 < 19 && d.reg_3 < 19 {
            Ok(with_reg(pre, r1, regs[r2] | regs[r3]))
        } else {
            Err(Fault::InvalidInstructionFault)
        },
        Instruction::And => if d.reg_1 < 19 && d.reg_2 < 19 && d.reg_3 < 19 {
            Ok(with_reg(pre, r1, regs[r2] & regs[r3]))
        } else {
            Err(Fault::InvalidInstructionFault)
        },
        Instruction::XOr => if d.reg_1 < 19 && d.reg_2 < 19 && d.reg_3 < 19 {
            Ok(with_reg(pre, r1, regs[r2] ^ regs[r3]))
        } else {
            Err(Fault::InvalidInstructionFault)
        },
        Instruction::Negate => if d.reg_1 < 19 {
            Ok(with_reg(pre, r1, u32_specs::wrapping_sub(0, regs[r1])))
        } else {
            Err(Fault::InvalidInstructionFault)
        },
        Instruction::Complement => if d.reg_1 < 19 {
            Ok(with_reg(pre, r1, !regs[r1]))
        } else {
            Err(Fault::InvalidInstructionFault)
        },
        Instruction::LoadImmediate => if d.reg_1 < 19 {
            Ok(with_reg(pre, r1, d.operand))
        } else {
            Err(Fault::InvalidInstructionFault)
        },
        Instruction::Load => if d.reg_1 < 19 && d.reg_2 < 19 {
            match bus_read_dw(pre.mem, regs[r2]) {
                Ok(v) => Ok(with_reg(pre, r1, v)),
                Err(f) => Err(f),
            }
        } else {
            Err(Fault::InvalidInstructionFault)
        },
        Instruction::LoadByte => if d.reg_1 < 19 && d.reg_2 < 19 {
            match bus_read(pre.mem, regs[r2]) {
                Ok(b) => Ok(with_reg(pre, r1, b as u32)),
                Err(f) => Err(f),
            }
        } else {
            Err(Fault::InvalidInstructionFault)
        },
        Instruction::LoadDirect => if d.reg_1 < 19 {
            match bus_read_dw(pre.mem, d.operand) {
                Ok(v) => Ok(with_reg(pre, r1, v)),
                Err(f) => Err(f),
            }
        } else {
            Err(Fault::InvalidInstructionFault)
        },
        Instruction::LoadDirectByte => if d.reg_1 < 19 {
            match bus_read(pre.mem, d.operand) {
                Ok(b) => Ok(with_reg(pre, r1, b as u32)),
                Err(f) => Err(f),
            }
        } else {
            Err(Fault::InvalidInstructionFault)
        },
        Instruction::Store => if d.reg_1 < 19 && d.reg_2 < 19 {
            match bus_write_dw(pre.mem, pre.out, regs[r2], regs[r1]) {
                Ok((m, o)) => Ok(CpuView { mem: m, out: o, ..pre }),
                Err(f) => Err(f),
            }
        } else {
            Err(Fault::InvalidInstructionFault)
        },
        Instruction::StoreByte => if d.reg_1 < 19 && d.reg_2 < 19 {
            match bus_write(pre.mem, pre.out, regs[r2], (regs[r1] % 0x100) as u8) {
                Ok((m, o)) => Ok(CpuView { mem: m, out: o, ..pre }),
                Err(f) => Err(f),
            }
        } else {
            Err(Fault::InvalidInstructionFault)
        },
        Instruction::StoreDirect => if d.reg_1 < 19 {
            match bus_write_dw(pre.mem, pre.out, d.operand, regs[r1]) {
                Ok((m, o)) => Ok(CpuView { mem: m, out: o, ..pre }),
                Err(f) => Err(f),
            }
        } else {
            Err(Fault::InvalidInstructionFault)
        },
        Instruction::StoreDirectByte => if d.reg_1 < 19 {
            match bus_write(pre.mem, pre.out, d.operand, (regs[r1] % 0x100) as u8) {
                Ok((m, o)) => Ok(CpuView { mem: m, out: o, ..pre }),
                Err(f) => Err(f),
            }
        } else {
            Err(Fault::InvalidInstructionFault)
        },
        Instruction::Push => if d.reg_1 < 19 {
            push_spec(pre, regs[r1])
        } else {
            Err(Fault::InvalidInstructionFault)
        },
        Instruction::Pop => if d.reg_1 < 19 {
            pop_spec(pre, r1)
        } else {
            Err(Fault::InvalidInstructionFault)
        },
        Instruction::Jump => Ok(with_reg(pre, 16, d.operand)),
        Instruction::Call => match push_spec(pre, regs[16]) {
            Ok(v) => Ok(with_reg(v, 16, d.operand)),
            Err(f) => Err(f),
        },
        Instruction::Return => pop_spec(pre, 16),
        Instruction::BranchEqual => if get_bit(regs[18], 0) {
            Ok(with_reg(pre, 16, d.operand))
        } else {
            Ok(pre)
        },
        Instruction::BranchNotEqual => if !get_bit(regs[18], 0) {
            Ok(with_reg(pre, 16, d.operand))
        } else {
            Ok(pre)
        },
        Instruction::Invalid => Err(Fault::InvalidInstructionFault),
    }
}

/// The state, cycle counter and outcome after running until the machine
/// halts, a fault stops it, or the cycle counter is exhausted.
pub open spec fn run_spec(v: CpuView, cycles: u64) -> (CpuView, u64, Result<(), Fault>)
    recommends
        v.regs.len() == 19,
    decreases u64::MAX - cycles,
{
    if v.halt || cycles == u64::MAX {
        (v, cycles, Ok(()))
    } else {
        let pc = v.regs[16];
        let v1 = CpuView { regs: v.regs.update(16, u32_specs::wrapping_add(pc, 8)), ..v };
        match bus_read_instr(v.mem, pc) {
            Err(f) => (v1, cycles, Err(f)),
            Ok(bytes) => {
                let d = decode_spec(bytes);
                let c1 = (cycles + 1) as u64;
                match step(v1, d) {
                    Err(f) => (v1, c1, Err(f)),
                    Ok(v2) => run_spec(v2, c1),
                }
            },
        }
    }
}

/// Setting one bit reads back as written and leaves every other bit alone.
pub proof fn lemma_set_get_bit(value: u32, i: u32, j: u32, b: bool)
    requires
        i < 32,
        j < 32,
    ensures
        get_bit(set_bit(value, i, b), j) == if i == j {
            b
        } else {
            get_bit(value, j)
        },
{
    assert(((if b {
        value | (1u32 << i)
    } else {
        value & !(1u32 << i)
    }) & (1u32 << j) != 0) == (if i == j {
        b
    } else {
        value & (1u32 << j) != 0
    })) by (bit_vector)
        requires
            i < 32,
            j < 32,
    ;
}

/// A compare sets exactly the documented flag combination: Zero iff the
/// operands are equal, Carry iff the right operand is greater (an unsigned
/// borrow occurred), Negative iff the wrapping difference has its sign bit
/// set; every other status bit keeps its value.
pub proof fn lemma_compare_flags(sr: u32, l: u32, r: u32)
    ensures
        get_bit(compare_flags(sr, l, r), 0) == (l == r),
        get_bit(compare_flags(sr, l, r), 2) == (r > l),
        get_bit(compare_flags(sr, l, r), 1) == (u32_specs::wrapping_sub(l, r) >= 0x8000_0000),
        forall|j: u32| 3 <= j < 32 ==> get_bit(compare_flags(sr, l, r), j) == get_bit(sr, j),
{
    let result = u32_specs::wrapping_sub(l, r);
    let v1 = set_bit(sr, 0, result == 0);
    let v2 = set_bit(v1, 2, r > l);
    assert(result & 0x8000_0000 != 0 <==> result >= 0x8000_0000) by (bit_vector);
    lemma_set_get_bit(v2, 1, 0, result & 0x8000_0000 != 0);
    lemma_set_get_bit(v1, 2, 0, r > l);
    lemma_set_get_bit(sr, 0, 0, result == 0);
    lemma_set_get_bit(v2, 1, 2, result & 0x8000_0000 != 0);
    lemma_set_get_bit(v1, 2, 2, r > l);
    lemma_set_get_bit(v2, 1, 1, result & 0x8000_0000 != 0);
    assert forall|j: u32| 3 <= j < 32 implies get_bit(compare_flags(sr, l, r), j) == get_bit(
        sr,
        j,
    ) by {
        lemma_set_get_bit(v2, 1, j, result & 0x8000_0000 != 0);
        lemma_set_get_bit(v1, 2, j, r > l);
        lemma_set_get_bit(sr, 0, j, result == 0);
    }
}

/// Pushing a register and then popping it back round-trips the register's
/// value and leaves SP exactly where it was before the pair; only the stack
/// slot in memory changes. Holds for every register but SP itself, whenever
/// the slot below SP is aligned, writable main memory.
pub proof fn lemma_push_then_pop(pre: CpuView, reg: u8)
    requires
        pre.regs.len() == 19,
        pre.mem.len() == MEMORY_SIZE,
        reg < 19,
        reg != 17,
        u32_specs::wrapping_sub(pre.regs[17], 4) % 4 == 0,
        MEMORY_START <= u32_specs::wrapping_sub(pre.regs[17], 4),
        u32_specs::wrapping_sub(pre.regs[17], 4) <= MEMORY_END - 3,
    ensures
        ({
            let push_d = DecodedInstruction {
                instruction_type: Instruction::Push,
                reg_1: reg,
                reg_2: 0,
                reg_3: 0,
                operand: 0,
            };
            let pop_d = DecodedInstruction {
                instruction_type: Instruction::Pop,
                reg_1: reg,
                reg_2: 0,
                reg_3: 0,
                operand: 0,
            };
            &&& step(pre, push_d) is Ok
            &&& step(step(pre, push_d)->Ok_0, pop_d) is Ok
            &&& step(step(pre, push_d)->Ok_0, pop_d)->Ok_0.regs =~= pre.regs
            &&& step(step(pre, push_d)->Ok_0, pop_d)->Ok_0.out == pre.out
            &&& step(step(pre, push_d)->Ok_0, pop_d)->Ok_0.halt == pre.halt
        }),
{
    let sp = pre.regs[17];
    let nsp = u32_specs::wrapping_sub(sp, 4);
    let value = pre.regs[reg as int];
    crate::common::util::lemma_bytes_u32_roundtrip(
        crate::common::util::bytes_of_u32(value)[0],
        crate::common::util::bytes_of_u32(value)[1],
        crate::common::util::bytes_of_u32(value)[2],
        crate::common::util::bytes_of_u32(value)[3],
    );
    crate::common::util::lemma_u32_bytes_roundtrip(value);
    let push_d = DecodedInstruction {
        instruction_type: Instruction::Push,
        reg_1: reg,
        reg_2: 0,
        reg_3: 0,
        operand: 0,
    };
    let pop_d = DecodedInstruction {
        instruction_type: Instruction::Pop,
        reg_1: reg,
        reg_2: 0,
        reg_3: 0,
        operand: 0,
    };
    let s1 = step(pre, push_d)->Ok_0;
    assert(step(pre, push_d) is Ok);
    assert(s1.regs[17] == nsp);
    assert(bus_read_dw(s1.mem, nsp) == Ok::<u32, Fault>(value));
    let s2 = step(s1, pop_d)->Ok_0;
    assert(step(s1, pop_d) is Ok);
    assert(s2.regs =~= pre.regs);
}

/// A call pushes the already-advanced PC — the address of the instruction
/// right after the call — and jumps to the target; a later return, from any
/// state that kept SP and the saved slot intact, resumes at exactly that
/// address with SP restored.
pub proof fn lemma_call_then_return(pre: CpuView, target: u32, mid: CpuView)
    requires
        pre.regs.len() == 19,
        mid.regs.len() == 19,
        pre.mem.len() == MEMORY_SIZE,
        mid.mem.len() == MEMORY_SIZE,
        u32_specs::wrapping_sub(pre.regs[17], 4) % 4 == 0,
        MEMORY_START <= u32_specs::wrapping_sub(pre.regs[17], 4),
        u32_specs::wrapping_sub(pre.regs[17], 4) <= MEMORY_END - 3,
        // the code between call and return left SP and the saved slot alone
        mid.regs[17] == u32_specs::wrapping_sub(pre.regs[17], 4),
        bus_read_dw(mid.mem, mid.regs[17]) == Ok::<u32, Fault>(pre.regs[16]),
    ensures
        ({
            let call_d = DecodedInstruction {
                instruction_type: Instruction::Call,
                reg_1: 0,
                reg_2: 0,
                reg_3: 0,
                operand: target,
            };
            let ret_d = DecodedInstruction {
                instruction_type: Instruction::Return,
                reg_1: 0,
                reg_2: 0,
                reg_3: 0,
                operand: 0,
            };
            &&& step(pre, call_d) is Ok
            &&& step(pre, call_d)->Ok_0.regs[16] == target
            &&& step(pre, call_d)->Ok_0.regs[17] == u32_specs::wrapping_sub(pre.regs[17], 4)
            &&& bus_read_dw(step(pre, call_d)->Ok_0.mem, u32_specs::wrapping_sub(pre.regs[17], 4))
                == Ok::<u32, Fault>(pre.regs[16])
            &&& step(mid, ret_d) is Ok
            &&& step(mid, ret_d)->Ok_0.regs[16] == pre.regs[16]
            &&& step(mid, ret_d)->Ok_0.regs[17] == pre.regs[17]
        }),
{
    let sp = pre.regs[17];
    let nsp = u32_specs::wrapping_sub(sp, 4);
    let saved = pre.regs[16];
    crate::common::util::lemma_bytes_u32_roundtrip(
        crate::common::util::bytes_of_u32(saved)[0],
        crate::common::util::bytes_of_u32(saved)[1],
        crate::common::util::bytes_of_u32(saved)[2],
        crate::common::util::bytes_of_u32(saved)[3],
    );
    crate::common::util::lemma_u32_bytes_roundtrip(saved);
}

pub struct CPU {
    pub regs: Vec<u32>,
    pub memory: AddressSpace,
    pub halt: bool,
    pub cycle_counter: u64,
}

impl CPU {
    pub open spec fn wf(&self) -> bool {
        &&& self.regs@.len() == 19
        &&& self.memory.wf()
    }

    /// The machine state this engine is in.
    pub open spec fn cview(&self) -> CpuView {
        CpuView {
            regs: self.regs@,
            mem: self.memory.memory.data@,
            out: self.memory.console.output@,
            halt: self.halt,
        }
    }

    pub fn new(memory: AddressSpace) -> (r: Self)
        requires
            memory.wf(),
        ensures
            r.wf(),
            r.cview() == (CpuView {
                regs: Seq::new(19, |i: int| 0u32).update(16, MEMORY_START),
                mem: memory.memory.data@,
                out: memory.console.output@,
                halt: false,
            }),
            r.cycle_counter == 0,
    {
        let mut regs: Vec<u32> = Vec::new();
        let mut i: usize = 0;
        while i < 19
            invariant
                i <= 19,
                regs@ == Seq::new(i as nat, |j: int| 0u32),
            decreases 19 - i,
        {
            regs.push(0);
            proof {
                assert(regs@ =~= Seq::new((i + 1) as nat, |j: int| 0u32));
            }
            i = i + 1;
        }
        let mut cpu = CPU { regs, memory, halt: false, cycle_counter: 0 };
        cpu.regs[16] = MEMORY_START;
        proof {
            assert(cpu.cview() =~= (CpuView {
                regs: Seq::new(19, |j: int| 0u32).update(16, MEMORY_START),
                mem: cpu.memory.memory.data@,
                out: cpu.memory.console.output@,
                halt: false,
            }));
        }
        cpu
    }

    pub fn set_status_bit(&mut self, bit: StatusBit, set: bool)
        requires
            old(self).wf(),
        ensures
            final(self).wf(),
            final(self).regs@ == old(self).regs@.update(
                18,
                set_bit(old(self).regs@[18], bit_index(bit), set),
            ),
            final(self).memory == old(self).memory,
            final(self).halt == old(self).halt,
            final(self).cycle_counter == old(self).cycle_counter,
    {
        let mut value = self.regs[18];
        let mask = 1u32 << bit.index();
        if set {
            value = value | mask;
        } else {
            value = value & !mask;
        }
        self.regs[18] = value;
    }

    pub fn get_status_bit(&self, bit: StatusBit) -> (r: bool)
        requires
            self.wf(),
        ensures
            r == get_bit(self.regs@[18], bit_index(bit)),
    {
        let value = self.regs[18];
        let mask = 1u32 << bit.index();
        (value & mask) != 0
    }

    pub fn get_register(&self, reg: Register) -> (r: u32)
        requires
            self.wf(),
        ensures
            r == self.regs@[reg_index(reg)],
    {
        self.regs[reg.index()]
    }

    pub fn set_register(&mut self, reg: Register, value: u32)
        requires
            old(self).wf(),
        ensures
            final(self).wf(),
            final(self).regs@ == old(self).regs@.update(reg_index(reg), value),
            final(self).memory == old(self).memory,
            final(self).halt == old(self).halt,
            final(self).cycle_counter == old(self).cycle_counter,
    {
        let i = reg.index();
        self.regs[i] = value;
    }

    /// Fetches the eight instruction bytes at PC and advances PC by the
    /// instruction width; PC advances whether or not the fetch faults.
    fn load_instruction(&mut self) -> (r: Result<[u8; 8], Fault>)
        requires
            old(self).wf(),
        ensures
            final(self).wf(),
            final(self).regs@ == old(self).regs@.update(
                16,
                u32_specs::wrapping_add(old(self).regs@[16], 8),
            ),
            final(self).memory == old(self).memory,
            final(self).halt == old(self).halt,
            final(self).cycle_counter == old(self).cycle_counter,
            match r {
                Ok(b) => bus_read_instr(old(self).memory.memory.data@, old(self).regs@[16])
                    == Ok::<Seq<u8>, Fault>(b@),
                Err(e) => bus_read_instr(old(self).memory.memory.data@, old(self).regs@[16])
                    == Err::<Seq<u8>, Fault>(e),
            },
    {
        let pc = self.regs[16];
        self.regs[16] = pc.wrapping_add(8);
        self.memory.read_instruction(pc)
    }

    /// Pushes a register's word: SP moves down four bytes and the word is
    /// stored there; a fault leaves the machine unchanged.
    fn push(&mut self, register: usize) -> (r: Result<(), Fault>)
        requires
            old(self).wf(),
            register < 19,
        ensures
            final(self).wf(),
            final(self).cycle_counter == old(self).cycle_counter,
            match push_spec(old(self).cview(), old(self).regs@[register as int]) {
                Ok(v) => r == Ok::<(), Fault>(()) && final(self).cview() == v,
                Err(f) => r == Err::<(), Fault>(f) && final(self).cview() == old(self).cview(),
            },
    {
        let nsp = self.regs[17].wrapping_sub(4);
        match self.memory.write_doubleword(nsp, self.regs[register]) {
            Ok(_) => {
                self.regs[17] = nsp;
                proof {
                    assert(final(self).cview() =~= push_spec(
                        old(self).cview(),
                        old(self).regs@[register as int],
                    )->Ok_0);
                }
                Ok(())
            },
            Err(f) => {
                proof {
                    assert(final(self).cview() =~= old(self).cview());
                }
                Err(f)
            },
        }
    }

    /// Pops the word at SP into a register, then moves SP up four bytes; a
    /// fault leaves the machine unchanged.
    fn pop(&mut self, register: usize) -> (r: Result<(), Fault>)
        requires
            old(self).wf(),
            register < 19,
        ensures
            final(self).wf(),
            final(self).cycle_counter == old(self).cycle_counter,
            match pop_spec(old(self).cview(), register as int) {
                Ok(v) => r == Ok::<(), Fault>(()) && final(self).cview() == v,
                Err(f) => r == Err::<(), Fault>(f) && final(self).cview() == old(self).cview(),
            },
    {
        let sp = self.regs[17];
        match self.memory.read_doubleword(sp) {
            Ok(value) => {
                self.regs[register] = value;
                let sp2 = self.regs[17];
                self.regs[17] = sp2.wrapping_add(4);
                proof {
                    assert(final(self).cview() =~= pop_spec(
                        old(self).cview(),
                        register as int,
                    )->Ok_0);
                }
                Ok(())
            },
            Err(f) => {
                proof {
                    assert(final(self).cview() =~= old(self).cview());
                }
                Err(f)
            },
        }
    }

    /// Pushes the current PC (already advanced past the call), then jumps.
    fn call(&mut self, address: u32) -> (r: Result<(), Fault>)
        requires
            old(self).wf(),
        ensures
            final(self).wf(),
            final(self).cycle_counter == old(self).cycle_counter,
            match push_spec(old(self).cview(), old(self).regs@[16]) {
                Ok(v) => r == Ok::<(), Fault>(()) && final(self).cview() == with_reg(
                    v,
                    16,
                    address,
                ),
                Err(f) => r == Err::<(), Fault>(f) && final(self).cview() == old(self).cview(),
            },
    {
        match self.push(16) {
            Ok(_) => {
                self.regs[16] = address;
                proof {
                    assert(final(self).cview() =~= with_reg(
                        push_spec(old(self).cview(), old(self).regs@[16])->Ok_0,
                        16,
                        address,
                    ));
                }
                Ok(())
            },
            Err(f) => Err(f),
        }
    }

    /// Pops the saved return address into PC.
    fn return_from_call(&mut self) -> (r: Result<(), Fault>)
        requires
            old(self).wf(),
        ensures
            final(self).wf(),
            final(self).cycle_counter == old(self).cycle_counter,
            match pop_spec(old(self).cview(), 16) {
                Ok(v) => r == Ok::<(), Fault>(()) && final(self).cview() == v,
                Err(f) => r == Err::<(), Fault>(f) && final(self).cview() == old(self).cview(),
            },
    {
        self.pop(16)
    }

    fn halt(&mut self)
        requires
            old(self).wf(),
        ensures
            final(self).wf(),
            final(self).cview() == (CpuView { halt: true, ..old(self).cview() }),
            final(self).cycle_counter == old(self).cycle_counter,
    {
        self.halt = true;
        proof {
            assert(final(self).cview() =~= (CpuView { halt: true, ..old(self).cview() }));
        }
    }

    /// Compares `l` against `r` by wrapping subtraction and sets the three
    /// status flags to exactly the documented combination.
    fn compare(&mut self, l: u32, r: u32)
        requires
            old(self).wf(),
        ensures
            final(self).wf(),
            final(self).regs@ == old(self).regs@.update(
                18,
                compare_flags(old(self).regs@[18], l, r),
            ),
            final(self).memory == old(self).memory,
            final(self).halt == old(self).halt,
            final(self).cycle_counter == old(self).cycle_counter,
    {
        let result = l.wrapping_sub(r);
        self.set_status_bit(StatusBit::Zero, result == 0);
        self.set_status_bit(StatusBit::Carry, r > l);
        self.set_status_bit(StatusBit::Negative, (result & 0x8000_0000) != 0);
        proof {
            assert(final(self).regs@ =~= old(self).regs@.update(
                18,
                compare_flags(old(self).regs@[18], l, r),
            ));
        }
    }

    /// Executes one decoded instruction. The outcome and the state change
    /// are exactly `step` of the previous state; on a fault the machine is
    /// left unchanged.
    pub fn execute_instruction(&mut self, d: &DecodedInstruction) -> (r: Result<(), Fault>)
        requires
            old(self).wf(),
        ensures
            final(self).wf(),
            final(self).cycle_counter == old(self).cycle_counter,
            match step(old(self).cview(), *d) {
                Ok(v) => r == Ok::<(), Fault>(()) && final(self).cview() == v,
                Err(f) => r == Err::<(), Fault>(f) && final(self).cview() == old(self).cview(),
            },
    {
        let reg_1 = d.reg_1 as usize;
        let reg_2 = d.reg_2 as usize;
        let reg_3 = d.reg_3 as usize;
        match d.instruction_type {
            Instruction::NOp => Ok(()),
            Instruction::Halt => {
                self.halt();
                Ok(())
            },
            Instruction::Move => {
                if reg_1 >= 19 || reg_2 >= 19 {
                    return Err(Fault::InvalidInstructionFault);
                }
                self.regs[reg_1] = self.regs[reg_2];
                proof {
                    assert(final(self).cview() =~= with_reg(
                        old(self).cview(),
                        reg_1 as int,
                        old(self).regs@[reg_2 as int],
                    ));
                }
                Ok(())
            },
            Instruction::Increment => {
                if reg_1 >= 19 {
                    return Err(Fault::InvalidInstructionFault);
                }
                self.regs[reg_1] = self.regs[reg_1].wrapping_add(1);
                proof {
                    assert(final(self).cview() =~= step(old(self).cview(), *d)->Ok_0);
                }
                Ok(())
            },
            Instruction::Decrement => {
                if reg_1 >= 19 {
                    return Err(Fault::InvalidInstructionFault);
                }
                self.regs[reg_1] = self.regs[reg_1].wrapping_sub(1);
                proof {
                    assert(final(self).cview() =~= step(old(self).cview(), *d)->Ok_0);
                }
                Ok(())
            },
            Instruction::Add => {
                if reg_1 >= 19 || reg_2 >= 19 || reg_3 >= 19 {
                    return Err(Fault::InvalidInstructionFault);
                }
                self.regs[reg_1] = self.regs[reg_2].wrapping_add(self.regs[reg_3]);
                proof {
                    assert(final(self).cview() =~= step(old(self).cview(), *d)->Ok_0);
                }
                Ok(())
            },
            Instruction::Subtract => {
                if reg_1 >= 19 || reg_2 >= 19 || reg_3 >= 19 {
                    return Err(Fault::InvalidInstructionFault);
                }
                self.regs[reg_1] = self.regs[reg_2].wrapping_sub(self.regs[reg_3]);
                proof {
                    assert(final(self).cview() =~= step(old(self).cview(), *d)->Ok_0);
                }
                Ok(())
            },
            Instruction::Multiply => {
                if reg_1 >= 19 || reg_2 >= 19 || reg_3 >= 19 {
                    return Err(Fault::InvalidInstructionFault);
                }
                self.regs[reg_1] = self.regs[reg_2].wrapping_mul(self.regs[reg_3]);
                proof {
                    assert(final(self).cview() =~= step(old(self).cview(), *d)->Ok_0);
                }
                Ok(())
            },
            Instruction::Divide => {
                if reg_1 >= 19 || reg_2 >= 19 || reg_3 >= 19 {
                    return Err(Fault::InvalidInstructionFault);
                }
                if self.regs[reg_3] == 0 {
                    return Err(Fault::DivideByZeroFault);
                }
                self.regs[reg_1] = self.regs[reg_2] / self.regs[reg_3];
                proof {
                    assert(final(self).cview() =~= step(old(self).cview(), *d)->Ok_0);
                }
                Ok(())
            },
            Instruction::Compare => {
                if reg_1 >= 19 || reg_2 >= 19 {
                    return Err(Fault::InvalidInstructionFault);
                }
                let l = self.regs[reg_1];
                let r = self.regs[reg_2];
                self.compare(l, r);
                proof {
                    assert(final(self).cview() =~= step(old(self).cview(), *d)->Ok_0);
                }
                Ok(())
            },
            Instruction::CompareImmediate => {
                if reg_1 >= 19 {
                    return Err(Fault::InvalidInstructionFault);
                }
                let l = self.regs[reg_1];
                let r = d.operand;
                self.compare(l, r);
                proof {
                    assert(final(self).cview() =~= step(old(self).cview(), *d)->Ok_0);
                }
                Ok(())
            },
            Instruction::AddImmediate => {
                if reg_1 >= 19 || reg_2 >= 19 {
                    return Err(Fault::InvalidInstructionFault);
                }
                self.regs[reg_1] = self.regs[reg_2].wrapping_add(d.operand);
                proof {
                    assert(final(self).cview() =~= step(old(self).cview(), *d)->Ok_0);
                }
                Ok(())
            },
            Instruction::SubtractImmediate => {
                if reg_1 >= 19 || reg_2 >= 19 {
                    return Err(Fault::InvalidInstructionFault);
                }
                self.regs[reg_1] = self.regs[reg_2].wrapping_sub(d.operand);
                proof {
                    assert(final(self).cview() =~= step(old(self).cview(), *d)->Ok_0);
                }
                Ok(())
            },
            Instruction::Or => {
                if reg_1 >= 19 || reg_2 >= 19 || reg_3 >= 19 {
                    return Err(Fault::InvalidInstructionFault);
                }
                self.regs[reg_1] = self.regs[reg_2] | self.regs[reg_3];
                proof {
                    assert(final(self).cview() =~= step(old(self).cview(), *d)->Ok_0);
                }
                Ok(())
            },
            Instruction::And => {
                if reg_1 >= 19 || reg_2 >= 19 || reg_3 >= 19 {
                    return Err(Fault::InvalidInstructionFault);
                }
                self.regs[reg_1] = self.regs[reg_2] & self.regs[reg_3];
                proof {
                    assert(final(self).cview() =~= step(old(self).cview(), *d)->Ok_0);
                }
                Ok(())
            },
            Instruction::XOr => {
                if reg_1 >= 19 || reg_2 >= 19 || reg_3 >= 19 {
                    return Err(Fault::InvalidInstructionFault);
                }
                self.regs[reg_1] = self.regs[reg_2] ^ self.regs[reg_3];
                proof {
                    assert(final(self).cview() =~= step(old(self).cview(), *d)->Ok_0);
                }
                Ok(())
            },
            Instruction::Negate => {
                if reg_1 >= 19 {
                    return Err(Fault::InvalidInstructionFault);
                }
                self.regs[reg_1] = 0u32.wrapping_sub(self.regs[reg_1]);
                proof {
                    assert(final(self).cview() =~= step(old(self).cview(), *d)->Ok_0);
                }
                Ok(())
            },
            Instruction::Complement => {
                if reg_1 >= 19 {
                    return Err(Fault::InvalidInstructionFault);
                }
                self.regs[reg_1] = !self.regs[reg_1];
                proof {
                    assert(final(self).cview() =~= step(old(self).cview(), *d)->Ok_0);
                }
                Ok(())
            },
            Instruction::LoadImmediate => {
                if reg_1 >= 19 {
                    return Err(Fault::InvalidInstructionFault);
                }
                self.regs[reg_1] = d.operand;
                proof {
                    assert(final(self).cview() =~= step(old(self).cview(), *d)->Ok_0);
                }
                Ok(())
            },
            Instruction::Load => {
                if reg_1 >= 19 || reg_2 >= 19 {
                    return Err(Fault::InvalidInstructionFault);
                }
                match self.memory.read_doubleword(self.regs[reg_2]) {
                    Ok(v) => {
                        self.regs[reg_1] = v;
                        proof {
                            assert(final(self).cview() =~= step(old(self).cview(), *d)->Ok_0);
                        }
                        Ok(())
                    },
                    Err(f) => Err(f),
                }
            },
            Instruction::LoadByte => {
                if reg_1 >= 19 || reg_2 >= 19 {
                    return Err(Fault::InvalidInstructionFault);
                }
                match self.memory.read(self.regs[reg_2]) {
                    Ok(b) => {
                        self.regs[reg_1] = b as u32;
                        proof {
                            assert(final(self).cview() =~= step(old(self).cview(), *d)->Ok_0);
                        }
                        Ok(())
                    },
                    Err(f) => Err(f),
                }
            },
            Instruction::LoadDirect => {
                if reg_1 >= 19 {
                    return Err(Fault::InvalidInstructionFault);
                }
                match self.memory.read_doubleword(d.operand) {
                    Ok(v) => {
                        self.regs[reg_1] = v;
                        proof {
                            assert(final(self).cview() =~= step(old(self).cview(), *d)->Ok_0);
                        }
                        Ok(())
                    },
                    Err(f) => Err(f),
                }
            },
            Instruction::LoadDirectByte => {
                if reg_1 >= 19 {
                    return Err(Fault::InvalidInstructionFault);
                }
                match self.memory.read(d.operand) {
                    Ok(b) => {
                        self.regs[reg_1] = b as u32;
                        proof {
                            assert(final(self).cview() =~= step(old(self).cview(), *d)->Ok_0);
                        }
                        Ok(())
                    },
                    Err(f) => Err(f),
                }
            },
            Instruction::Store => {
                if reg_1 >= 19 || reg_2 >= 19 {
                    return Err(Fault::InvalidInstructionFault);
                }
                let r = self.memory.write_doubleword(self.regs[reg_2], self.regs[reg_1]);
                proof {
                    if r is Ok {
                        assert(final(self).cview() =~= step(old(self).cview(), *d)->Ok_0);
                    } else {
                        assert(final(self).cview() =~= old(self).cview());
                    }
                }
                r
            },
            Instruction::StoreByte => {
                if reg_1 >= 19 || reg_2 >= 19 {
                    return Err(Fault::InvalidInstructionFault);
                }
                let value = (self.regs[reg_1] % 0x100) as u8;
                let r = self.memory.write(self.regs[reg_2], value);
                proof {
                    if r is Ok {
                        assert(final(self).cview() =~= step(old(self).cview(), *d)->Ok_0);
                    } else {
                        assert(final(self).cview() =~= old(self).cview());
                    }
                }
                r
            },
            Instruction::StoreDirect => {
                if reg_1 >= 19 {
                    return Err(Fault::InvalidInstructionFault);
                }
                let r = self.memory.write_doubleword(d.operand, self.regs[reg_1]);
                proof {
                    if r is Ok {
                        assert(final(self).cview() =~= step(old(self).cview(), *d)->Ok_0);
                    } else {
                        assert(final(self).cview() =~= old(self).cview());
                    }
                }
                r
            },
            Instruction::StoreDirectByte => {
                if reg_1 >= 19 {
                    return Err(Fault::InvalidInstructionFault);
                }
                let value = (self.regs[reg_1] % 0x100) as u8;
                let r = self.memory.write(d.operand, value);
                proof {
                    if r is Ok {
                        assert(final(self).cview() =~= step(old(self).cview(), *d)->Ok_0);
                    } else {
                        assert(final(self).cview() =~= old(self).cview());
                    }
                }
                r
            },
            Instruction::Push => {
                if reg_1 >= 19 {
                    return Err(Fault::InvalidInstructionFault);
                }
                self.push(reg_1)
            },
            Instruction::Pop => {
                if reg_1 >= 19 {
                    return Err(Fault::InvalidInstructionFault);
                }
                self.pop(reg_1)
            },
            Instruction::Jump => {
                self.regs[16] = d.operand;
                proof {
                    assert(final(self).cview() =~= step(old(self).cview(), *d)->Ok_0);
                }
                Ok(())
            },
            Instruction::Call => self.call(d.operand),
            Instruction::Return => self.return_from_call(),
            Instruction::BranchEqual => {
                if self.get_status_bit(StatusBit::Zero) {
                    self.regs[16] = d.operand;
                    proof {
                        assert(final(self).cview() =~= step(old(self).cview(), *d)->Ok_0);
                    }
                }
                Ok(())
            },
            Instruction::BranchNotEqual => {
                if !self.get_status_bit(StatusBit::Zero) {
                    self.regs[16] = d.operand;
                    proof {
                        assert(final(self).cview() =~= step(old(self).cview(), *d)->Ok_0);
                    }
                }
                Ok(())
            },
            Instruction::Invalid => Err(Fault::InvalidInstructionFault),
        }
    }

    /// Runs the fetch-decode-execute loop until the machine halts, a fault
    /// stops it, or the cycle counter is exhausted. The final state, the
    /// cycle counter and the outcome are exactly `run_spec` of the initial
    /// state.
    #[verifier::loop_isolation(false)]
    pub fn run(&mut self) -> (r: Result<(), Fault>)
        requires
            old(self).wf(),
        ensures
            final(self).wf(),
            run_spec(old(self).cview(), old(self).cycle_counter) == (
                final(self).cview(),
                final(self).cycle_counter,
                r,
            ),
    {
        loop
            invariant
                self.wf(),
                run_spec(old(self).cview(), old(self).cycle_counter) == run_spec(
                    self.cview(),
                    self.cycle_counter,
                ),
            decreases u64::MAX - self.cycle_counter,
        {
            if self.halt || self.cycle_counter == u64::MAX {
                return Ok(());
            }
            let ghost pre = *self;
            let instruction = match self.load_instruction() {
                Ok(b) => b,
                Err(f) => {
                    return Err(f);
                },
            };
            let decoded_instruction = DecodedInstruction::decode(instruction.as_slice());
            self.cycle_counter = self.cycle_counter + 1;
            let ghost mid = *self;
            match self.execute_instruction(&decoded_instruction) {
                Ok(_) => {
                    proof {
                        assert(run_spec(pre.cview(), pre.cycle_counter) == run_spec(
                            self.cview(),
                            self.cycle_counter,
                        ));
                    }
                },
                Err(f) => {
                    proof {
                        assert(self.cview() =~= mid.cview());
                    }
                    return Err(f);
                },
            }
        }
    }
}

} // verus!
