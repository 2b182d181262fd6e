//! An early, register-only execution engine over the word-addressed memory:
//! nineteen wrapping 32-bit registers and a single fetch-decode-execute step.

use vstd::prelude::*;

use vstd::wrapping::u32_specs;

use crate::instruction::{decode_spec, DecodedInstruction, Instruction};
use crate::memory::Memory;

verus! {

#[derive(Debug, Clone, Copy, PartialEq, Eq, Structural)]
pub enum Register {
    R0,
    R1,
    R2,
    R3,
    R4,
    R5,
    R6,
    R7,
    R8,
    R9,
    R10,
    R11,
    R12,
    R13,
    R14,
    R15,
    PC,
    SP,
    SR,
}

/// The register file slot of each named register; the explicit mapping keeps
/// the named set and the array positions from drifting apart.
pub open spec fn reg_index(r: Register) -> int {
    match r {
        Register::R0 => 0,
        Register::R1 => 1,
        Register::R2 => 2,
        Register::R3 => 3,
        Register::R4 => 4,
        Register::R5 => 5,
        Register::R6 => 6,
        Register::R7 => 7,
        Register::R8 => 8,
        Register::R9 => 9,
        Register::R10 => 10,
        Register::R11 => 11,
        Register::R12 => 12,
        Register::R13 => 13,
        Register::R14 => 14,
        Register::R15 => 15,
        Register::PC => 16,
        Register::SP => 17,
        Register::SR => 18,
    }
}

impl Register {
    pub fn index(self) -> (r: usize)
        ensures
            r == reg_index(self),
    {
        match self {
            Register::R0 => 0,
            Register::R1 => 1,
            Register::R2 => 2,
            Register::R3 => 3,
            Register::R4 => 4,
            Register::R5 => 5,
            Register::R6 => 6,
            Register::R7 => 7,
            Register::R8 => 8,
            Register::R9 => 9,
            Register::R10 => 10,
            Register::R11 => 11,
            Register::R12 => 12,
            Register::R13 => 13,
            Register::R14 => 14,
            Register::R15 => 15,
            Register::PC => 16,
            Register::SP => 17,
            Register::SR => 18,
        }
    }
}

/// The index of the program counter in the register file.
pub const PC_INDEX: usize = 16;

/// Which inputs this engine executes: the opcode must not be the `Invalid`
/// sentinel, every register index it touches must be a register file slot,
/// and a division must not divide by zero. The assembler guarantees all of
/// this for assembled programs; the engine does not re-validate it.
pub open spec fn executable(d: DecodedInstruction, regs: Seq<u32>) -> bool {
    match d.instruction_type {
        Instruction::NOp => true,
        Instruction::Invalid => false,
        Instruction::Increment | Instruction::Decrement | Instruction::Negate
            | Instruction::Complement | Instruction::LoadImmediate => d.reg_1 < 19,
        Instruction::Add | Instruction::Subtract | Instruction::Multiply | Instruction::Or
            | Instruction::And | Instruction::XOr => d.reg_1 < 19 && d.reg_2 < 19 && d.reg_3 < 19,
        Instruction::Divide => d.reg_1 < 19 && d.reg_2 < 19 && d.reg_3 < 19 && regs[d.reg_3 as int]
            != 0,
    }
}

/// The register file after one instruction executes: wrapping 32-bit
/// unsigned arithmetic throughout.
pub open spec fn step(regs: Seq<u32>, d: DecodedInstruction) -> Seq<u32>
    recommends
        regs.len() == 19,
        executable(d, regs),
{
    let r1 = d.reg_1 as int;
    let r2 = d.reg_2 as int;
    let r3 = d.reg_3 as int;
    match d.instruction_type {
        Instruction::NOp => regs,
        Instruction::Invalid => regs,
        Instruction::Increment => regs.update(r1, u32_specs::wrapping_add(regs[r1], 1)),
        Instruction::Decrement => regs.update(r1, u32_specs::wrapping_sub(regs[r1], 1)),
        Instruction::Add => regs.update(r1, u32_specs::wrapping_add(regs[r2], regs[r3])),
        Instruction::Subtract => regs.update(r1, u32_specs::wrapping_sub(regs[r2], regs[r3])),
        Instruction::Multiply => regs.update(r1, u32_specs::wrapping_mul(regs[r2], regs[r3])),
        Instruction::Divide => regs.update(r1, (regs[r2] / regs[r3]) as u32),
        Instruction::Or => regs.update(r1, regs[r2] | regs[r3]),
        Instruction::And => regs.update(r1, regs[r2] & regs[r3]),
        Instruction::XOr => regs.update(r1, regs[r2] ^ regs[r3]),
        Instruction::Negate => regs.update(r1, u32_specs::wrapping_sub(0, regs[r1])),
        Instruction::Complement => regs.update(r1, !regs[r1]),
        Instruction::LoadImmediate => regs.update(r1, d.operand),
    }
}

pub struct CPU {
    pub regs: Vec<u32>,
    pub memory: Memory,
}

impl CPU {
    pub open spec fn wf(&self) -> bool {
        self.regs@.len() == 19
    }

    pub open spec fn regs_view(&self) -> Seq<u32> {
        self.regs@
    }

    pub fn new(mem: Memory) -> (r: Self)
        ensures
            r.wf(),
            r.regs_view() == Seq::new(19, |i: int| 0u32),
            r.memory == mem,
    {
        let mut regs: Vec<u32> = Vec::new();
        let mut i: usize = 0;
        while i < 19
            invariant
                i <= 19,
                regs@ == Seq::new(i as nat, |j: int| 0u32),
            decreases 19 - i,
        {
            regs.push(0);
            proof {
                assert(regs@ =~= Seq::new((i + 1) as nat, |j: int| 0u32));
            }
            i = i + 1;
        }
        CPU { regs, memory: mem }
    }

    pub fn get_register(&self, reg: Register) -> (r: u32)
        requires
            self.wf(),
        ensures
            r == self.regs_view()[reg_index(reg)],
    {
        self.regs[reg.index()]
    }

    pub fn set_register(&mut self, reg: Register, value: u32)
        requires
            old(self).wf(),
        ensures
            final(self).wf(),
            final(self).regs_view() == old(self).regs_view().update(reg_index(reg), value),
            final(self).memory == old(self).memory,
    {
        let i = reg.index();
        self.regs[i] = value;
    }

    pub fn load_instruction(&mut self) -> (r: [u32; 2])
        requires
            old(self).wf(),
            old(self).regs_view()[16] % 4 == 0,
            old(self).regs_view()[16] / 4 + 1 < old(self).memory.data@.len(),
        ensures
            final(self).wf(),
            final(self).memory == old(self).memory,
            final(self).regs_view() == old(self).regs_view().update(
                16,
                u32_specs::wrapping_add(old(self).regs_view()[16], 8),
            ),
            r@ == seq![
                final(self).memory.data@[old(self).regs_view()[16] as int / 4],
                final(self).memory.data@[old(self).regs_view()[16] as int / 4 + 1],
            ],
    {
        let pc = self.regs[PC_INDEX];
        self.regs[PC_INDEX] = pc.wrapping_add(8);
        self.memory.read_instruction(pc)
    }

    pub fn execute_instruction(&mut self, d: DecodedInstruction)
        requires
            old(self).wf(),
            executable(d, old(self).regs_view()),
        ensures
            final(self).wf(),
            final(self).memory == old(self).memory,
            final(self).regs_view() == step(old(self).regs_view(), d),
    {
        let reg_1 = d.reg_1 as usize;
        let reg_2 = d.reg_2 as usize;
        let reg_3 = d.reg_3 as usize;
        match d.instruction_type {
            Instruction::NOp => {},
            Instruction::Invalid => {},
            Instruction::Increment => {
                self.regs[reg_1] = self.regs[reg_1].wrapping_add(1);
            },
            Instruction::Decrement => {
                self.regs[reg_1] = self.regs[reg_1].wrapping_sub(1);
            },
            Instruction::Add => {
                self.regs[reg_1] = self.regs[reg_2].wrapping_add(self.regs[reg_3]);
            },
            Instruction::Subtract => {
                self.regs[reg_1] = self.regs[reg_2].wrapping_sub(self.regs[reg_3]);
            },
            Instruction::Multiply => {
                self.regs[reg_1] = self.regs[reg_2].wrapping_mul(self.regs[reg_3]);
            },
            Instruction::Divide => {
                self.regs[reg_1] = self.regs[reg_2] / self.regs[reg_3];
            },
            Instruction::Or => {
                self.regs[reg_1] = self.regs[reg_2] | self.regs[reg_3];
            },
            Instruction::And => {
                self.regs[reg_1] = self.regs[reg_2] & self.regs[reg_3];
            },
            Instruction::XOr => {
                self.regs[reg_1] = self.regs[reg_2] ^ self.regs[reg_3];
            },
            Instruction::Negate => {
                self.regs[reg_1] = 0u32.wrapping_sub(self.regs[reg_1]);
            },
            Instruction::Complement => {
                self.regs[reg_1] = !self.regs[reg_1];
            },
            Instruction::LoadImmediate => {
                self.regs[reg_1] = d.operand;
            },
        }
    }

    pub fn run(&mut self)
        requires
            old(self).wf(),
            old(self).regs_view()[16] % 4 == 0,
            old(self).regs_view()[16] / 4 + 1 < old(self).memory.data@.len(),
            executable(
                decode_spec(
                    seq![
                        old(self).memory.data@[old(self).regs_view()[16] as int / 4],
                        old(self).memory.data@[old(self).regs_view()[16] as int / 4 + 1],
                    ],
                ),
                old(self).regs_view().update(
                    16,
                    u32_specs::wrapping_add(old(self).regs_view()[16], 8),
                ),
            ),
        ensures
            final(self).wf(),
            final(self).memory == old(self).memory,
            final(self).regs_view() == step(
                old(self).regs_view().update(
                    16,
                    u32_specs::wrapping_add(old(self).regs_view()[16], 8),
                ),
                decode_spec(
                    seq![
                        old(self).memory.data@[old(self).regs_view()[16] as int / 4],
                        old(self).memory.data@[old(self).regs_view()[16] as int / 4 + 1],
                    ],
                ),
            ),
    {
        let instruction = self.load_instruction();
        let decoded_instruction = DecodedInstruction::decode(&instruction);
        self.execute_instruction(decoded_instruction);
    }
}

} // verus!
