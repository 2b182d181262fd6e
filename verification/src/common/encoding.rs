//! The fixed eight-byte instruction encoding: byte 0 holds the opcode's
//! numeric code, bytes 1 to 3 the three register indices, and bytes 4 to 7
//! the operand as a big-endian 32-bit word.

use vstd::prelude::*;

use crate::common::instruction::{code_of, of_code, Instruction};
use crate::common::util;

verus! {

#[derive(Debug, Clone, Copy, PartialEq, Eq, Structural)]
pub struct DecodedInstruction {
    pub instruction_type: Instruction,
    pub reg_1: u8,
    pub reg_2: u8,
    pub reg_3: u8,
    pub operand: u32,
}

/// The instruction encoded by eight bytes; defined for every byte sequence,
/// an unassigned opcode byte giving the `Invalid` sentinel.
pub open spec fn decode_spec(bytes: Seq<u8>) -> DecodedInstruction
    recommends
        bytes.len() == 8,
{
    DecodedInstruction {
        instruction_type: of_code(bytes[0]),
        reg_1: bytes[1],
        reg_2: bytes[2],
        reg_3: bytes[3],
        operand: util::u32_of_bytes(bytes[4], bytes[5], bytes[6], bytes[7]),
    }
}

/// The eight bytes that encode an instruction.
pub open spec fn encode_spec(d: DecodedInstruction) -> Seq<u8> {
    seq![
        code_of(d.instruction_type),
        d.reg_1,
        d.reg_2,
        d.reg_3,
        util::bytes_of_u32(d.operand)[0],
        util::bytes_of_u32(d.operand)[1],
        util::bytes_of_u32(d.operand)[2],
        util::bytes_of_u32(d.operand)[3],
    ]
}

impl DecodedInstruction {
    pub fn new(instruction_type: Instruction, reg_1: u8, reg_2: u8, reg_3: u8, operand: u32) -> (
        r: Self)
        ensures
            r == (DecodedInstruction { instruction_type, reg_1, reg_2, reg_3, operand }),
    {
        DecodedInstruction { instruction_type, reg_1, reg_2, reg_3, operand }
    }

    pub fn invalid() -> (r: Self)
        ensures
            r == (DecodedInstruction {
                instruction_type: Instruction::Invalid,
                reg_1: 0u8,
                reg_2: 0u8,
                reg_3: 0u8,
                operand: 0u32,
            }),
    {
        DecodedInstruction::new(Instruction::Invalid, 0, 0, 0, 0)
    }

    pub fn decode(instruction: &[u8]) -> (r: Self)
        requires
            instruction@.len() == 8,
        ensures
            r == decode_spec(instruction@),
    {
        let instruction_type = Instruction::from_code(instruction[0]);
        DecodedInstruction::new(
            instruction_type,
            instruction[1],
            instruction[2],
            instruction[3],
            util::bytes_to_u32(instruction[4], instruction[5], instruction[6], instruction[7]),
        )
    }

    pub fn encode(self) -> (r: [u8; 8])
        ensures
            r@ == encode_spec(self),
    {
        let t: u8 = self.instruction_type.to_code();
        let operand_bytes = util::u32_to_bytes(self.operand);
        let r = [
            t,
            self.reg_1,
            self.reg_2,
            self.reg_3,
            operand_bytes[0],
            operand_bytes[1],
            operand_bytes[2],
            operand_bytes[3],
        ];
        proof {
            assert(r@ =~= encode_spec(self));
        }
        r
    }
}

/// Decoding an encoded instruction gives the instruction back, for every
/// representable instruction value.
pub proof fn lemma_decode_encode_roundtrip(d: DecodedInstruction)
    ensures
        decode_spec(encode_spec(d)) == d,
{
    crate::common::instruction::lemma_code_roundtrip(d.instruction_type);
    util::lemma_bytes_u32_roundtrip(
        util::bytes_of_u32(d.operand)[0],
        util::bytes_of_u32(d.operand)[1],
        util::bytes_of_u32(d.operand)[2],
        util::bytes_of_u32(d.operand)[3],
    );
    util::lemma_u32_bytes_roundtrip(d.operand);
}

/// Decoding is total: eight bytes whose opcode byte carries no assigned code
/// decode to the `Invalid` sentinel, never to an undefined value.
pub proof fn lemma_decode_total(bytes: Seq<u8>)
    requires
        bytes.len() == 8,
    ensures
        code_of(decode_spec(bytes).instruction_type) == bytes[0] || decode_spec(
            bytes,
        ).instruction_type == Instruction::Invalid,
{
    crate::common::instruction::lemma_unassigned_code_is_invalid(bytes[0]);
}

} // verus!
