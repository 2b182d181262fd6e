//! The mnemonic matcher: the dispatch table from a `(mnemonic, token count)`
//! pair to an instruction with validated operands. This table is the binary
//! contract with external producers of assembly text.

use vstd::prelude::*;

use crate::assembler::parser::{
    operand_spec, parse_operand, parse_register_name, register_index, MatchedInstruction,
    MatchedInstructionView, Op, OpView, ParsedLine, ParsedLineView,
};
use crate::assembler::tokenizer::{str_eq, TokenizedLine};
use crate::common::instruction::Instruction;

verus! {

/// An instruction that takes no operands.
pub open spec fn m_plain(i: Instruction) -> Option<MatchedInstructionView> {
    Some(
        MatchedInstructionView { instruction: i, reg1: 0, reg2: 0, reg3: 0, op: OpView::Number(0) },
    )
}

/// An instruction with one register operand.
pub open spec fn m_r(i: Instruction, r1: Option<u8>) -> Option<MatchedInstructionView> {
    match r1 {
        Some(r1) => Some(
            MatchedInstructionView { instruction: i, reg1: r1, reg2: 0, reg3: 0, op: OpView::Number(0) },
        ),
        None => None,
    }
}

/// An instruction with two register operands.
pub open spec fn m_rr(i: Instruction, r1: Option<u8>, r2: Option<u8>) -> Option<
    MatchedInstructionView,
> {
    match (r1, r2) {
        (Some(r1), Some(r2)) => Some(
            MatchedInstructionView { instruction: i, reg1: r1, reg2: r2, reg3: 0, op: OpView::Number(0) },
        ),
        _ => None,
    }
}

/// An instruction with three register operands.
pub open spec fn m_rrr(i: Instruction, r1: Option<u8>, r2: Option<u8>, r3: Option<u8>) -> Option<
    MatchedInstructionView,
> {
    match (r1, r2, r3) {
        (Some(r1), Some(r2), Some(r3)) => Some(
            MatchedInstructionView { instruction: i, reg1: r1, reg2: r2, reg3: r3, op: OpView::Number(0) },
        ),
        _ => None,
    }
}

/// An instruction with one register and a numeric-or-label operand.
pub open spec fn m_r_op(i: Instruction, r1: Option<u8>, op: OpView) -> Option<
    MatchedInstructionView,
> {
    match r1 {
        Some(r1) => Some(
            MatchedInstructionView { instruction: i, reg1: r1, reg2: 0, reg3: 0, op },
        ),
        None => None,
    }
}

/// An instruction with two registers and a numeric-or-label operand.
pub open spec fn m_rr_op(i: Instruction, r1: Option<u8>, r2: Option<u8>, op: OpView) -> Option<
    MatchedInstructionView,
> {
    match (r1, r2) {
        (Some(r1), Some(r2)) => Some(
            MatchedInstructionView { instruction: i, reg1: r1, reg2: r2, reg3: 0, op },
        ),
        _ => None,
    }
}

/// An instruction with only a numeric-or-label operand.
pub open spec fn m_op(i: Instruction, op: OpView) -> Option<MatchedInstructionView> {
    Some(MatchedInstructionView { instruction: i, reg1: 0, reg2: 0, reg3: 0, op })
}

/// The instruction a token line matches: the dispatch table from mnemonic
/// and token count to opcode and operand shapes. A line whose mnemonic or
/// arity is unknown, or whose register operands do not name registers,
/// matches nothing.
pub open spec fn match_spec(tokens: Seq<Seq<char>>) -> Option<MatchedInstructionView> {
    if tokens.len() == 0 {
        None
    } else {
        let m = tokens[0];
        if m == "nop"@ && tokens.len() == 1 {
            m_plain(Instruction::NOp)
        } else if m == "halt"@ && tokens.len() == 1 {
            m_plain(Instruction::Halt)
        } else if m == "inc"@ && tokens.len() == 2 {
            m_r(Instruction::Increment, register_index(tokens[1]))
        } else if m == "dec"@ && tokens.len() == 2 {
            m_r(Instruction::Decrement, register_index(tokens[1]))
        } else if m == "add"@ && tokens.len() == 4 {
            m_rrr(
                Instruction::Add,
                register_index(tokens[1]),
                register_index(tokens[2]),
                register_index(tokens[3]),
            )
        } else if m == "sub"@ && tokens.len() == 4 {
            m_rrr(
                Instruction::Subtract,
                register_index(tokens[1]),
                register_index(tokens[2]),
                register_index(tokens[3]),
            )
        } else if m == "mul"@ && tokens.len() == 4 {
            m_rrr(
                Instruction::Multiply,
                register_index(tokens[1]),
                register_index(tokens[2]),
                register_index(tokens[3]),
            )
        } else if m == "div"@ && tokens.len() == 4 {
            m_rrr(
                Instruction::Divide,
                register_index(tokens[1]),
                register_index(tokens[2]),
                register_index(tokens[3]),
            )
        } else if m == "cmp"@ && tokens.len() == 3 {
            m_rr(Instruction::Compare, register_index(tokens[1]), register_index(tokens[2]))
        } else if m == "cmpi"@ && tokens.len() == 3 {
            m_r_op(Instruction::CompareImmediate, register_index(tokens[1]), operand_spec(tokens[2]))
        } else if m == "addi"@ && tokens.len() == 4 {
            m_rr_op(
                Instruction::AddImmediate,
                register_index(tokens[1]),
                register_index(tokens[2]),
                operand_spec(tokens[3]),
            )
        } else if m == "subi"@ && tokens.len() == 4 {
            m_rr_op(
                Instruction::SubtractImmediate,
                register_index(tokens[1]),
                register_index(tokens[2]),
                operand_spec(tokens[3]),
            )
        } else if m == "or"@ && tokens.len() == 4 {
            m_rrr(
                Instruction::Or,
                register_index(tokens[1]),
                register_index(tokens[2]),
                register_index(tokens[3]),
            )
        } else if m == "and"@ && tokens.len() == 4 {
            m_rrr(
                Instruction::And,
                register_index(tokens[1]),
                register_index(tokens[2]),
                register_index(tokens[3]),
            )
        } else if m == "xor"@ && tokens.len() == 4 {
            m_rrr(
                Instruction::XOr,
                register_index(tokens[1]),
                register_index(tokens[2]),
                register_index(tokens[3]),
            )
        } else if m == "neg"@ && tokens.len() == 2 {
            m_r(Instruction::Negate, register_index(tokens[1]))
        } else if m == "com"@ && tokens.len() == 2 {
            m_r(Instruction::Complement, register_index(tokens[1]))
        } else if m == "ldi"@ && tokens.len() == 3 {
            m_r_op(Instruction::LoadImmediate, register_index(tokens[1]), operand_spec(tokens[2]))
        } else if m == "ld"@ && tokens.len() == 3 {
            m_rr(Instruction::Load, register_index(tokens[1]), register_index(tokens[2]))
        } else if m == "ldb"@ && tokens.len() == 3 {
            m_rr(Instruction::LoadByte, register_index(tokens[1]), register_index(tokens[2]))
        } else if m == "ldd"@ && tokens.len() == 3 {
            m_r_op(Instruction::LoadDirect, register_index(tokens[1]), operand_spec(tokens[2]))
        } else if m == "lddb"@ && tokens.len() == 3 {
            m_r_op(Instruction::LoadDirectByte, register_index(tokens[1]), operand_spec(tokens[2]))
        } else if m == "st"@ && tokens.len() == 3 {
            m_rr(Instruction::Store, register_index(tokens[1]), register_index(tokens[2]))
        } else if m == "stb"@ && tokens.len() == 3 {
            m_rr(Instruction::StoreByte, register_index(tokens[1]), register_index(tokens[2]))
        } else if m == "std"@ && tokens.len() == 3 {
            m_r_op(Instruction::StoreDirect, register_index(tokens[1]), operand_spec(tokens[2]))
        } else if m == "stdb"@ && tokens.len() == 3 {
            m_r_op(Instruction::StoreDirectByte, register_index(tokens[1]), operand_spec(tokens[2]))
        } else if m == "push"@ && tokens.len() == 2 {
            m_r(Instruction::Push, register_index(tokens[1]))
        } else if m == "pop"@ && tokens.len() == 2 {
            m_r(Instruction::Pop, register_index(tokens[1]))
        } else if m == "jmp"@ && tokens.len() == 2 {
            m_op(Instruction::Jump, operand_spec(tokens[1]))
        } else if m == "call"@ && tokens.len() == 2 {
            m_op(Instruction::Call, operand_spec(tokens[1]))
        } else if m == "ret"@ && tokens.len() == 1 {
            m_plain(Instruction::Return)
        } else if m == "breq"@ && tokens.len() == 2 {
            m_op(Instruction::BranchEqual, operand_spec(tokens[1]))
        } else if m == "brne"@ && tokens.len() == 2 {
            m_op(Instruction::BranchNotEqual, operand_spec(tokens[1]))
        } else if m == "mov"@ && tokens.len() == 3 {
            m_rr(Instruction::Move, register_index(tokens[1]), register_index(tokens[2]))
        } else if m == "invalid"@ && tokens.len() == 1 {
            m_plain(Instruction::Invalid)
        } else {
            None
        }
    }
}

pub fn match_instruction(line: &TokenizedLine) -> (r: Option<ParsedLine>)
    ensures
        match match_spec(line@.tokens) {
            Some(mi) => r is Some && r->Some_0@ == ParsedLineView::Instruction(mi),
            None => r is None,
        },
{
    if line.tokens.len() == 0 {
        return None;
    }
    proof {
        assert forall|k: int| 0 <= k < line.tokens@.len() implies line@.tokens[k] == #[trigger] line
            .tokens@[k].token@ by {}
    }
    let len = line.tokens.len();
    let ident = line.tokens[0].token.as_str();
    let dec = if str_eq(ident, "nop") && len == 1 {
        MatchedInstruction::new(Instruction::NOp, 0, 0, 0, Op::Number(0))
    } else if str_eq(ident, "halt") && len == 1 {
        MatchedInstruction::new(Instruction::Halt, 0, 0, 0, Op::Number(0))
    } else if str_eq(ident, "inc") && len == 2 {
        let r1 = match parse_register_name(line.tokens[1].token.as_str()) {
            Some(r) => r,
            None => {
                return None;
            },
        };
        MatchedInstruction::new(Instruction::Increment, r1, 0, 0, Op::Number(0))
    } else if str_eq(ident, "dec") && len == 2 {
        let r1 = match parse_register_name(line.tokens[1].token.as_str()) {
            Some(r) => r,
            None => {
                return None;
            },
        };
        MatchedInstruction::new(Instruction::Decrement, r1, 0, 0, Op::Number(0))
    } else if str_eq(ident, "add") && len == 4 {
        let r1 = match parse_register_name(line.tokens[1].token.as_str()) {
            Some(r) => r,
            None => {
                return None;
            },
        };
        let r2 = match parse_register_name(line.tokens[2].token.as_str()) {
            Some(r) => r,
            None => {
                return None;
            },
        };
        let r3 = match parse_register_name(line.tokens[3].token.as_str()) {
            Some(r) => r,
            None => {
                return None;
            },
        };
        MatchedInstruction::new(Instruction::Add, r1, r2, r3, Op::Number(0))
    } else if str_eq(ident, "sub") && len == 4 {
        let r1 = match parse_register_name(line.tokens[1].token.as_str()) {
            Some(r) => r,
            None => {
                return None;
            },
        };
        let r2 = match parse_register_name(line.tokens[2].token.as_str()) {
            Some(r) => r,
            None => {
                return None;
            },
        };
        let r3 = match parse_register_name(line.tokens[3].token.as_str()) {
            Some(r) => r,
            None => {
                return None;
            },
        };
        MatchedInstruction::new(Instruction::Subtract, r1, r2, r3, Op::Number(0))
    } else if str_eq(ident, "mul") && len == 4 {
        let r1 = match parse_register_name(line.tokens[1].token.as_str()) {
            Some(r) => r,
            None => {
                return None;
            },
        };
        let r2 = match parse_register_name(line.tokens[2].token.as_str()) {
            Some(r) => r,
            None => {
                return None;
            },
        };
        let r3 = match parse_register_name(line.tokens[3].token.as_str()) {
            Some(r) => r,
            None => {
                return None;
            },
        };
        MatchedInstruction::new(Instruction::Multiply, r1, r2, r3, Op::Number(0))
    } else if str_eq(ident, "div") && len == 4 {
        let r1 = match parse_register_name(line.tokens[1].token.as_str()) {
            Some(r) => r,
            None => {
                return None;
            },
        };
        let r2 = match parse_register_name(line.tokens[2].token.as_str()) {
            Some(r) => r,
            None => {
                return None;
            },
        };
        let r3 = match parse_register_name(line.tokens[3].token.as_str()) {
            Some(r) => r,
            None => {
                return None;
            },
        };
        MatchedInstruction::new(Instruction::Divide, r1, r2, r3, Op::Number(0))
    } else if str_eq(ident, "cmp") && len == 3 {
        let r1 = match parse_register_name(line.tokens[1].token.as_str()) {
            Some(r) => r,
            None => {
                return None;
            },
        };
        let r2 = match parse_register_name(line.tokens[2].token.as_str()) {
            Some(r) => r,
            None => {
                return None;
            },
        };
        MatchedInstruction::new(Instruction::Compare, r1, r2, 0, Op::Number(0))
    } else if str_eq(ident, "cmpi") && len == 3 {
        let r1 = match parse_register_name(line.tokens[1].token.as_str()) {
            Some(r) => r,
            None => {
                return None;
            },
        };
        let op = match parse_operand(line.tokens[2].token.as_str()) {
            Some(op) => op,
            None => {
                return None;
            },
        };
        MatchedInstruction::new(Instruction::CompareImmediate, r1, 0, 0, op)
    } else if str_eq(ident, "addi") && len == 4 {
        let r1 = match parse_register_name(line.tokens[1].token.as_str()) {
            Some(r) => r,
            None => {
                return None;
            },
        };
        let r2 = match parse_register_name(line.tokens[2].token.as_str()) {
            Some(r) => r,
            None => {
                return None;
            },
        };
        let op = match parse_operand(line.tokens[3].token.as_str()) {
            Some(op) => op,
            None => {
                return None;
            },
        };
        MatchedInstruction::new(Instruction::AddImmediate, r1, r2, 0, op)
    } else if str_eq(ident, "subi") && len == 4 {
        let r1 = match parse_register_name(line.tokens[1].token.as_str()) {
            Some(r) => r,
            None => {
                return None;
            },
        };
        let r2 = match parse_register_name(line.tokens[2].token.as_str()) {
            Some(r) => r,
            None => {
                return None;
            },
        };
        let op = match parse_operand(line.tokens[3].token.as_str()) {
            Some(op) => op,
            None => {
                return None;
            },
        };
        MatchedInstruction::new(Instruction::SubtractImmediate, r1, r2, 0, op)
    } else if str_eq(ident, "or") && len == 4 {
        let r1 = match parse_register_name(line.tokens[1].token.as_str()) {
            Some(r) => r,
            None => {
                return None;
            },
        };
        let r2 = match parse_register_name(line.tokens[2].token.as_str()) {
            Some(r) => r,
            None => {
                return None;
            },
        };
        let r3 = match parse_register_name(line.tokens[3].token.as_str()) {
            Some(r) => r,
            None => {
                return None;
            },
        };
        MatchedInstruction::new(Instruction::Or, r1, r2, r3, Op::Number(0))
    } else if str_eq(ident, "and") && len == 4 {
        let r1 = match parse_register_name(line.tokens[1].token.as_str()) {
            Some(r) => r,
            None => {
                return None;
            },
        };
        let r2 = match parse_register_name(line.tokens[2].token.as_str()) {
            Some(r) => r,
            None => {
                return None;
            },
        };
        let r3 = match parse_register_name(line.tokens[3].token.as_str()) {
            Some(r) => r,
            None => {
                return None;
            },
        };
        MatchedInstruction::new(Instruction::And, r1, r2, r3, Op::Number(0))
    } else if str_eq(ident, "xor") && len == 4 {
        let r1 = match parse_register_name(line.tokens[1].token.as_str()) {
            Some(r) => r,
            None => {
                return None;
            },
        };
        let r2 = match parse_register_name(line.tokens[2].token.as_str()) {
            Some(r) => r,
            None => {
                return None;
            },
        };
        let r3 = match parse_register_name(line.tokens[3].token.as_str()) {
            Some(r) => r,
            None => {
                return None;
            },
        };
        MatchedInstruction::new(Instruction::XOr, r1, r2, r3, Op::Number(0))
    } else if str_eq(ident, "neg") && len == 2 {
        let r1 = match parse_register_name(line.tokens[1].token.as_str()) {
            Some(r) => r,
            None => {
                return None;
            },
        };
        MatchedInstruction::new(Instruction::Negate, r1, 0, 0, Op::Number(0))
    } else if str_eq(ident, "com") && len == 2 {
        let r1 = match parse_register_name(line.tokens[1].token.as_str()) {
            Some(r) => r,
            None => {
                return None;
            },
        };
        MatchedInstruction::new(Instruction::Complement, r1, 0, 0, Op::Number(0))
    } else if str_eq(ident, "ldi") && len == 3 {
        let r1 = match parse_register_name(line.tokens[1].token.as_str()) {
            Some(r) => r,
            None => {
                return None;
            },
        };
        let op = match parse_operand(line.tokens[2].token.as_str()) {
            Some(op) => op,
            None => {
                return None;
            },
        };
        MatchedInstruction::new(Instruction::LoadImmediate, r1, 0, 0, op)
    } else if str_eq(ident, "ld") && len == 3 {
        let r1 = match parse_register_name(line.tokens[1].token.as_str()) {
            Some(r) => r,
            None => {
                return None;
            },
        };
        let r2 = match parse_register_name(line.tokens[2].token.as_str()) {
            Some(r) => r,
            None => {
                return None;
            },
        };
        MatchedInstruction::new(Instruction::Load, r1, r2, 0, Op::Number(0))
    } else if str_eq(ident, "ldb") && len == 3 {
        let r1 = match parse_register_name(line.tokens[1].token.as_str()) {
            Some(r) => r,
            None => {
                return None;
            },
        };
        let r2 = match parse_register_name(line.tokens[2].token.as_str()) {
            Some(r) => r,
            None => {
                return None;
            },
        };
        MatchedInstruction::new(Instruction::LoadByte, r1, r2, 0, Op::Number(0))
    } else if str_eq(ident, "ldd") && len == 3 {
        let r1 = match parse_register_name(line.tokens[1].token.as_str()) {
            Some(r) => r,
            None => {
                return None;
            },
        };
        let op = match parse_operand(line.tokens[2].token.as_str()) {
            Some(op) => op,
            None => {
                return None;
            },
        };
        MatchedInstruction::new(Instruction::LoadDirect, r1, 0, 0, op)
    } else if str_eq(ident, "lddb") && len == 3 {
        let r1 = match parse_register_name(line.tokens[1].token.as_str()) {
            Some(r) => r,
            None => {
                return None;
            },
        };
        let op = match parse_operand(line.tokens[2].token.as_str()) {
            Some(op) => op,
            None => {
                return None;
            },
        };
        MatchedInstruction::new(Instruction::LoadDirectByte, r1, 0, 0, op)
    } else if str_eq(ident, "st") && len == 3 {
        let r1 = match parse_register_name(line.tokens[1].token.as_str()) {
            Some(r) => r,
            None => {
                return None;
            },
        };
        let r2 = match parse_register_name(line.tokens[2].token.as_str()) {
            Some(r) => r,
            None => {
                return None;
            },
        };
        MatchedInstruction::new(Instruction::Store, r1, r2, 0, Op::Number(0))
    } else if str_eq(ident, "stb") && len == 3 {
        let r1 = match parse_register_name(line.tokens[1].token.as_str()) {
            Some(r) => r,
            None => {
                return None;
            },
        };
        let r2 = match parse_register_name(line.tokens[2].token.as_str()) {
            Some(r) => r,
            None => {
                return None;
            },
        };
        MatchedInstruction::new(Instruction::StoreByte, r1, r2, 0, Op::Number(0))
    } else if str_eq(ident, "std") && len == 3 {
        let r1 = match parse_register_name(line.tokens[1].token.as_str()) {
            Some(r) => r,
            None => {
                return None;
            },
        };
        let op = match parse_operand(line.tokens[2].token.as_str()) {
            Some(op) => op,
            None => {
                return None;
            },
        };
        MatchedInstruction::new(Instruction::StoreDirect, r1, 0, 0, op)
    } else if str_eq(ident, "stdb") && len == 3 {
        let r1 = match parse_register_name(line.tokens[1].token.as_str()) {
            Some(r) => r,
            None => {
                return None;
            },
        };
        let op = match parse_operand(line.tokens[2].token.as_str()) {
            Some(op) => op,
            None => {
                return None;
            },
        };
        MatchedInstruction::new(Instruction::StoreDirectByte, r1, 0, 0, op)
    } else if str_eq(ident, "push") && len == 2 {
        let r1 = match parse_register_name(line.tokens[1].token.as_str()) {
            Some(r) => r,
            None => {
                return None;
            },
        };
        MatchedInstruction::new(Instruction::Push, r1, 0, 0, Op::Number(0))
    } else if str_eq(ident, "pop") && len == 2 {
        let r1 = match parse_register_name(line.tokens[1].token.as_str()) {
            Some(r) => r,
            None => {
                return None;
            },
        };
        MatchedInstruction::new(Instruction::Pop, r1, 0, 0, Op::Number(0))
    } else if str_eq(ident, "jmp") && len == 2 {
        let op = match parse_operand(line.tokens[1].token.as_str()) {
            Some(op) => op,
            None => {
                return None;
            },
        };
        MatchedInstruction::new(Instruction::Jump, 0, 0, 0, op)
    } else if str_eq(ident, "call") && len == 2 {
        let op = match parse_operand(line.tokens[1].token.as_str()) {
            Some(op) => op,
            None => {
                return None;
            },
        };
        MatchedInstruction::new(Instruction::Call, 0, 0, 0, op)
    } else if str_eq(ident, "ret") && len == 1 {
        MatchedInstruction::new(Instruction::Return, 0, 0, 0, Op::Number(0))
    } else if str_eq(ident, "breq") && len == 2 {
        let op = match parse_operand(line.tokens[1].token.as_str()) {
            Some(op) => op,
            None => {
                return None;
            },
        };
        MatchedInstruction::new(Instruction::BranchEqual, 0, 0, 0, op)
    } else if str_eq(ident, "brne") && len == 2 {
        let op = match parse_operand(line.tokens[1].token.as_str()) {
            Some(op) => op,
            None => {
                return None;
            },
        };
        MatchedInstruction::new(Instruction::BranchNotEqual, 0, 0, 0, op)
    } else if str_eq(ident, "mov") && len == 3 {
        let r1 = match parse_register_name(line.tokens[1].token.as_str()) {
            Some(r) => r,
            None => {
                return None;
            },
        };
        let r2 = match parse_register_name(line.tokens[2].token.as_str()) {
            Some(r) => r,
            None => {
                return None;
            },
        };
        MatchedInstruction::new(Instruction::Move, r1, r2, 0, Op::Number(0))
    } else if str_eq(ident, "invalid") && len == 1 {
        MatchedInstruction::new(Instruction::Invalid, 0, 0, 0, Op::Number(0))
    } else {
        return None;
    };
    Some(ParsedLine::Instruction(dec))
}

} // verus!
