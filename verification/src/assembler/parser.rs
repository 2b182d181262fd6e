//! The parser: register names, numeric literals (decimal or `0x` hex),
//! operands that fall back to label references, label declarations, and the
//! line-by-line parse that feeds the assembler.

use vstd::prelude::*;

use vstd::string::StrSliceExecFns;
use vstd::string::StringExecFns;

use crate::assembler::matcher;
use crate::assembler::tokenizer::{str_eq, TokenizedLine, TokenizedLineView};
use crate::common::instruction::Instruction;

verus! {

#[derive(Debug)]
pub enum Op {
    Number(u32),
    Label(String),
}

#[derive(Debug)]
pub struct MatchedInstruction {
    pub instruction: Instruction,
    pub reg1: u8,
    pub reg2: u8,
    pub reg3: u8,
    pub op: Op,
}

#[derive(Debug)]
pub enum ParsedLine {
    Instruction(MatchedInstruction),
    Label(String),
}

/// An operand as the contracts see it: a resolved number or an unresolved
/// label name.
#[verifier::ext_equal]
pub ghost enum OpView {
    Number(u32),
    Label(Seq<char>),
}

impl View for Op {
    type V = OpView;

    open spec fn view(&self) -> OpView {
        match self {
            Op::Number(n) => OpView::Number(*n),
            Op::Label(s) => OpView::Label(s@),
        }
    }
}

#[verifier::ext_equal]
pub ghost struct MatchedInstructionView {
    pub instruction: Instruction,
    pub reg1: u8,
    pub reg2: u8,
    pub reg3: u8,
    pub op: OpView,
}

impl View for MatchedInstruction {
    type V = MatchedInstructionView;

    open spec fn view(&self) -> MatchedInstructionView {
        MatchedInstructionView {
            instruction: self.instruction,
            reg1: self.reg1,
            reg2: self.reg2,
            reg3: self.reg3,
            op: self.op@,
        }
    }
}

#[verifier::ext_equal]
pub ghost enum ParsedLineView {
    Instruction(MatchedInstructionView),
    Label(Seq<char>),
}

impl View for ParsedLine {
    type V = ParsedLineView;

    open spec fn view(&self) -> ParsedLineView {
        match self {
            ParsedLine::Instruction(mi) => ParsedLineView::Instruction(mi@),
            ParsedLine::Label(s) => ParsedLineView::Label(s@),
        }
    }
}

impl MatchedInstruction {
    pub fn new(instruction: Instruction, reg1: u8, reg2: u8, reg3: u8, op: Op) -> (r: Self)
        ensures
            r@ == (MatchedInstructionView { instruction, reg1, reg2, reg3, op: op@ }),
    {
        MatchedInstruction { instruction, reg1, reg2, reg3, op }
    }
}

/// The register file index a register token names: `r0` to `r15`, `pc`,
/// `sp` or `sr`, exactly and case-sensitively; anything else is no register.
pub open spec fn register_index(name: Seq<char>) -> Option<u8> {
    if name == "r0"@ {
        Some(0u8)
    } else if name == "r1"@ {
        Some(1u8)
    } else if name == "r2"@ {
        Some(2u8)
    } else if name == "r3"@ {
        Some(3u8)
    } else if name == "r4"@ {
        Some(4u8)
    } else if name == "r5"@ {
        Some(5u8)
    } else if name == "r6"@ {
        Some(6u8)
    } else if name == "r7"@ {
        Some(7u8)
    } else if name == "r8"@ {
        Some(8u8)
    } else if name == "r9"@ {
        Some(9u8)
    } else if name == "r10"@ {
        Some(10u8)
    } else if name == "r11"@ {
        Some(11u8)
    } else if name == "r12"@ {
        Some(12u8)
    } else if name == "r13"@ {
        Some(13u8)
    } else if name == "r14"@ {
        Some(14u8)
    } else if name == "r15"@ {
        Some(15u8)
    } else if name == "pc"@ {
        Some(16u8)
    } else if name == "sp"@ {
        Some(17u8)
    } else if name == "sr"@ {
        Some(18u8)
    } else {
        None
    }
}

pub fn parse_register_name(name: &str) -> (r: Option<u8>)
    ensures
        r == register_index(name@),
{
    if str_eq(name, "r0") {
        Some(0)
    } else if str_eq(name, "r1") {
        Some(1)
    } else if str_eq(name, "r2") {
        Some(2)
    } else if str_eq(name, "r3") {
        Some(3)
    } else if str_eq(name, "r4") {
        Some(4)
    } else if str_eq(name, "r5") {
        Some(5)
    } else if str_eq(name, "r6") {
        Some(6)
    } else if str_eq(name, "r7") {
        Some(7)
    } else if str_eq(name, "r8") {
        Some(8)
    } else if str_eq(name, "r9") {
        Some(9)
    } else if str_eq(name, "r10") {
        Some(10)
    } else if str_eq(name, "r11") {
        Some(11)
    } else if str_eq(name, "r12") {
        Some(12)
    } else if str_eq(name, "r13") {
        Some(13)
    } else if str_eq(name, "r14") {
        Some(14)
    } else if str_eq(name, "r15") {
        Some(15)
    } else if str_eq(name, "pc") {
        Some(16)
    } else if str_eq(name, "sp") {
        Some(17)
    } else if str_eq(name, "sr") {
        Some(18)
    } else {
        None
    }
}

/// Whether a character is a decimal digit.
pub open spec fn is_dec_digit(c: char) -> bool {
    '0' <= c && c <= '9'
}

/// Whether a character is a hexadecimal digit, either case.
pub open spec fn is_hex_digit(c: char) -> bool {
    is_dec_digit(c) || ('a' <= c && c <= 'f') || ('A' <= c && c <= 'F')
}

/// A hexadecimal digit's value.
pub open spec fn hex_digit_val(c: char) -> int {
    if is_dec_digit(c) {
        c as int - '0' as int
    } else if 'a' <= c && c <= 'f' {
        c as int - 'a' as int + 10
    } else {
        c as int - 'A' as int + 10
    }
}

/// The number the digit string denotes in decimal, most significant first.
pub open spec fn dec_val(s: Seq<char>) -> int
    decreases s.len(),
{
    if s.len() == 0 {
        0
    } else {
        dec_val(s.drop_last()) * 10 + (s.last() as int - '0' as int)
    }
}

/// The number the digit string denotes in hexadecimal, most significant
/// first.
pub open spec fn hex_val(s: Seq<char>) -> int
    decreases s.len(),
{
    if s.len() == 0 {
        0
    } else {
        hex_val(s.drop_last()) * 16 + hex_digit_val(s.last())
    }
}

pub open spec fn all_dec_digits(s: Seq<char>) -> bool {
    forall|i: int| 0 <= i < s.len() ==> is_dec_digit(#[trigger] s[i])
}

pub open spec fn all_hex_digits(s: Seq<char>) -> bool {
    forall|i: int| 0 <= i < s.len() ==> is_hex_digit(#[trigger] s[i])
}

/// The value of a nonempty all-decimal-digit string, if it fits in 32 bits.
pub open spec fn dec_value(s: Seq<char>) -> Option<u32> {
    if s.len() > 0 && all_dec_digits(s) && dec_val(s) <= u32::MAX {
        Some(dec_val(s) as u32)
    } else {
        None
    }
}

/// The value of a nonempty all-hex-digit string, if it fits in 32 bits.
pub open spec fn hex_value(s: Seq<char>) -> Option<u32> {
    if s.len() > 0 && all_hex_digits(s) && hex_val(s) <= u32::MAX {
        Some(hex_val(s) as u32)
    } else {
        None
    }
}

/// The number a literal token denotes: `0x`-prefixed hexadecimal, or plain
/// decimal; a token that is neither is no number.
pub open spec fn numeric_value(s: Seq<char>) -> Option<u32> {
    if s.len() >= 2 && s[0] == '0' && s[1] == 'x' {
        hex_value(s.skip(2))
    } else {
        dec_value(s)
    }
}

/// A string of digits never denotes a negative number.
proof fn lemma_dec_val_nonneg(s: Seq<char>)
    requires
        all_dec_digits(s),
    ensures
        dec_val(s) >= 0,
    decreases s.len(),
{
    if s.len() > 0 {
        assert(all_dec_digits(s.drop_last()));
        lemma_dec_val_nonneg(s.drop_last());
    }
}

proof fn lemma_hex_val_nonneg(s: Seq<char>)
    requires
        all_hex_digits(s),
    ensures
        hex_val(s) >= 0,
    decreases s.len(),
{
    if s.len() > 0 {
        assert(all_hex_digits(s.drop_last()));
        lemma_hex_val_nonneg(s.drop_last());
    }
}

/// A digit string's value never shrinks as more digits are appended.
proof fn lemma_dec_val_monotone(s: Seq<char>, i: int)
    requires
        0 <= i <= s.len(),
        all_dec_digits(s),
    ensures
        0 <= dec_val(s.subrange(0, i)) <= dec_val(s),
    decreases s.len() - i,
{
    assert(all_dec_digits(s.subrange(0, i)));
    lemma_dec_val_nonneg(s.subrange(0, i));
    if i == s.len() {
        assert(s.subrange(0, i) =~= s);
    } else {
        lemma_dec_val_monotone(s, i + 1);
        let t = s.subrange(0, i + 1);
        assert(t.drop_last() =~= s.subrange(0, i));
        assert(dec_val(s.subrange(0, i)) <= dec_val(t));
    }
}

proof fn lemma_hex_val_monotone(s: Seq<char>, i: int)
    requires
        0 <= i <= s.len(),
        all_hex_digits(s),
    ensures
        0 <= hex_val(s.subrange(0, i)) <= hex_val(s),
    decreases s.len() - i,
{
    assert(all_hex_digits(s.subrange(0, i)));
    lemma_hex_val_nonneg(s.subrange(0, i));
    if i == s.len() {
        assert(s.subrange(0, i) =~= s);
    } else {
        lemma_hex_val_monotone(s, i + 1);
        let t = s.subrange(0, i + 1);
        assert(t.drop_last() =~= s.subrange(0, i));
        assert(hex_val(s.subrange(0, i)) <= hex_val(t));
    }
}

fn dec_digit_of(c: char) -> (r: Option<u32>)
    ensures
        r is Some <==> is_dec_digit(c),
        r is Some ==> r->Some_0 == c as int - '0' as int && r->Some_0 <= 9,
{
    if c >= '0' && c <= '9' {
        Some(c as u32 - 48)
    } else {
        None
    }
}

fn hex_digit_of(c: char) -> (r: Option<u32>)
    ensures
        r is Some <==> is_hex_digit(c),
        r is Some ==> r->Some_0 == hex_digit_val(c) && r->Some_0 <= 15,
{
    if c >= '0' && c <= '9' {
        Some(c as u32 - 48)
    } else if c >= 'a' && c <= 'f' {
        Some(c as u32 - 97 + 10)
    } else if c >= 'A' && c <= 'F' {
        Some(c as u32 - 65 + 10)
    } else {
        None
    }
}

/// Parses the decimal digits of `literal` from position `from` on.
#[verifier::loop_isolation(false)]
fn parse_dec_from(literal: &str, from: usize) -> (r: Option<u32>)
    requires
        from <= literal@.len(),
    ensures
        r == dec_value(literal@.skip(from as int)),
{
    let ghost s = literal@.skip(from as int);
    let n = literal.unicode_len();
    if from == n {
        return None;
    }
    let mut acc: u32 = 0;
    let mut i: usize = from;
    while i < n
        invariant
            from < n == literal@.len(),
            from <= i <= n,
            s == literal@.skip(from as int),
            all_dec_digits(s.subrange(0, i - from)),
            acc == dec_val(s.subrange(0, i - from)),
        decreases n - i,
    {
        let c = literal.get_char(i);
        proof {
            assert(s[i - from] == literal@[i as int]);
        }
        let d = match dec_digit_of(c) {
            Some(d) => d,
            None => {
                proof {
                    assert(!is_dec_digit(s[i - from]));
                }
                return None;
            },
        };
        if acc > (u32::MAX - d) / 10 {
            proof {
                let t = s.subrange(0, i - from + 1);
                assert(t.drop_last() =~= s.subrange(0, i - from));
                assert(t.last() == s[i - from]);
                assert(all_dec_digits(t));
                assert(dec_val(t) == acc * 10 + d);
                assert(dec_val(t) > u32::MAX);
                if all_dec_digits(s) {
                    lemma_dec_val_monotone(s, i - from + 1);
                }
            }
            return None;
        }
        let ghost prev = acc;
        acc = acc * 10 + d;
        proof {
            let t = s.subrange(0, i - from + 1);
            assert(t.drop_last() =~= s.subrange(0, i - from));
            assert(t.last() == s[i - from]);
            assert(dec_val(t) == prev * 10 + d);
            assert(all_dec_digits(t));
        }
        i = i + 1;
    }
    proof {
        assert(s.subrange(0, n - from) =~= s);
    }
    Some(acc)
}

/// Parses the hexadecimal digits of `literal` from position `from` on.
#[verifier::loop_isolation(false)]
fn parse_hex_from(literal: &str, from: usize) -> (r: Option<u32>)
    requires
        from <= literal@.len(),
    ensures
        r == hex_value(literal@.skip(from as int)),
{
    let ghost s = literal@.skip(from as int);
    let n = literal.unicode_len();
    if from == n {
        return None;
    }
    let mut acc: u32 = 0;
    let mut i: usize = from;
    while i < n
        invariant
            from < n == literal@.len(),
            from <= i <= n,
            s == literal@.skip(from as int),
            all_hex_digits(s.subrange(0, i - from)),
            acc == hex_val(s.subrange(0, i - from)),
        decreases n - i,
    {
        let c = literal.get_char(i);
        proof {
            assert(s[i - from] == literal@[i as int]);
        }
        let d = match hex_digit_of(c) {
            Some(d) => d,
            None => {
                proof {
                    assert(!is_hex_digit(s[i - from]));
                }
                return None;
            },
        };
        if acc > (u32::MAX - d) / 16 {
            proof {
                let t = s.subrange(0, i - from + 1);
                assert(t.drop_last() =~= s.subrange(0, i - from));
                assert(t.last() == s[i - from]);
                assert(all_hex_digits(t));
                assert(hex_val(t) == acc * 16 + d);
                assert(hex_val(t) > u32::MAX);
                if all_hex_digits(s) {
                    lemma_hex_val_monotone(s, i - from + 1);
                }
            }
            return None;
        }
        let ghost prev = acc;
        acc = acc * 16 + d;
        proof {
            let t = s.subrange(0, i - from + 1);
            assert(t.drop_last() =~= s.subrange(0, i - from));
            assert(t.last() == s[i - from]);
            assert(hex_val(t) == prev * 16 + d);
            assert(all_hex_digits(t));
        }
        i = i + 1;
    }
    proof {
        assert(s.subrange(0, n - from) =~= s);
    }
    Some(acc)
}

pub fn parse_numeric_literal(literal: &str) -> (r: Option<u32>)
    ensures
        r == numeric_value(literal@),
{
    let n = literal.unicode_len();
    if n >= 2 && literal.get_char(0) == '0' && literal.get_char(1) == 'x' {
        parse_hex_from(literal, 2)
    } else {
        proof {
            assert(literal@.skip(0) =~= literal@);
        }
        parse_dec_from(literal, 0)
    }
}

/// The operand a token denotes: a numeric literal's value, or otherwise a
/// label reference; every token denotes an operand.
pub open spec fn operand_spec(s: Seq<char>) -> OpView {
    match numeric_value(s) {
        Some(n) => OpView::Number(n),
        None => OpView::Label(s),
    }
}

pub fn parse_operand(s: &str) -> (r: Option<Op>)
    ensures
        r is Some,
        r->Some_0@ == operand_spec(s@),
{
    if let Some(number) = parse_numeric_literal(s) {
        Some(Op::Number(number))
    } else {
        Some(Op::Label(String::from_str(s)))
    }
}

/// The token with every colon removed.
pub open spec fn remove_colons(s: Seq<char>) -> Seq<char>
    decreases s.len(),
{
    if s.len() == 0 {
        Seq::empty()
    } else if s.last() == ':' {
        remove_colons(s.drop_last())
    } else {
        remove_colons(s.drop_last()).push(s.last())
    }
}

/// The label a line declares: its single token must end in a colon; the
/// label's name is the token with the colons removed.
pub open spec fn label_spec(tl: TokenizedLineView) -> Option<Seq<char>> {
    if tl.tokens.len() == 1 && tl.tokens[0].len() > 0 && tl.tokens[0].last() == ':' {
        Some(remove_colons(tl.tokens[0]))
    } else {
        None
    }
}

#[verifier::loop_isolation(false)]
pub fn parse_label(token: &TokenizedLine) -> (r: Option<ParsedLine>)
    ensures
        match label_spec(token@) {
            Some(l) => r is Some && r->Some_0@ == ParsedLineView::Label(l),
            None => r is None,
        },
{
    if token.tokens.len() != 1 {
        return None;
    }
    let t = token.tokens[0].token.as_str();
    let n = t.unicode_len();
    proof {
        assert(token@.tokens[0] == t@);
    }
    if n == 0 || t.get_char(n - 1) != ':' {
        return None;
    }
    let mut label = String::new();
    let mut i: usize = 0;
    while i < n
        invariant
            n == t@.len(),
            0 <= i <= n,
            label@ == remove_colons(t@.subrange(0, i as int)),
        decreases n - i,
    {
        let c = t.get_char(i);
        proof {
            let p = t@.subrange(0, i + 1);
            assert(p.drop_last() =~= t@.subrange(0, i as int));
            assert(p.last() == t@[i as int]);
        }
        if c != ':' {
            label.append(t.substring_char(i, i + 1));
            proof {
                assert(t@.subrange(i as int, i + 1) =~= seq![t@[i as int]]);
                assert(label@ =~= remove_colons(t@.subrange(0, i as int)).push(t@[i as int]));
            }
        }
        i = i + 1;
    }
    proof {
        assert(t@.subrange(0, n as int) =~= t@);
    }
    Some(ParsedLine::Label(label))
}

/// The parsed form of the tokenized lines from index `i` on: each line is a
/// label declaration or a matched instruction; a line that is neither fails
/// the whole parse.
pub open spec fn parse_lines(tls: Seq<TokenizedLineView>, i: int) -> Option<Seq<ParsedLineView>>
    decreases tls.len() - i
        when 0 <= i <= tls.len()
{
    if i == tls.len() {
        Some(seq![])
    } else {
        let first = match label_spec(tls[i]) {
            Some(l) => Some(ParsedLineView::Label(l)),
            None => match matcher::match_spec(tls[i].tokens) {
                Some(mi) => Some(ParsedLineView::Instruction(mi)),
                None => None,
            },
        };
        match first {
            None => None,
            Some(pl) => match parse_lines(tls, i + 1) {
                None => None,
                Some(rest) => Some(seq![pl] + rest),
            },
        }
    }
}

/// The parsed program: every tokenized line as a label or an instruction,
/// or nothing at all if any line matches neither.
pub open spec fn parse_spec(tls: Seq<TokenizedLineView>) -> Option<Seq<ParsedLineView>> {
    parse_lines(tls, 0)
}

#[verifier::loop_isolation(false)]
pub fn parse(tokens: Vec<TokenizedLine>) -> (r: Option<Vec<ParsedLine>>)
    ensures
        match r {
            Some(v) => parse_spec(tokens@.map_values(|tl: TokenizedLine| tl@)) == Some(
                v@.map_values(|pl: ParsedLine| pl@),
            ),
            None => parse_spec(tokens@.map_values(|tl: TokenizedLine| tl@)) is None,
        },
{
    let ghost tls = tokens@.map_values(|tl: TokenizedLine| tl@);
    let mut parsed_instructions: Vec<ParsedLine> = Vec::new();
    let mut i: usize = 0;
    while i < tokens.len()
        invariant
            0 <= i <= tokens@.len(),
            tls == tokens@.map_values(|tl: TokenizedLine| tl@),
            parse_lines(tls, 0) == (match parse_lines(tls, i as int) {
                Some(rest) => Some(
                    parsed_instructions@.map_values(|pl: ParsedLine| pl@) + rest,
                ),
                None => None::<Seq<ParsedLineView>>,
            }),
        decreases tokens@.len() - i,
    {
        let ghost pre = parsed_instructions@;
        proof {
            assert(tls[i as int] == tokens@[i as int]@);
        }
        let token = &tokens[i];
        let parsed = if let Some(instr) = parse_label(token) {
            instr
        } else {
            match matcher::match_instruction(token) {
                Some(instr) => instr,
                None => {
                    return None;
                },
            }
        };
        parsed_instructions.push(parsed);
        proof {
            let pl = parsed_instructions@[pre.len() as int]@;
            let rest = parse_lines(tls, i + 1);
            assert(parsed_instructions@.map_values(|p: ParsedLine| p@) =~= pre.map_values(
                |p: ParsedLine| p@,
            ) + seq![pl]);
            if rest is Some {
                assert(pre.map_values(|p: ParsedLine| p@) + (seq![pl] + rest->Some_0) =~= (
                pre.map_values(|p: ParsedLine| p@) + seq![pl]) + rest->Some_0);
            }
        }
        i = i + 1;
    }
    proof {
        assert(parse_lines(tls, tokens@.len() as int) == Some(Seq::<ParsedLineView>::empty()));
        assert(parsed_instructions@.map_values(|p: ParsedLine| p@) + Seq::<
            ParsedLineView,
        >::empty() =~= parsed_instructions@.map_values(|p: ParsedLine| p@));
    }
    Some(parsed_instructions)
}

} // verus!
