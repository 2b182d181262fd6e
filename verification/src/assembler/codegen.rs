//! The two-pass assembler. Pass one walks the parsed lines, advancing an
//! address counter by the instruction width and binding each label to the
//! counter; a duplicate label aborts assembly. The reserved names for the
//! program's own footprint are then injected. Pass two resolves every
//! operand against the completed table — so forward references work — and
//! emits the encoded instructions in source order. Either pass failing
//! yields nothing at all: no bytes are ever emitted on an error path.

use vstd::prelude::*;

use vstd::slice::slice_to_vec;
use vstd::string::StringExecFns;
use vstd::wrapping::u32_specs;

use crate::assembler::parser::{parse, parse_spec, Op, OpView, ParsedLine, ParsedLineView};
use crate::assembler::tokenizer::{str_eq, tokenize, tokenize_spec, TokenizedLine};
use crate::common::encoding::{encode_spec, DecodedInstruction};
use crate::emulator::constants::{CONSOLEIO_START, MEMORY_END, MEMORY_START};

verus! {

/// The next 4-byte boundary at or above the address.
pub open spec fn align_up_spec(addr: u32) -> u32 {
    if addr % 4 == 0 {
        addr
    } else {
        (addr + (4 - addr % 4)) as u32
    }
}

/// The nearest 4-byte boundary at or below the address.
pub open spec fn align_down_spec(addr: u32) -> u32 {
    (addr - addr % 4) as u32
}

pub fn align_up(addr: u32) -> (r: u32)
    requires
        addr % 4 == 0 || addr <= u32::MAX - 3,
    ensures
        r == align_up_spec(addr),
        r % 4 == 0,
        addr <= r < addr + 4,
{
    let remainder = addr % 4;
    if remainder != 0 {
        addr + (4 - remainder)
    } else {
        addr
    }
}

pub fn align_down(addr: u32) -> (r: u32)
    ensures
        r == align_down_spec(addr),
        r % 4 == 0,
        r <= addr < r + 4,
{
    addr - addr % 4
}

/// One binding of the label table.
pub struct LabelEntry {
    pub name: String,
    pub address: u32,
}

/// The mapping a list of bindings makes, later bindings overriding earlier
/// ones of the same name.
pub open spec fn table_view(entries: Seq<LabelEntry>) -> Map<Seq<char>, u32>
    decreases entries.len(),
{
    if entries.len() == 0 {
        Map::empty()
    } else {
        table_view(entries.drop_last()).insert(entries.last().name@, entries.last().address)
    }
}

proof fn lemma_table_unscanned(entries: Seq<LabelEntry>, k: Seq<char>, i: int)
    requires
        0 <= i <= entries.len(),
        forall|j: int| i <= j < entries.len() ==> (#[trigger] entries[j].name@) != k,
    ensures
        table_view(entries).contains_key(k) == table_view(entries.subrange(0, i)).contains_key(k),
        table_view(entries).contains_key(k) ==> table_view(entries)[k] == table_view(
            entries.subrange(0, i),
        )[k],
    decreases entries.len() - i,
{
    if i == entries.len() {
        assert(entries.subrange(0, i) =~= entries);
    } else {
        let shorter = entries.drop_last();
        assert(shorter.subrange(0, i) =~= entries.subrange(0, i));
        lemma_table_unscanned(shorter, k, i);
    }
}

/// Looks a name up in the table; the latest binding of the name wins.
#[verifier::loop_isolation(false)]
fn table_lookup(entries: &Vec<LabelEntry>, name: &str) -> (r: Option<u32>)
    ensures
        r == if table_view(entries@).contains_key(name@) {
            Some(table_view(entries@)[name@])
        } else {
            None::<u32>
        },
{
    let mut i: usize = entries.len();
    while i > 0
        invariant
            0 <= i <= entries@.len(),
            forall|j: int| i <= j < entries@.len() ==> (#[trigger] entries@[j].name@) != name@,
        decreases i,
    {
        i = i - 1;
        if str_eq(entries[i].name.as_str(), name) {
            proof {
                lemma_table_unscanned(entries@, name@, i + 1);
                let prefix = entries@.subrange(0, i + 1);
                assert(prefix.drop_last() =~= entries@.subrange(0, i as int));
                assert(prefix.last() == entries@[i as int]);
            }
            return Some(entries[i].address);
        }
    }
    proof {
        lemma_table_unscanned(entries@, name@, 0);
        assert(entries@.subrange(0, 0) =~= Seq::<LabelEntry>::empty());
    }
    None
}

/// Pass one from line `i` on: the completed label table and the final
/// address counter, or nothing if a label is declared twice.
pub open spec fn build_table(
    lines: Seq<ParsedLineView>,
    i: int,
    counter: u32,
    table: Map<Seq<char>, u32>,
) -> Option<(Map<Seq<char>, u32>, u32)>
    decreases lines.len() - i
        when 0 <= i <= lines.len()
{
    if i == lines.len() {
        Some((table, counter))
    } else {
        match lines[i] {
            ParsedLineView::Instruction(_) => build_table(
                lines,
                i + 1,
                u32_specs::wrapping_add(counter, 8),
                table,
            ),
            ParsedLineView::Label(name) => if table.contains_key(name) {
                None
            } else {
                build_table(lines, i + 1, counter, table.insert(name, counter))
            },
        }
    }
}

/// The reserved bindings every program can address itself with: where the
/// program starts and ends, the last usable aligned main-memory address, and
/// the console window's base.
pub open spec fn with_reserved(table: Map<Seq<char>, u32>, end: u32) -> Map<Seq<char>, u32> {
    table.insert("PROGRAM_START"@, MEMORY_START).insert("PROGRAM_END"@, end).insert(
        "MEMORY_END"@,
        align_down_spec(MEMORY_END),
    ).insert("CONSOLEIO_START"@, CONSOLEIO_START)
}

/// Whether a name is one of the reserved, implicitly defined labels.
pub open spec fn is_reserved_name(name: Seq<char>) -> bool {
    name == "PROGRAM_START"@ || name == "PROGRAM_END"@ || name == "MEMORY_END"@ || name
        == "CONSOLEIO_START"@
}

/// Pass two from line `i` on: the encoded bytes of every instruction line in
/// source order, operands resolved against the completed table, or nothing
/// if a referenced label is missing from it.
pub open spec fn emit(
    lines: Seq<ParsedLineView>,
    i: int,
    table: Map<Seq<char>, u32>,
) -> Option<Seq<u8>>
    decreases lines.len() - i
        when 0 <= i <= lines.len()
{
    if i == lines.len() {
        Some(Seq::empty())
    } else {
        match lines[i] {
            ParsedLineView::Label(_) => emit(lines, i + 1, table),
            ParsedLineView::Instruction(mi) => {
                let operand = match mi.op {
                    OpView::Number(n) => Some(n),
                    OpView::Label(name) => if table.contains_key(name) {
                        Some(table[name])
                    } else {
                        None
                    },
                };
                match operand {
                    None => None,
                    Some(a) => match emit(lines, i + 1, table) {
                        None => None,
                        Some(rest) => Some(
                            encode_spec(
                                DecodedInstruction {
                                    instruction_type: mi.instruction,
                                    reg_1: mi.reg1,
                                    reg_2: mi.reg2,
                                    reg_3: mi.reg3,
                                    operand: a,
                                },
                            ) + rest,
                        ),
                    },
                }
            },
        }
    }
}

/// Both passes over a parsed program.
pub open spec fn assemble_lines_spec(lines: Seq<ParsedLineView>) -> Option<Seq<u8>> {
    match build_table(lines, 0, MEMORY_START, Map::empty()) {
        None => None,
        Some((table, end)) => emit(lines, 0, with_reserved(table, end)),
    }
}

/// The whole pipeline: tokenize, parse, then assemble in two passes. A
/// function of the source text alone, so assembling the same text twice
/// gives byte-identical output.
pub open spec fn assemble_spec(text: Seq<char>) -> Option<Seq<u8>> {
    match parse_spec(tokenize_spec(text)) {
        None => None,
        Some(lines) => assemble_lines_spec(lines),
    }
}

/// Assembles source text to the flat byte stream of encoded instructions.
/// Fails, emitting nothing, exactly when a line does not parse, a label is
/// declared twice, or a referenced label is never declared (the reserved
/// names counting as declared).
#[verifier::loop_isolation(false)]
pub fn assemble(source: &str) -> (r: Option<Vec<u8>>)
    ensures
        match r {
            Some(v) => assemble_spec(source@) == Some(v@),
            None => assemble_spec(source@) is None,
        },
{
    let tokens = tokenize(source);
    let ghost tls = tokens@.map_values(|tl: TokenizedLine| tl@);
    let parsed = match parse(tokens) {
        Some(p) => p,
        None => {
            return None;
        },
    };
    let ghost lines = parsed@.map_values(|pl: ParsedLine| pl@);

    let mut lookup: Vec<LabelEntry> = Vec::new();
    let mut counter: u32 = MEMORY_START;
    let mut i: usize = 0;
    while i < parsed.len()
        invariant
            0 <= i <= parsed@.len(),
            lines == parsed@.map_values(|pl: ParsedLine| pl@),
            build_table(lines, 0, MEMORY_START, Map::empty()) == build_table(
                lines,
                i as int,
                counter,
                table_view(lookup@),
            ),
        decreases parsed@.len() - i,
    {
        proof {
            assert(lines[i as int] == parsed@[i as int]@);
        }
        let ghost pre = lookup@;
        match &parsed[i] {
            ParsedLine::Instruction(_dec) => {
                counter = counter.wrapping_add(8);
            },
            ParsedLine::Label(name) => {
                if table_lookup(&lookup, name.as_str()).is_some() {
                    return None;
                }
                lookup.push(LabelEntry { name: name.clone(), address: counter });
                proof {
                    assert(lookup@.drop_last() =~= pre);
                    assert(table_view(lookup@) == table_view(pre).insert(name@, counter));
                }
            },
        }
        i = i + 1;
    }
    let ghost pass1 = build_table(lines, 0, MEMORY_START, Map::empty());
    proof {
        assert(pass1 == Some((table_view(lookup@), counter)));
    }

    let ghost user_table = table_view(lookup@);
    let mut entry = LabelEntry { name: String::from_str("PROGRAM_START"), address: MEMORY_START };
    let ghost t0 = lookup@;
    lookup.push(entry);
    proof {
        assert(lookup@.drop_last() =~= t0);
        assert(table_view(lookup@) == user_table.insert("PROGRAM_START"@, MEMORY_START));
    }
    entry = LabelEntry { name: String::from_str("PROGRAM_END"), address: counter };
    let ghost t1 = lookup@;
    lookup.push(entry);
    proof {
        assert(lookup@.drop_last() =~= t1);
        assert(table_view(lookup@) == user_table.insert("PROGRAM_START"@, MEMORY_START).insert(
            "PROGRAM_END"@,
            counter,
        ));
    }
    entry = LabelEntry { name: String::from_str("MEMORY_END"), address: align_down(MEMORY_END) };
    let ghost t2 = lookup@;
    lookup.push(entry);
    proof {
        assert(lookup@.drop_last() =~= t2);
        assert(table_view(lookup@) == user_table.insert("PROGRAM_START"@, MEMORY_START).insert(
            "PROGRAM_END"@,
            counter,
        ).insert("MEMORY_END"@, align_down_spec(MEMORY_END)));
    }
    entry = LabelEntry { name: String::from_str("CONSOLEIO_START"), address: CONSOLEIO_START };
    let ghost t3 = lookup@;
    lookup.push(entry);
    proof {
        assert(lookup@.drop_last() =~= t3);
        assert(table_view(lookup@) == with_reserved(user_table, counter));
    }
    let ghost rtable = table_view(lookup@);

    let mut bytes: Vec<u8> = Vec::new();
    let mut j: usize = 0;
    while j < parsed.len()
        invariant
            0 <= j <= parsed@.len(),
            lines == parsed@.map_values(|pl: ParsedLine| pl@),
            rtable == table_view(lookup@),
            emit(lines, 0, rtable) == (match emit(lines, j as int, rtable) {
                Some(rest) => Some(bytes@ + rest),
                None => None::<Seq<u8>>,
            }),
        decreases parsed@.len() - j,
    {
        proof {
            assert(lines[j as int] == parsed@[j as int]@);
        }
        let ghost prefix = bytes@;
        match &parsed[j] {
            ParsedLine::Instruction(dec) => {
                let a: u32 = match &dec.op {
                    Op::Label(name) => {
                        match table_lookup(&lookup, name.as_str()) {
                            Some(a) => a,
                            None => {
                                return None;
                            },
                        }
                    },
                    Op::Number(number) => *number,
                };
                let instr = DecodedInstruction::new(dec.instruction, dec.reg1, dec.reg2, dec.reg3, a);
                let encoded = instr.encode();
                let mut encoded_vec = slice_to_vec(encoded.as_slice());
                bytes.append(&mut encoded_vec);
                proof {
                    let rest = emit(lines, j + 1, rtable);
                    if rest is Some {
                        assert(prefix + (encode_spec(instr) + rest->Some_0) =~= (prefix
                            + encode_spec(instr)) + rest->Some_0);
                        assert(bytes@ =~= prefix + encode_spec(instr));
                    }
                }
            },
            ParsedLine::Label(_name) => {},
        }
        j = j + 1;
    }
    proof {
        assert(emit(lines, parsed@.len() as int, rtable) == Some(Seq::<u8>::empty()));
        assert(bytes@ + Seq::<u8>::empty() =~= bytes@);
    }
    Some(bytes)
}

/// The address the line at index `j` stands at: the counter after the
/// instruction lines before it, each eight bytes wide.
pub open spec fn address_at(lines: Seq<ParsedLineView>, i: int, counter: u32, j: int) -> u32
    decreases j - i
        when 0 <= i <= j
{
    if i >= j {
        counter
    } else {
        match lines[i] {
            ParsedLineView::Instruction(_) => address_at(
                lines,
                i + 1,
                u32_specs::wrapping_add(counter, 8),
                j,
            ),
            ParsedLineView::Label(_) => address_at(lines, i + 1, counter, j),
        }
    }
}

proof fn lemma_binding_preserved(
    lines: Seq<ParsedLineView>,
    i: int,
    counter: u32,
    table: Map<Seq<char>, u32>,
    name: Seq<char>,
)
    requires
        0 <= i <= lines.len(),
        table.contains_key(name),
        build_table(lines, i, counter, table) is Some,
    ensures
        build_table(lines, i, counter, table)->Some_0.0.contains_key(name),
        build_table(lines, i, counter, table)->Some_0.0[name] == table[name],
    decreases lines.len() - i,
{
    if i < lines.len() {
        match lines[i] {
            ParsedLineView::Instruction(_) => {
                lemma_binding_preserved(
                    lines,
                    i + 1,
                    u32_specs::wrapping_add(counter, 8),
                    table,
                    name,
                );
            },
            ParsedLineView::Label(other) => {
                lemma_binding_preserved(lines, i + 1, counter, table.insert(other, counter), name);
            },
        }
    }
}

proof fn lemma_label_binds(
    lines: Seq<ParsedLineView>,
    i: int,
    counter: u32,
    table: Map<Seq<char>, u32>,
    j: int,
)
    requires
        0 <= i <= j < lines.len(),
        lines[j] is Label,
        build_table(lines, i, counter, table) is Some,
    ensures
        build_table(lines, i, counter, table)->Some_0.0.contains_key(lines[j]->Label_0),
        build_table(lines, i, counter, table)->Some_0.0[lines[j]->Label_0] == address_at(
            lines,
            i,
            counter,
            j,
        ),
    decreases j - i,
{
    if i == j {
        let name = lines[j]->Label_0;
        lemma_binding_preserved(lines, i + 1, counter, table.insert(name, counter), name);
    } else {
        match lines[i] {
            ParsedLineView::Instruction(_) => {
                lemma_label_binds(lines, i + 1, u32_specs::wrapping_add(counter, 8), table, j);
            },
            ParsedLineView::Label(other) => {
                lemma_label_binds(lines, i + 1, counter, table.insert(other, counter), j);
            },
        }
    }
}

/// A label declared anywhere in the program — before or after any line that
/// references it — is bound to the address its declaration stands at, in the
/// table that pass two resolves every reference against. Pass one fully
/// populates the table before pass two looks anything up, which is what
/// makes forward references work. The four reserved names are injected after
/// the user's labels and shadow them, so the law holds of every other name.
pub proof fn lemma_forward_reference(lines: Seq<ParsedLineView>, j: int)
    requires
        0 <= j < lines.len(),
        lines[j] is Label,
        !is_reserved_name(lines[j]->Label_0),
        build_table(lines, 0, MEMORY_START, Map::empty()) is Some,
    ensures
        ({
            let pass1 = build_table(lines, 0, MEMORY_START, Map::empty())->Some_0;
            let table = with_reserved(pass1.0, pass1.1);
            &&& table.contains_key(lines[j]->Label_0)
            &&& table[lines[j]->Label_0] == address_at(lines, 0, MEMORY_START, j)
        }),
{
    lemma_label_binds(lines, 0, MEMORY_START, Map::empty(), j);
}

proof fn lemma_dup_rejected_from(
    lines: Seq<ParsedLineView>,
    i: int,
    counter: u32,
    table: Map<Seq<char>, u32>,
    k: int,
)
    requires
        0 <= i <= k < lines.len(),
        lines[k] is Label,
        table.contains_key(lines[k]->Label_0),
    ensures
        build_table(lines, i, counter, table) is None,
    decreases k - i,
{
    if i < k {
        match lines[i] {
            ParsedLineView::Instruction(_) => {
                lemma_dup_rejected_from(
                    lines,
                    i + 1,
                    u32_specs::wrapping_add(counter, 8),
                    table,
                    k,
                );
            },
            ParsedLineView::Label(other) => {
                if !table.contains_key(other) {
                    lemma_dup_rejected_from(lines, i + 1, counter, table.insert(other, counter), k);
                }
            },
        }
    }
}

proof fn lemma_dup_label_build_fails(
    lines: Seq<ParsedLineView>,
    i: int,
    counter: u32,
    table: Map<Seq<char>, u32>,
    j: int,
    k: int,
)
    requires
        0 <= i <= j < k < lines.len(),
        lines[j] is Label,
        lines[k] is Label,
        lines[j]->Label_0 == lines[k]->Label_0,
    ensures
        build_table(lines, i, counter, table) is None,
    decreases j - i,
{
    if i == j {
        if !table.contains_key(lines[j]->Label_0) {
            lemma_dup_rejected_from(
                lines,
                i + 1,
                counter,
                table.insert(lines[j]->Label_0, counter),
                k,
            );
        }
    } else {
        match lines[i] {
            ParsedLineView::Instruction(_) => {
                lemma_dup_label_build_fails(
                    lines,
                    i + 1,
                    u32_specs::wrapping_add(counter, 8),
                    table,
                    j,
                    k,
                );
            },
            ParsedLineView::Label(other) => {
                if !table.contains_key(other) {
                    lemma_dup_label_build_fails(
                        lines,
                        i + 1,
                        counter,
                        table.insert(other, counter),
                        j,
                        k,
                    );
                }
            },
        }
    }
}

/// Declaring the same label twice is rejected in pass one, before any bytes
/// are emitted: the whole assembly yields nothing.
pub proof fn lemma_duplicate_label_rejected(lines: Seq<ParsedLineView>, j: int, k: int)
    requires
        0 <= j < k < lines.len(),
        lines[j] is Label,
        lines[k] is Label,
        lines[j]->Label_0 == lines[k]->Label_0,
    ensures
        assemble_lines_spec(lines) is None,
{
    lemma_dup_label_build_fails(lines, 0, MEMORY_START, Map::empty(), j, k);
}

/// Whether any line declares this label.
pub open spec fn declares(lines: Seq<ParsedLineView>, name: Seq<char>) -> bool {
    exists|j: int| 0 <= j < lines.len() && lines[j] == ParsedLineView::Label(name)
}

proof fn lemma_table_keys_declared(
    lines: Seq<ParsedLineView>,
    i: int,
    counter: u32,
    table: Map<Seq<char>, u32>,
    name: Seq<char>,
)
    requires
        0 <= i <= lines.len(),
        build_table(lines, i, counter, table) is Some,
        build_table(lines, i, counter, table)->Some_0.0.contains_key(name),
        !table.contains_key(name),
    ensures
        exists|j: int| i <= j < lines.len() && lines[j] == ParsedLineView::Label(name),
    decreases lines.len() - i,
{
    if i < lines.len() {
        match lines[i] {
            ParsedLineView::Instruction(_) => {
                lemma_table_keys_declared(
                    lines,
                    i + 1,
                    u32_specs::wrapping_add(counter, 8),
                    table,
                    name,
                );
            },
            ParsedLineView::Label(other) => {
                if other == name {
                    assert(lines[i] == ParsedLineView::Label(name));
                } else {
                    lemma_table_keys_declared(
                        lines,
                        i + 1,
                        counter,
                        table.insert(other, counter),
                        name,
                    );
                }
            },
        }
    }
}

proof fn lemma_emit_fails_on_missing(
    lines: Seq<ParsedLineView>,
    i: int,
    table: Map<Seq<char>, u32>,
    j: int,
)
    requires
        0 <= i <= j < lines.len(),
        lines[j] is Instruction,
        lines[j]->Instruction_0.op is Label,
        !table.contains_key(lines[j]->Instruction_0.op->Label_0),
    ensures
        emit(lines, i, table) is None,
    decreases j - i,
{
    if i < j {
        lemma_emit_fails_on_missing(lines, i + 1, table, j);
    }
}

/// Referencing a label that no line declares — and that is not one of the
/// reserved names — is rejected in pass two, before any bytes are emitted:
/// the whole assembly yields nothing.
pub proof fn lemma_undeclared_label_rejected(lines: Seq<ParsedLineView>, j: int)
    requires
        0 <= j < lines.len(),
        lines[j] is Instruction,
        lines[j]->Instruction_0.op is Label,
        !declares(lines, lines[j]->Instruction_0.op->Label_0),
        !is_reserved_name(lines[j]->Instruction_0.op->Label_0),
    ensures
        assemble_lines_spec(lines) is None,
{
    let name = lines[j]->Instruction_0.op->Label_0;
    let pass1 = build_table(lines, 0, MEMORY_START, Map::empty());
    if pass1 is Some {
        let table = with_reserved(pass1->Some_0.0, pass1->Some_0.1);
        if pass1->Some_0.0.contains_key(name) {
            lemma_table_keys_declared(lines, 0, MEMORY_START, Map::empty(), name);
        }
        assert(!table.contains_key(name));
        lemma_emit_fails_on_missing(lines, 0, table, j);
    }
}

} // verus!
