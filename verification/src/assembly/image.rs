//! The shape of an assembled image: the second pass puts every statement at
//! the offset that the first pass has computed for it, so that the offsets in
//! the symbol table and in the header point at the bytes they stand for.

use crate::assembly::directive::{directive_bytes, DirectiveView};
use crate::assembly::grammar::{
    assemble,
    code_start,
    defines,
    directive_at,
    directives_from,
    first_instruction_from,
    instruction_at,
    instructions_from,
    is_directive,
    is_instruction,
    keyword_position,
    offset_at,
    operand_form,
    statement_size,
    symbols_of,
    type_at,
    OperandForm,
};
use crate::assembly::resolution::{
    lemma_label_reference_resolves,
    lemma_layout_succeeds_everywhere,
};
use crate::assembly::symbol::SymbolView;
use crate::assembly::token::{TokenType, TokenView};
use crate::util::endianness::spec_i32_bytes_le;
use crate::vm::instruction::{encode, Instruction};
use crate::vm::opcode::Opcode;
use vstd::prelude::*;

verus! {

/// Whether the second pass, encoding instruction statements from
/// position `from` on, begins a statement at position `i`.
pub open spec fn begins_statement(
    tokens: Seq<TokenView>,
    from: int,
    i: int,
    symbols: Map<Seq<char>, SymbolView>,
) -> bool
    decreases tokens.len() - from,
{
    if from >= tokens.len() {
        false
    } else if from == i {
        true
    } else {
        match instruction_at(tokens, from, symbols) {
            Ok((_, next)) => from < next && begins_statement(tokens, next, i, symbols),
            Err(_) => false,
        }
    }
}

/// The position at which the run of directives at the start of the stream
/// ends and the instructions begin.
pub open spec fn code_position(tokens: Seq<TokenView>) -> int {
    match directives_from(tokens, 0) {
        Ok((_, end)) => end,
        Err(_) => 0,
    }
}

/// A token that is neither a directive keyword nor a mnemonic takes no room.
proof fn lemma_no_room(tokens: Seq<TokenView>, m: int)
    requires
        match type_at(tokens, m) {
            Some(token_type) => !is_directive(token_type) && !is_instruction(token_type),
            None => true,
        },
    ensures
        offset_at(tokens, m + 1) == offset_at(tokens, m) || m < 0,
        first_instruction_from(tokens, m) == first_instruction_from(tokens, m + 1) || m < 0 || m
            >= tokens.len(),
{
}

/// An instruction statement takes twelve bytes: the first pass moves the
/// offset by twelve from the statement's start to its end.
pub proof fn lemma_instruction_statement_size(
    tokens: Seq<TokenView>,
    i: int,
    symbols: Map<Seq<char>, SymbolView>,
)
    requires
        0 <= i,
        instruction_at(tokens, i, symbols) is Ok,
    ensures
        i < instruction_at(tokens, i, symbols)->Ok_0.1 <= tokens.len(),
        offset_at(tokens, instruction_at(tokens, i, symbols)->Ok_0.1) == offset_at(tokens, i)
            + 12,
        is_instruction(tokens[keyword_position(tokens, i)].token_type),
        offset_at(tokens, keyword_position(tokens, i)) == offset_at(tokens, i),
{
    let j = keyword_position(tokens, i);
    let next = instruction_at(tokens, i, symbols)->Ok_0.1;
    if j == i + 1 {
        lemma_no_room(tokens, i);
    }
    assert(offset_at(tokens, j + 1) == offset_at(tokens, j) + 12);
    lemma_no_room(tokens, j + 1);
    match operand_form(tokens[j].token_type) {
        Some(OperandForm::Label) | Some(OperandForm::Register) | Some(OperandForm::Trap) => {},
        _ => {
            lemma_no_room(tokens, j + 2);
            lemma_no_room(tokens, j + 3);
        },
    }
}

/// A directive statement takes as many bytes as the directive it denotes:
/// the first pass moves the offset by the length of what the second pass
/// writes.
pub proof fn lemma_directive_statement_size(tokens: Seq<TokenView>, i: int)
    requires
        0 <= i,
        directive_at(tokens, i) is Ok,
        directive_at(tokens, i)->Ok_0 is Some,
    ensures
        i < directive_at(tokens, i)->Ok_0->Some_0.1 <= tokens.len(),
        offset_at(tokens, directive_at(tokens, i)->Ok_0->Some_0.1) == offset_at(tokens, i)
            + directive_bytes(directive_at(tokens, i)->Ok_0->Some_0.0).len(),
        first_instruction_from(tokens, i) == first_instruction_from(
            tokens,
            directive_at(tokens, i)->Ok_0->Some_0.1,
        ),
{
    let j = keyword_position(tokens, i);
    let next = directive_at(tokens, i)->Ok_0->Some_0.1;
    let directive = directive_at(tokens, i)->Ok_0->Some_0.0;
    if j == i + 1 {
        lemma_no_room(tokens, i);
    }
    assert(offset_at(tokens, j + 1) == offset_at(tokens, j) + statement_size(tokens, j));
    assert(first_instruction_from(tokens, j) == first_instruction_from(tokens, j + 1));
    if next == j + 2 {
        lemma_no_room(tokens, j + 1);
    }
    assert(statement_size(tokens, j) == directive_bytes(directive).len()) by {
        match directive {
            DirectiveView::Byt(_) => {},
            DirectiveView::Int(_) => {},
            DirectiveView::Str(text) => {
                if next == j + 1 {
                    assert(text =~= Seq::<char>::empty());
                    assert(vstd::utf8::encode_utf8(text) =~= Seq::<u8>::empty());
                }
            },
        }
    }
}

/// The run of directives takes the room that the first pass has counted for
/// it, and holds no mnemonic.
pub proof fn lemma_directives_layout(tokens: Seq<TokenView>, i: int)
    requires
        0 <= i <= tokens.len(),
        directives_from(tokens, i) is Ok,
    ensures
        i <= directives_from(tokens, i)->Ok_0.1 <= tokens.len(),
        offset_at(tokens, directives_from(tokens, i)->Ok_0.1) == offset_at(tokens, i)
            + directives_from(tokens, i)->Ok_0.0.len(),
        first_instruction_from(tokens, i) == first_instruction_from(
            tokens,
            directives_from(tokens, i)->Ok_0.1,
        ),
    decreases tokens.len() - i,
{
    match directive_at(tokens, i) {
        Ok(Some((directive, next))) => {
            lemma_directive_statement_size(tokens, i);
            lemma_directives_layout(tokens, next);
        },
        _ => {},
    }
}

/// The instructions from a position to the end of the stream take the room
/// that the first pass has counted for them.
pub proof fn lemma_instructions_layout(
    tokens: Seq<TokenView>,
    i: int,
    symbols: Map<Seq<char>, SymbolView>,
)
    requires
        0 <= i <= tokens.len(),
        instructions_from(tokens, i, symbols) is Ok,
    ensures
        offset_at(tokens, tokens.len() as int) == offset_at(tokens, i) + instructions_from(
            tokens,
            i,
            symbols,
        )->Ok_0.len(),
    decreases tokens.len() - i,
{
    if i < tokens.len() {
        lemma_instruction_statement_size(tokens, i, symbols);
        let next = instruction_at(tokens, i, symbols)->Ok_0.1;
        lemma_instructions_layout(tokens, next, symbols);
    }
}

/// Among the bytes of the instructions from position `from` on, the record
/// of the statement that begins at position `i` lies as far from the start
/// as the first pass has counted.
pub proof fn lemma_instruction_record(
    tokens: Seq<TokenView>,
    from: int,
    i: int,
    symbols: Map<Seq<char>, SymbolView>,
)
    requires
        0 <= from <= tokens.len(),
        instructions_from(tokens, from, symbols) is Ok,
        begins_statement(tokens, from, i, symbols),
    ensures
        from <= i < tokens.len(),
        instruction_at(tokens, i, symbols) is Ok,
        offset_at(tokens, from) <= offset_at(tokens, i),
        offset_at(tokens, i) - offset_at(tokens, from) + 12 <= instructions_from(
            tokens,
            from,
            symbols,
        )->Ok_0.len(),
        instructions_from(tokens, from, symbols)->Ok_0.subrange(
            offset_at(tokens, i) - offset_at(tokens, from),
            offset_at(tokens, i) - offset_at(tokens, from) + 12,
        ) == encode(instruction_at(tokens, i, symbols)->Ok_0.0),
    decreases tokens.len() - from,
{
    let code = instructions_from(tokens, from, symbols)->Ok_0;
    let instruction = instruction_at(tokens, from, symbols)->Ok_0.0;
    let next = instruction_at(tokens, from, symbols)->Ok_0.1;
    lemma_instruction_statement_size(tokens, from, symbols);
    let rest = instructions_from(tokens, next, symbols)->Ok_0;
    assert(code == encode(instruction) + rest);
    assert(encode(instruction).len() == 12);
    if from == i {
        assert(code.subrange(0, 12) =~= encode(instruction));
    } else {
        lemma_instruction_record(tokens, next, i, symbols);
        let at = offset_at(tokens, i) - offset_at(tokens, next);
        assert(code.subrange(at + 12, at + 24) =~= rest.subrange(at, at + 12));
    }
}

/// The layout of an image. Its length is the offset of the end of the
/// stream. Its header holds the offset at which the directives end and the
/// instructions begin, so the machine finds the code segment where the
/// assembler has put it.
pub proof fn lemma_image_layout(tokens: Seq<TokenView>)
    requires
        assemble(tokens) is Ok,
    ensures
        assemble(tokens)->Ok_0.len() == offset_at(tokens, tokens.len() as int),
        assemble(tokens)->Ok_0.subrange(0, 4) == spec_i32_bytes_le(code_start(tokens) as i32),
        code_start(tokens) == offset_at(tokens, code_position(tokens)),
        code_start(tokens) <= offset_at(tokens, tokens.len() as int) <= 0x7fff_ffff,
        directives_from(tokens, 0) is Ok,
        assemble(tokens)->Ok_0.subrange(4, code_start(tokens) as int) == directives_from(
            tokens,
            0,
        )->Ok_0.0,
{
    let image = assemble(tokens)->Ok_0;
    let symbols = symbols_of(tokens);
    let data = directives_from(tokens, 0)->Ok_0.0;
    let end = directives_from(tokens, 0)->Ok_0.1;
    let code = instructions_from(tokens, end, symbols)->Ok_0;
    let header = spec_i32_bytes_le(code_start(tokens) as i32);
    lemma_directives_layout(tokens, 0);
    lemma_instructions_layout(tokens, end, symbols);
    assert(image == header + (data + code));
    assert(header.len() == 4);
    assert(image.subrange(0, 4) =~= header);
    if end < tokens.len() {
        lemma_instruction_statement_size(tokens, end, symbols);
        if keyword_position(tokens, end) == end + 1 {
            lemma_no_room(tokens, end);
        }
    }
    assert(code_start(tokens) == offset_at(tokens, end));
    assert(image.subrange(4, code_start(tokens) as int) =~= data);
    if tokens.len() > 0 {
        lemma_layout_succeeds_everywhere(tokens, tokens.len() as int, tokens.len() - 1);
    }
}

/// Every instruction lies in the image at the offset that the first pass has
/// computed for its statement, which is the offset that a label before it
/// stands for: a jump to the label lands on the instruction\'s record.
pub proof fn lemma_instruction_lies_at_its_offset(tokens: Seq<TokenView>, i: int)
    requires
        assemble(tokens) is Ok,
        begins_statement(tokens, code_position(tokens), i, symbols_of(tokens)),
    ensures
        instruction_at(tokens, i, symbols_of(tokens)) is Ok,
        offset_at(tokens, i) + 12 <= assemble(tokens)->Ok_0.len(),
        assemble(tokens)->Ok_0.subrange(
            offset_at(tokens, i) as int,
            offset_at(tokens, i) as int + 12,
        ) == encode(instruction_at(tokens, i, symbols_of(tokens))->Ok_0.0),
{
    let image = assemble(tokens)->Ok_0;
    let symbols = symbols_of(tokens);
    let data = directives_from(tokens, 0)->Ok_0.0;
    let end = directives_from(tokens, 0)->Ok_0.1;
    let code = instructions_from(tokens, end, symbols)->Ok_0;
    let header = spec_i32_bytes_le(code_start(tokens) as i32);
    lemma_directives_layout(tokens, 0);
    lemma_instruction_record(tokens, end, i, symbols);
    assert(image == header + (data + code));
    assert(header.len() == 4);
    let at = offset_at(tokens, i) - offset_at(tokens, end);
    assert(image.subrange(offset_at(tokens, i) as int, offset_at(tokens, i) as int + 12)
        =~= code.subrange(at, at + 12));
}

/// A jump lands on its target. Where a program assembles, the record of a
/// jump statement holds the offset of the label it names, and at that offset
/// lies the record of the instruction that the label marks, whether the
/// label is defined before the jump or after it.
pub proof fn lemma_jump_lands_on_its_target(tokens: Seq<TokenView>, i: int, j: int)
    requires
        assemble(tokens) is Ok,
        begins_statement(tokens, code_position(tokens), i, symbols_of(tokens)),
        begins_statement(tokens, code_position(tokens), j, symbols_of(tokens)),
        type_at(tokens, keyword_position(tokens, i)) == Some(TokenType::Jmp),
        defines(tokens, j, tokens[keyword_position(tokens, i) + 1].lexeme),
    ensures
        offset_at(tokens, i) + 12 <= assemble(tokens)->Ok_0.len(),
        offset_at(tokens, j) + 12 <= assemble(tokens)->Ok_0.len(),
        assemble(tokens)->Ok_0.subrange(
            offset_at(tokens, i) as int,
            offset_at(tokens, i) as int + 12,
        ) == encode(
            Instruction { opcode: Opcode::Jmp, op1: offset_at(tokens, j) as i32, op2: 0 },
        ),
        instruction_at(tokens, j, symbols_of(tokens)) is Ok,
        assemble(tokens)->Ok_0.subrange(
            offset_at(tokens, j) as int,
            offset_at(tokens, j) as int + 12,
        ) == encode(instruction_at(tokens, j, symbols_of(tokens))->Ok_0.0),
{
    lemma_instruction_lies_at_its_offset(tokens, i);
    lemma_instruction_lies_at_its_offset(tokens, j);
    lemma_label_reference_resolves(tokens, keyword_position(tokens, i) + 1, j);
}

} // verus!
