//! Label resolution: what the two passes together guarantee about references
//! to labels.

use crate::assembly::grammar::{
    defines,
    instruction_at,
    keyword_position,
    label_operand,
    layout_failure,
    layout_fails_at,
    max_offset,
    offset_at,
    operand_form,
    redefines,
    register_and_comma,
    symbol_at,
    symbols_of,
    symbols_upto,
    type_at,
    AssemblerErrView,
    OperandForm,
};
use crate::assembly::token::{TokenType, TokenView};
use crate::vm::instruction::Instruction;
use crate::vm::opcode::{opcode_of_mnemonic, Opcode};
use vstd::prelude::*;

verus! {

/// Offsets grow along the stream.
pub proof fn lemma_offsets_grow(tokens: Seq<TokenView>, i: int, j: int)
    requires
        i <= j,
    ensures
        offset_at(tokens, i) <= offset_at(tokens, j),
    decreases j - i,
{
    if i < j {
        lemma_offsets_grow(tokens, i, j - 1);
    }
}

/// Where the first pass succeeds on the first `n` tokens, it stops at none
/// of them.
pub proof fn lemma_layout_succeeds_everywhere(tokens: Seq<TokenView>, n: int, i: int)
    requires
        layout_failure(tokens, n) is None,
        0 <= i < n,
    ensures
        !layout_fails_at(tokens, i),
    decreases n,
{
    if i < n - 1 {
        lemma_layout_succeeds_everywhere(tokens, n - 1, i);
    }
}

/// Where the first pass succeeds, the table holds each label that one of the
/// first `n` tokens defines, with the offset of what follows the definition.
pub proof fn lemma_symbols_hold_offsets(tokens: Seq<TokenView>, n: int, j: int, name: Seq<char>)
    requires
        0 <= j < n <= tokens.len(),
        layout_failure(tokens, n) is None,
        defines(tokens, j, name),
    ensures
        symbols_upto(tokens, n).contains_key(name),
        symbols_upto(tokens, n)[name] == symbol_at(tokens, j),
    decreases n,
{
    if j < n - 1 {
        lemma_symbols_hold_offsets(tokens, n - 1, j, name);
        if defines(tokens, n - 1, name) {
            assert(redefines(tokens, n - 1));
        }
    }
}

/// A reference to a label stands for the offset of the label's definition,
/// wherever the definition stands in the stream: before the reference or
/// after it.
pub proof fn lemma_label_reference_resolves(tokens: Seq<TokenView>, k: int, j: int)
    requires
        layout_failure(tokens, tokens.len() as int) is None,
        type_at(tokens, k) == Some(TokenType::LabelOp),
        defines(tokens, j, tokens[k].lexeme),
    ensures
        offset_at(tokens, j) <= max_offset(),
        label_operand(tokens, k, symbols_of(tokens)) == Ok::<i32, AssemblerErrView>(
            offset_at(tokens, j) as i32,
        ),
{
    lemma_symbols_hold_offsets(tokens, tokens.len() as int, j, tokens[k].lexeme);
    lemma_layout_succeeds_everywhere(tokens, tokens.len() as int, j);
    lemma_offsets_grow(tokens, j, j + 1);
}

/// A jump to a label that is defined only later in the stream is encoded
/// all the same, and its target is the offset of the label.
pub proof fn lemma_forward_jump_resolves(tokens: Seq<TokenView>, i: int, j: int)
    requires
        layout_failure(tokens, tokens.len() as int) is None,
        type_at(tokens, keyword_position(tokens, i)) == Some(TokenType::Jmp),
        type_at(tokens, keyword_position(tokens, i) + 1) == Some(TokenType::LabelOp),
        defines(tokens, j, tokens[keyword_position(tokens, i) + 1].lexeme),
        keyword_position(tokens, i) + 1 < j,
    ensures
        instruction_at(tokens, i, symbols_of(tokens)) == Ok::<
            (Instruction, int),
            AssemblerErrView,
        >(
            (
                Instruction { opcode: Opcode::Jmp, op1: offset_at(tokens, j) as i32, op2: 0 },
                keyword_position(tokens, i) + 2,
            ),
        ),
{
    lemma_label_reference_resolves(tokens, keyword_position(tokens, i) + 1, j);
}

/// A branch to a label that is defined only later in the stream is
/// encoded all the same, and its target is the offset of the label.
pub proof fn lemma_forward_branch_resolves(tokens: Seq<TokenView>, i: int, j: int)
    requires
        layout_failure(tokens, tokens.len() as int) is None,
        type_at(tokens, keyword_position(tokens, i)) is Some,
        operand_form(tokens[keyword_position(tokens, i)].token_type) == Some(
            OperandForm::RegisterLabel,
        ),
        register_and_comma(tokens, keyword_position(tokens, i) + 1) is Ok,
        type_at(tokens, keyword_position(tokens, i) + 3) == Some(TokenType::LabelOp),
        defines(tokens, j, tokens[keyword_position(tokens, i) + 3].lexeme),
        keyword_position(tokens, i) + 3 < j,
    ensures
        instruction_at(tokens, i, symbols_of(tokens)) == Ok::<
            (Instruction, int),
            AssemblerErrView,
        >(
            (
                Instruction {
                    opcode: opcode_of_mnemonic(
                        tokens[keyword_position(tokens, i)].token_type,
                    ).unwrap(),
                    op1: register_and_comma(tokens, keyword_position(tokens, i) + 1)->Ok_0,
                    op2: offset_at(tokens, j) as i32,
                },
                keyword_position(tokens, i) + 4,
            ),
        ),
{
    lemma_label_reference_resolves(tokens, keyword_position(tokens, i) + 3, j);
}

} // verus!
