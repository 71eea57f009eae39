//! The meaning of a token stream: where each statement lies in the image,
//! which offsets the labels stand for, and which bytes the statements denote.
//!
//! A program is a run of directive statements followed by a run of
//! instruction statements. A label definition may precede either kind of
//! statement. The image is a four-byte header that holds the offset of the
//! first instruction, then the bytes of the directives, then the twelve-byte
//! records of the instructions.

use crate::assembly::directive::{
    directive_bytes,
    directive_of,
    int_literal_value,
    quoted_content,
    str_literal_text,
    DirectiveView,
};
use crate::assembly::symbol::SymbolView;
use crate::assembly::token::{TokenType, TokenView};
use crate::util::decimal::{all_digits, digits_value};
use crate::util::endianness::spec_i32_bytes_le;
use crate::vm::instruction::{encode, Instruction};
use crate::vm::opcode::{opcode_of_access, opcode_of_mnemonic, Opcode};
use vstd::prelude::*;
use vstd::utf8::encode_utf8;

verus! {

/// The mathematical content of an assembler error. Each carries the source
/// line to which it belongs.
pub enum AssemblerErrView {
    /// A token of this type was expected and something else, or nothing, was
    /// found.
    ExpectedTokenType(TokenType, usize),
    /// A token whose text denotes nothing acceptable where it stands.
    InvalidToken(TokenView, usize),
    /// A mnemonic was expected.
    ExpectedOpcode(usize),
    /// A register token whose text names no register.
    InvalidRg(Seq<char>, usize),
    /// A reference to a label that is defined nowhere.
    NonexistentLabel(Seq<char>, usize),
    /// A second definition of a label.
    DuplicateSymbol(Seq<char>, usize),
}

/// Size of the header of an image.
pub open spec fn header_size() -> nat {
    4
}

/// Largest offset that an operand can hold.
pub open spec fn max_offset() -> int {
    0x7fff_ffff
}

/// Whether a token of this type is a directive keyword.
pub open spec fn is_directive(token_type: TokenType) -> bool {
    token_type == TokenType::BytDir || token_type == TokenType::IntDir || token_type
        == TokenType::StrDir
}

/// Whether a token of this type is a mnemonic.
pub open spec fn is_instruction(token_type: TokenType) -> bool {
    opcode_of_mnemonic(token_type) is Some
}

/// Whether a token of this type begins a statement or a label definition.
pub open spec fn starts_statement(token_type: TokenType) -> bool {
    is_directive(token_type) || is_instruction(token_type) || token_type == TokenType::Label
}

/// The type of the token at a position, if there is one.
pub open spec fn type_at(tokens: Seq<TokenView>, i: int) -> Option<TokenType> {
    if 0 <= i < tokens.len() {
        Some(tokens[i].token_type)
    } else {
        None
    }
}

/// The source line that a position belongs to: that of the token there, or
/// of the last token when the position is the end of the stream.
pub open spec fn line_at(tokens: Seq<TokenView>, i: int) -> usize {
    if 0 <= i < tokens.len() {
        tokens[i].line
    } else if tokens.len() > 0 {
        tokens.last().line
    } else {
        0
    }
}

// ---------------------------------------------------------------------------
// Layout: the first pass
// ---------------------------------------------------------------------------
/// The number of bytes that the statement with its keyword at position `i`
/// takes in the image: 1 for a byte, 4 for a word, one length byte and the
/// UTF-8 bytes of its text for a string, 12 for an instruction. Tokens that
/// are no keyword take none.
pub open spec fn statement_size(tokens: Seq<TokenView>, i: int) -> nat {
    match type_at(tokens, i) {
        Some(TokenType::BytDir) => 1,
        Some(TokenType::IntDir) => 4,
        Some(TokenType::StrDir) => if type_at(tokens, i + 1) == Some(TokenType::StrImm) {
            match str_literal_text(tokens[i + 1].lexeme) {
                Some(text) => 1 + encode_utf8(text).len(),
                None => 1,
            }
        } else {
            1
        },
        Some(token_type) => if is_instruction(token_type) {
            12
        } else {
            0
        },
        None => 0,
    }
}

/// The offset in the image of whatever begins at position `i`: the header's
/// size plus the sizes of all statements before it.
pub open spec fn offset_at(tokens: Seq<TokenView>, i: int) -> nat
    decreases i,
{
    if i <= 0 {
        header_size()
    } else {
        offset_at(tokens, i - 1) + statement_size(tokens, i - 1)
    }
}

/// The name that a label definition introduces: its text without the colon
/// that ends it.
pub open spec fn label_name(lexeme: Seq<char>) -> Seq<char> {
    if lexeme.len() > 0 {
        lexeme.drop_last()
    } else {
        lexeme
    }
}

/// Whether the token at position `i` defines the label `name`.
pub open spec fn defines(tokens: Seq<TokenView>, i: int, name: Seq<char>) -> bool {
    type_at(tokens, i) == Some(TokenType::Label) && label_name(tokens[i].lexeme) == name
}

/// Whether the token at position `i` defines a label that an earlier token
/// has defined already.
pub open spec fn redefines(tokens: Seq<TokenView>, i: int) -> bool {
    exists|earlier: int|
        0 <= earlier < i && #[trigger] defines(tokens, earlier, label_name(tokens[i].lexeme))
            && type_at(tokens, i) == Some(TokenType::Label)
}

/// Whether the first pass stops at position `i`: at a label that is defined
/// for the second time, or at a statement that ends beyond the largest
/// offset.
pub open spec fn layout_fails_at(tokens: Seq<TokenView>, i: int) -> bool {
    redefines(tokens, i) || offset_at(tokens, i + 1) > max_offset()
}

/// The first position among the first `n` at which the first pass stops.
pub open spec fn layout_failure(tokens: Seq<TokenView>, n: int) -> Option<int>
    decreases n,
{
    if n <= 0 {
        None
    } else {
        match layout_failure(tokens, n - 1) {
            Some(i) => Some(i),
            None => if layout_fails_at(tokens, n - 1) {
                Some(n - 1)
            } else {
                None
            },
        }
    }
}

/// The error with which the first pass stops at position `i`.
pub open spec fn layout_error(tokens: Seq<TokenView>, i: int) -> AssemblerErrView {
    if redefines(tokens, i) {
        AssemblerErrView::DuplicateSymbol(label_name(tokens[i].lexeme), tokens[i].line)
    } else {
        AssemblerErrView::InvalidToken(tokens[i], tokens[i].line)
    }
}

/// The symbol that the label definition at position `i` enters into the
/// table: the label's name, its line, and the offset of what follows it.
pub open spec fn symbol_at(tokens: Seq<TokenView>, i: int) -> SymbolView {
    SymbolView {
        token: TokenView {
            token_type: TokenType::Label,
            lexeme: label_name(tokens[i].lexeme),
            line: tokens[i].line,
        },
        offset: offset_at(tokens, i) as usize,
    }
}

/// The symbols that the first `n` tokens define.
pub open spec fn symbols_upto(tokens: Seq<TokenView>, n: int) -> Map<Seq<char>, SymbolView>
    decreases n,
{
    if n <= 0 {
        Map::empty()
    } else if type_at(tokens, n - 1) == Some(TokenType::Label) {
        symbols_upto(tokens, n - 1).insert(
            label_name(tokens[n - 1].lexeme),
            symbol_at(tokens, n - 1),
        )
    } else {
        symbols_upto(tokens, n - 1)
    }
}

/// The symbols that a token stream defines.
pub open spec fn symbols_of(tokens: Seq<TokenView>) -> Map<Seq<char>, SymbolView> {
    symbols_upto(tokens, tokens.len() as int)
}

/// The position of the first mnemonic at or after position `i`; the length
/// of the stream if there is none.
pub open spec fn first_instruction_from(tokens: Seq<TokenView>, i: int) -> int
    decreases tokens.len() - i,
{
    if i >= tokens.len() {
        tokens.len() as int
    } else if i >= 0 && is_instruction(tokens[i].token_type) {
        i
    } else {
        first_instruction_from(tokens, i + 1)
    }
}

/// The offset of the first instruction, which the header holds; the end of
/// the image if the stream has no instruction.
pub open spec fn code_start(tokens: Seq<TokenView>) -> nat {
    offset_at(tokens, first_instruction_from(tokens, 0))
}

/// The first position at or after `i` whose token begins a statement or a
/// label definition; the length of the stream if there is none.
pub open spec fn next_statement(tokens: Seq<TokenView>, i: int) -> int
    decreases tokens.len() - i,
{
    if i >= tokens.len() {
        tokens.len() as int
    } else if i >= 0 && starts_statement(tokens[i].token_type) {
        i
    } else {
        next_statement(tokens, i + 1)
    }
}

// ---------------------------------------------------------------------------
// Operands
// ---------------------------------------------------------------------------
/// The index that a register's text names: `R` followed by a decimal
/// numeral that fits a signed 32-bit integer.
pub open spec fn register_index(lexeme: Seq<char>) -> Option<i32> {
    let digits = lexeme.subrange(1, lexeme.len() as int);
    if lexeme.len() >= 2 && lexeme[0] == 'R' && all_digits(digits) && digits_value(digits)
        <= max_offset() {
        Some(digits_value(digits) as i32)
    } else {
        None
    }
}

/// The value of a character literal used as an operand: the code point of
/// the single character between its quotes.
pub open spec fn char_operand_value(lexeme: Seq<char>) -> Option<i32> {
    match quoted_content(lexeme, '\'') {
        Some(content) => if content.len() == 1 {
            Some(content[0] as i32)
        } else {
            None
        },
        None => None,
    }
}

/// A register operand at position `k`.
pub open spec fn register_operand(tokens: Seq<TokenView>, k: int) -> Result<i32, AssemblerErrView> {
    if type_at(tokens, k) == Some(TokenType::Rg) {
        match register_index(tokens[k].lexeme) {
            Some(index) => Ok(index),
            None => Err(AssemblerErrView::InvalidRg(tokens[k].lexeme, tokens[k].line)),
        }
    } else {
        Err(AssemblerErrView::ExpectedTokenType(TokenType::Rg, line_at(tokens, k)))
    }
}

/// The error of a missing comma at position `k`, if it is missing.
pub open spec fn comma_missing(tokens: Seq<TokenView>, k: int) -> Option<AssemblerErrView> {
    if type_at(tokens, k) == Some(TokenType::Comma) {
        None
    } else {
        Some(AssemblerErrView::ExpectedTokenType(TokenType::Comma, line_at(tokens, k)))
    }
}

/// The offset of the label that a name refers to.
pub open spec fn resolve(
    symbols: Map<Seq<char>, SymbolView>,
    name: TokenView,
) -> Result<i32, AssemblerErrView> {
    if symbols.contains_key(name.lexeme) {
        Ok(symbols[name.lexeme].offset as i32)
    } else {
        Err(AssemblerErrView::NonexistentLabel(name.lexeme, name.line))
    }
}

/// A label reference at position `k`: the offset of the label it names,
/// wherever in the stream that label is defined.
pub open spec fn label_operand(
    tokens: Seq<TokenView>,
    k: int,
    symbols: Map<Seq<char>, SymbolView>,
) -> Result<i32, AssemblerErrView> {
    if type_at(tokens, k) == Some(TokenType::LabelOp) {
        resolve(symbols, tokens[k])
    } else {
        Err(AssemblerErrView::ExpectedTokenType(TokenType::LabelOp, line_at(tokens, k)))
    }
}

/// An immediate operand at position `k`: an integer or a character literal.
pub open spec fn immediate_operand(tokens: Seq<TokenView>, k: int) -> Result<
    i32,
    AssemblerErrView,
> {
    let value = match type_at(tokens, k) {
        Some(TokenType::IntImm) => int_literal_value(tokens[k].lexeme),
        Some(TokenType::CharImm) => char_operand_value(tokens[k].lexeme),
        _ => None,
    };
    if type_at(tokens, k) == Some(TokenType::IntImm) || type_at(tokens, k) == Some(
        TokenType::CharImm,
    ) {
        match value {
            Some(v) => Ok(v),
            None => Err(AssemblerErrView::InvalidToken(tokens[k], tokens[k].line)),
        }
    } else {
        Err(AssemblerErrView::ExpectedTokenType(TokenType::IntImm, line_at(tokens, k)))
    }
}

/// The number of a trap at position `k`: an integer literal from 0 to 4.
pub open spec fn trap_operand(tokens: Seq<TokenView>, k: int) -> Result<i32, AssemblerErrView> {
    if type_at(tokens, k) == Some(TokenType::IntImm) {
        match int_literal_value(tokens[k].lexeme) {
            Some(number) => if 0 <= number <= 4 {
                Ok(number)
            } else {
                Err(AssemblerErrView::InvalidToken(tokens[k], tokens[k].line))
            },
            None => Err(AssemblerErrView::ExpectedTokenType(TokenType::IntImm, tokens[k].line)),
        }
    } else {
        Err(AssemblerErrView::ExpectedTokenType(TokenType::IntImm, line_at(tokens, k)))
    }
}

/// The second operand of a load or store at position `k`, with the opcode
/// that its form selects: a label reference gives the direct variant and the
/// label's offset, a register the register-indirect variant and the
/// register's index.
pub open spec fn address_operand(
    tokens: Seq<TokenView>,
    k: int,
    mnemonic: TokenType,
    symbols: Map<Seq<char>, SymbolView>,
) -> Result<(Opcode, i32), AssemblerErrView> {
    match (type_at(tokens, k), opcode_of_access(mnemonic, tokens[k].token_type)) {
        (Some(TokenType::LabelOp), Some(opcode)) => match resolve(symbols, tokens[k]) {
            Ok(offset) => Ok((opcode, offset)),
            Err(e) => Err(e),
        },
        (Some(TokenType::Rg), Some(opcode)) => match register_index(tokens[k].lexeme) {
            Some(index) => Ok((opcode, index)),
            None => Err(AssemblerErrView::InvalidRg(tokens[k].lexeme, tokens[k].line)),
        },
        _ => Err(AssemblerErrView::ExpectedTokenType(TokenType::LabelOp, line_at(tokens, k))),
    }
}

/// The operands that a mnemonic takes.
pub enum OperandForm {
    /// One label reference: `JMP`.
    Label,
    /// One register: `JMR`, `PUSH`, `POP`, `PEEK`.
    Register,
    /// A register and a label reference: the branches and `LDA`.
    RegisterLabel,
    /// Two registers: `MOV`, `CMP`, the arithmetic and logic operations.
    RegisterRegister,
    /// A register and an immediate: `MOVI`, `CMPI`, `ADI`, `MULI`, `DIVI`,
    /// `ALCI`.
    RegisterImmediate,
    /// A register and a label reference or a register: the loads and stores.
    RegisterAddress,
    /// A trap number: `TRP`.
    Trap,
}

/// The operands that a mnemonic takes; `None` for a token type that is no
/// mnemonic.
pub open spec fn operand_form(mnemonic: TokenType) -> Option<OperandForm> {
    match mnemonic {
        TokenType::Jmp => Some(OperandForm::Label),
        TokenType::Jmr | TokenType::Push | TokenType::Peek | TokenType::Pop => Some(
            OperandForm::Register,
        ),
        TokenType::Bnz
        | TokenType::Bgt
        | TokenType::Blt
        | TokenType::Brz
        | TokenType::Bal
        | TokenType::Lda => Some(OperandForm::RegisterLabel),
        TokenType::Mov
        | TokenType::And
        | TokenType::Or
        | TokenType::Not
        | TokenType::Cmp
        | TokenType::Allc
        | TokenType::Add
        | TokenType::Sub
        | TokenType::Mul
        | TokenType::Div => Some(OperandForm::RegisterRegister),
        TokenType::Movi
        | TokenType::Cmpi
        | TokenType::Adi
        | TokenType::Muli
        | TokenType::Divi
        | TokenType::Alci => Some(OperandForm::RegisterImmediate),
        TokenType::Str | TokenType::Ldr | TokenType::Stb | TokenType::Ldb => Some(
            OperandForm::RegisterAddress,
        ),
        TokenType::Trp => Some(OperandForm::Trap),
        _ => None,
    }
}

/// A register at position `k` and a comma after it.
pub open spec fn register_and_comma(tokens: Seq<TokenView>, k: int) -> Result<
    i32,
    AssemblerErrView,
> {
    match register_operand(tokens, k) {
        Ok(index) => match comma_missing(tokens, k + 1) {
            None => Ok(index),
            Some(e) => Err(e),
        },
        Err(e) => Err(e),
    }
}

// ---------------------------------------------------------------------------
// Statements: the second pass
// ---------------------------------------------------------------------------
/// The position of the keyword of a statement that begins at position `i`:
/// after the label definition, if the statement has one.
pub open spec fn keyword_position(tokens: Seq<TokenView>, i: int) -> int {
    if type_at(tokens, i) == Some(TokenType::Label) {
        i + 1
    } else {
        i
    }
}

/// The instruction statement that begins at position `i`: the instruction it
/// denotes and the position after its last token. The operands are read from
/// left to right and the first one that is wrong decides the error.
pub open spec fn instruction_at(
    tokens: Seq<TokenView>,
    i: int,
    symbols: Map<Seq<char>, SymbolView>,
) -> Result<(Instruction, int), AssemblerErrView> {
    let j = keyword_position(tokens, i);
    match type_at(tokens, j) {
        Some(mnemonic) => match (opcode_of_mnemonic(mnemonic), operand_form(mnemonic)) {
            (Some(opcode), Some(OperandForm::Label)) => match label_operand(
                tokens,
                j + 1,
                symbols,
            ) {
                Ok(target) => Ok((Instruction { opcode, op1: target, op2: 0 }, j + 2)),
                Err(e) => Err(e),
            },
            (Some(opcode), Some(OperandForm::Register)) => match register_operand(tokens, j + 1) {
                Ok(index) => Ok((Instruction { opcode, op1: index, op2: 0 }, j + 2)),
                Err(e) => Err(e),
            },
            (Some(opcode), Some(OperandForm::RegisterLabel)) => match (
                register_and_comma(tokens, j + 1),
                label_operand(tokens, j + 3, symbols),
            ) {
                (Ok(index), Ok(target)) => Ok(
                    (Instruction { opcode, op1: index, op2: target }, j + 4),
                ),
                (Err(e), _) => Err(e),
                (_, Err(e)) => Err(e),
            },
            (Some(opcode), Some(OperandForm::RegisterRegister)) => match (
                register_and_comma(tokens, j + 1),
                register_operand(tokens, j + 3),
            ) {
                (Ok(first), Ok(second)) => Ok(
                    (Instruction { opcode, op1: first, op2: second }, j + 4),
                ),
                (Err(e), _) => Err(e),
                (_, Err(e)) => Err(e),
            },
            (Some(opcode), Some(OperandForm::RegisterImmediate)) => match (
                register_and_comma(tokens, j + 1),
                immediate_operand(tokens, j + 3),
            ) {
                (Ok(index), Ok(value)) => Ok(
                    (Instruction { opcode, op1: index, op2: value }, j + 4),
                ),
                (Err(e), _) => Err(e),
                (_, Err(e)) => Err(e),
            },
            (Some(_), Some(OperandForm::RegisterAddress)) => match (
                register_and_comma(tokens, j + 1),
                address_operand(tokens, j + 3, mnemonic, symbols),
            ) {
                (Ok(index), Ok((opcode, address))) => Ok(
                    (Instruction { opcode, op1: index, op2: address }, j + 4),
                ),
                (Err(e), _) => Err(e),
                (_, Err(e)) => Err(e),
            },
            (Some(opcode), Some(OperandForm::Trap)) => match trap_operand(tokens, j + 1) {
                Ok(number) => Ok((Instruction { opcode, op1: number, op2: 0 }, j + 2)),
                Err(e) => Err(e),
            },
            _ => Err(AssemblerErrView::ExpectedOpcode(line_at(tokens, j))),
        },
        None => Err(AssemblerErrView::ExpectedOpcode(line_at(tokens, j))),
    }
}

/// Whether a token of this type can be the literal of a directive.
pub open spec fn is_literal(token_type: TokenType) -> bool {
    token_type == TokenType::CharImm || token_type == TokenType::IntImm || token_type
        == TokenType::StrImm
}

/// The directive statement that begins at position `i`, if one does: the
/// directive it denotes and the position after its last token. A literal that
/// does not suit the directive is an invalid token.
pub open spec fn directive_at(tokens: Seq<TokenView>, i: int) -> Result<
    Option<(DirectiveView, int)>,
    AssemblerErrView,
> {
    let j = keyword_position(tokens, i);
    match type_at(tokens, j) {
        Some(keyword) => if is_directive(keyword) {
            match type_at(tokens, j + 1) {
                Some(literal) => if is_literal(literal) {
                    match directive_of(keyword, Some(tokens[j + 1])) {
                        Some(directive) => Ok(Some((directive, j + 2))),
                        None => Err(
                            AssemblerErrView::InvalidToken(tokens[j + 1], tokens[j + 1].line),
                        ),
                    }
                } else {
                    Ok(Some((directive_of(keyword, None).unwrap(), j + 1)))
                },
                None => Ok(Some((directive_of(keyword, None).unwrap(), j + 1))),
            }
        } else {
            Ok(None)
        },
        None => Ok(None),
    }
}

/// The bytes of the run of directive statements that begins at position
/// `i`, and the position at which the run ends.
pub open spec fn directives_from(tokens: Seq<TokenView>, i: int) -> Result<
    (Seq<u8>, int),
    AssemblerErrView,
>
    decreases tokens.len() - i,
{
    match directive_at(tokens, i) {
        Ok(Some((directive, next))) => if i < next <= tokens.len() {
            match directives_from(tokens, next) {
                Ok((rest, end)) => Ok((directive_bytes(directive) + rest, end)),
                Err(e) => Err(e),
            }
        } else {
            Ok((Seq::empty(), i))
        },
        Ok(None) => Ok((Seq::empty(), i)),
        Err(e) => Err(e),
    }
}

/// The bytes of the instruction statements from position `i` to the end of
/// the stream.
pub open spec fn instructions_from(
    tokens: Seq<TokenView>,
    i: int,
    symbols: Map<Seq<char>, SymbolView>,
) -> Result<Seq<u8>, AssemblerErrView>
    decreases tokens.len() - i,
{
    if i >= tokens.len() {
        Ok(Seq::empty())
    } else {
        match instruction_at(tokens, i, symbols) {
            Ok((instruction, next)) => if i < next <= tokens.len() {
                match instructions_from(tokens, next, symbols) {
                    Ok(rest) => Ok(encode(instruction) + rest),
                    Err(e) => Err(e),
                }
            } else {
                Ok(Seq::empty())
            },
            Err(e) => Err(e),
        }
    }
}

/// The bytes that the second pass writes after the header: the directives
/// from the start of the stream, then the instructions up to its end.
pub open spec fn body_of(tokens: Seq<TokenView>, symbols: Map<Seq<char>, SymbolView>) -> Result<
    Seq<u8>,
    AssemblerErrView,
> {
    match directives_from(tokens, 0) {
        Ok((data, end)) => match instructions_from(tokens, end, symbols) {
            Ok(code) => Ok(data + code),
            Err(e) => Err(e),
        },
        Err(e) => Err(e),
    }
}

/// The image that a token stream denotes, or the first error that assembling
/// it meets. The first pass lays the statements out and collects the labels;
/// the second pass encodes the statements with all labels known, so a
/// reference may precede the definition of its label.
pub open spec fn assemble(tokens: Seq<TokenView>) -> Result<Seq<u8>, AssemblerErrView> {
    match layout_failure(tokens, tokens.len() as int) {
        Some(i) => Err(layout_error(tokens, i)),
        None => match body_of(tokens, symbols_of(tokens)) {
            Ok(body) => Ok(spec_i32_bytes_le(code_start(tokens) as i32) + body),
            Err(e) => Err(e),
        },
    }
}

} // verus!
