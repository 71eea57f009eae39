//! The two-pass assembler.
//!
//! The first pass walks the token stream once, adds up the sizes of the
//! statements and enters each label into the symbol table at the offset it
//! marks. The second pass walks the stream again and encodes the
//! directives and then the instructions, resolving label references against
//! the table.

use crate::assembly::directive::{int_literal_value, unquote, Directive};
use crate::assembly::grammar::{
    address_operand,
    assemble,
    body_of,
    char_operand_value,
    code_start,
    comma_missing,
    defines,
    directive_at,
    directives_from,
    first_instruction_from,
    immediate_operand,
    instruction_at,
    instructions_from,
    is_directive,
    is_instruction,
    label_name,
    label_operand,
    layout_error,
    layout_failure,
    layout_fails_at,
    line_at,
    max_offset,
    next_statement,
    offset_at,
    redefines,
    register_and_comma,
    register_index,
    register_operand,
    statement_size,
    symbol_at,
    symbols_of,
    symbols_upto,
    trap_operand,
    type_at,
    AssemblerErrView,
};
use crate::assembly::layout::{
    lemma_first_instruction_step,
    lemma_layout_failure_stays,
    lemma_operands_change_nothing,
    lemma_quoted_size,
    lemma_symbols_domain,
};
use crate::assembly::symbol::{Symbol, SymbolView};
use crate::assembly::symbol_table::{SymbolTable, SymbolTableErr};
use crate::assembly::token::{token_views, Token, TokenType, TokenView};
use crate::util::decimal::parse_digits;
use crate::util::endianness::{i32_bytes_le, spec_i32_bytes_le};
use crate::vm::instruction::Instruction;
use crate::vm::opcode::Opcode;
use vstd::prelude::*;

verus! {

/// The mnemonics: the token types that begin an instruction.
pub const INS_TOKEN_TYPES: [TokenType; 32] = [
    TokenType::Jmp,
    TokenType::Jmr,
    TokenType::Bnz,
    TokenType::Bgt,
    TokenType::Blt,
    TokenType::Brz,
    TokenType::Bal,
    TokenType::Mov,
    TokenType::Movi,
    TokenType::Lda,
    TokenType::Str,
    TokenType::Ldr,
    TokenType::Stb,
    TokenType::Ldb,
    TokenType::Push,
    TokenType::Pop,
    TokenType::Peek,
    TokenType::And,
    TokenType::Or,
    TokenType::Not,
    TokenType::Cmp,
    TokenType::Cmpi,
    TokenType::Add,
    TokenType::Adi,
    TokenType::Sub,
    TokenType::Mul,
    TokenType::Muli,
    TokenType::Div,
    TokenType::Divi,
    TokenType::Alci,
    TokenType::Allc,
    TokenType::Trp,
];

/// The token types that begin a directive.
pub const DIR_TOKEN_TYPES: [TokenType; 3] = [TokenType::BytDir, TokenType::IntDir, TokenType::StrDir];

/// `INS_TOKEN_TYPES` lists the mnemonics and nothing else.
pub proof fn lemma_ins_token_types(token_type: TokenType)
    ensures
        INS_TOKEN_TYPES@.contains(token_type) <==> is_instruction(token_type),
{
    let a = INS_TOKEN_TYPES@;
    assert(a.len() == 32);
    if is_instruction(token_type) {
        let i: int = match token_type {
            TokenType::Jmp => 0,
            TokenType::Jmr => 1,
            TokenType::Bnz => 2,
            TokenType::Bgt => 3,
            TokenType::Blt => 4,
            TokenType::Brz => 5,
            TokenType::Bal => 6,
            TokenType::Mov => 7,
            TokenType::Movi => 8,
            TokenType::Lda => 9,
            TokenType::Str => 10,
            TokenType::Ldr => 11,
            TokenType::Stb => 12,
            TokenType::Ldb => 13,
            TokenType::Push => 14,
            TokenType::Pop => 15,
            TokenType::Peek => 16,
            TokenType::And => 17,
            TokenType::Or => 18,
            TokenType::Not => 19,
            TokenType::Cmp => 20,
            TokenType::Cmpi => 21,
            TokenType::Add => 22,
            TokenType::Adi => 23,
            TokenType::Sub => 24,
            TokenType::Mul => 25,
            TokenType::Muli => 26,
            TokenType::Div => 27,
            TokenType::Divi => 28,
            TokenType::Alci => 29,
            TokenType::Allc => 30,
            _ => 31,
        };
        assert(a[i] == token_type);
    }
    if a.contains(token_type) {
        let i = choose|i: int| 0 <= i < a.len() && a[i] == token_type;
        assert(is_instruction(a[i]));
    }
}

/// `DIR_TOKEN_TYPES` lists the directive keywords and nothing else.
pub proof fn lemma_dir_token_types(token_type: TokenType)
    ensures
        DIR_TOKEN_TYPES@.contains(token_type) <==> is_directive(token_type),
{
    let a = DIR_TOKEN_TYPES@;
    if is_directive(token_type) {
        let i: int = match token_type {
            TokenType::BytDir => 0,
            TokenType::IntDir => 1,
            _ => 2,
        };
        assert(a[i] == token_type);
    }
}

/// The reasons for which assembling stops, each with the source line it
/// belongs to.
#[derive(Debug)]
pub enum AssemblerErr {
    /// A token of this type was expected and something else, or nothing, was
    /// found.
    ExpectedTokenType(TokenType, usize),
    /// A token whose text denotes nothing acceptable where it stands.
    InvalidToken(Token, usize),
    /// A mnemonic was expected.
    ExpectedOpcode(usize),
    /// A register token whose text names no register.
    InvalidRg(String, usize),
    /// A reference to a label that is defined nowhere.
    NonexistentLabel(String, usize),
    /// A second definition of a label.
    DuplicateSymbol(String, usize),
}

impl View for AssemblerErr {
    type V = AssemblerErrView;

    open spec fn view(&self) -> AssemblerErrView {
        match self {
            AssemblerErr::ExpectedTokenType(t, l) => AssemblerErrView::ExpectedTokenType(*t, *l),
            AssemblerErr::InvalidToken(t, l) => AssemblerErrView::InvalidToken(t@, *l),
            AssemblerErr::ExpectedOpcode(l) => AssemblerErrView::ExpectedOpcode(*l),
            AssemblerErr::InvalidRg(s, l) => AssemblerErrView::InvalidRg(s@, *l),
            AssemblerErr::NonexistentLabel(s, l) => AssemblerErrView::NonexistentLabel(s@, *l),
            AssemblerErr::DuplicateSymbol(s, l) => AssemblerErrView::DuplicateSymbol(s@, *l),
        }
    }
}

/// Whether a result is the one that the grammar gives: the same value, or an
/// error with the same content.
pub open spec fn agrees<T>(
    result: Result<T, AssemblerErr>,
    expected: Result<T, AssemblerErrView>,
) -> bool {
    match (result, expected) {
        (Ok(a), Ok(b)) => a == b,
        (Err(a), Err(b)) => a@ == b,
        _ => false,
    }
}

/// A cursor over a token stream, with the symbol table that the first pass
/// fills and the second pass reads.
pub struct Assembler<'a> {
    tokens: &'a Vec<Token>,
    cur_idx: usize,
    symbol_table: SymbolTable,
    file_name: String,
    init_pc: i32,
}

impl<'a> Assembler<'a> {
    #[verifier::type_invariant]
    spec fn cursor_in_range(&self) -> bool {
        self.cur_idx <= self.tokens@.len()
    }

    /// The token stream.
    pub closed spec fn tokens(&self) -> Seq<TokenView> {
        token_views(self.tokens@)
    }

    /// The position of the cursor: the number of tokens before it.
    pub closed spec fn cursor(&self) -> int {
        self.cur_idx as int
    }

    /// The labels entered so far.
    pub closed spec fn symbols(&self) -> Map<Seq<char>, SymbolView> {
        self.symbol_table@
    }

    /// The value that the header of the image will hold.
    pub closed spec fn init_pc(&self) -> i32 {
        self.init_pc
    }

    /// The name under which the image is to be stored.
    pub closed spec fn output_name(&self) -> Seq<char> {
        self.file_name@
    }

    /// Whether the assembler is as it was but for the cursor.
    pub open spec fn same_program(&self, other: &Self) -> bool {
        &&& self.tokens() == other.tokens()
        &&& self.symbols() == other.symbols()
        &&& self.init_pc() == other.init_pc()
        &&& self.output_name() == other.output_name()
    }

    /// An assembler at the start of a token stream, with an empty symbol
    /// table. `file_name` is the name under which the image is to be stored.
    pub fn new(tokens: &'a Vec<Token>, file_name: &String) -> (assembler: Self)
        ensures
            assembler.tokens() == token_views(tokens@),
            assembler.cursor() == 0,
            assembler.symbols() == Map::<Seq<char>, SymbolView>::empty(),
            assembler.init_pc() == 4,
            assembler.output_name() == file_name@,
    {
        Self {
            tokens,
            cur_idx: 0,
            symbol_table: SymbolTable::new(),
            file_name: file_name.clone(),
            init_pc: 4,
        }
    }

    /// The name under which the image is to be stored.
    pub fn file_name(&self) -> (name: &String)
        ensures
            name@ == self.output_name(),
    {
        &self.file_name
    }

    /// Moves the cursor one token forward, unless it is at the end.
    pub fn advance(&mut self)
        ensures
            final(self).same_program(old(self)),
            final(self).cursor() == if old(self).cursor() < old(self).tokens().len() {
                old(self).cursor() + 1
            } else {
                old(self).cursor()
            },
    {
        if self.cur_idx < self.tokens.len() {
            self.cur_idx += 1;
        }
    }

    /// Moves the cursor one token back, unless it is at the start.
    pub fn retract(&mut self)
        ensures
            final(self).same_program(old(self)),
            final(self).cursor() == if old(self).cursor() > 0 {
                old(self).cursor() - 1
            } else {
                0
            },
    {
        proof {
            use_type_invariant(&*self);
        }
        if self.cur_idx > 0 {
            self.cur_idx -= 1;
        }
    }

    /// Moves the cursor to the start.
    pub fn reset(&mut self)
        ensures
            final(self).same_program(old(self)),
            final(self).cursor() == 0,
    {
        self.cur_idx = 0;
    }

    /// Whether the cursor is at the end of the stream.
    pub fn reached_eof(&self) -> (at_end: bool)
        ensures
            at_end == (self.cursor() >= self.tokens().len()),
            0 <= self.cursor() <= self.tokens().len(),
    {
        proof {
            use_type_invariant(self);
        }
        self.cur_idx >= self.tokens.len()
    }

    /// The token under the cursor.
    pub fn peek(&self) -> (token: Option<&'a Token>)
        ensures
            match token {
                Some(t) => 0 <= self.cursor() < self.tokens().len() && t@
                    == self.tokens()[self.cursor()],
                None => self.cursor() >= self.tokens().len(),
            },
    {
        if self.cur_idx < self.tokens.len() {
            Some(&self.tokens[self.cur_idx])
        } else {
            None
        }
    }

    /// The token before the cursor.
    pub fn previous(&self) -> (token: Option<&'a Token>)
        ensures
            match token {
                Some(t) => 0 < self.cursor() <= self.tokens().len() && t@
                    == self.tokens()[self.cursor() - 1],
                None => self.cursor() == 0,
            },
    {
        proof {
            use_type_invariant(self);
        }
        if self.cur_idx > 0 {
            Some(&self.tokens[self.cur_idx - 1])
        } else {
            None
        }
    }

    /// The source line that the cursor's position belongs to.
    pub fn current_line(&self) -> (line: usize)
        ensures
            line == line_at(self.tokens(), self.cursor()),
    {
        if self.cur_idx < self.tokens.len() {
            self.tokens[self.cur_idx].line
        } else if self.tokens.len() > 0 {
            self.tokens[self.tokens.len() - 1].line
        } else {
            0
        }
    }

    /// Moves past the token under the cursor if it has the given type, and
    /// says whether it did.
    pub fn consume_match(&mut self, token_type: TokenType) -> (matched: bool)
        ensures
            final(self).same_program(old(self)),
            matched == (type_at(old(self).tokens(), old(self).cursor()) == Some(token_type)),
            final(self).cursor() == old(self).cursor() + if matched {
                1int
            } else {
                0int
            },
    {
        let matched = self.peek_match(token_type);
        if matched {
            self.advance();
        }
        matched
    }

    /// Moves past the token under the cursor if its type is one of the given
    /// ones, and says whether it did.
    pub fn consume_first_match(&mut self, token_types: &[TokenType]) -> (matched: bool)
        ensures
            final(self).same_program(old(self)),
            matched == match type_at(old(self).tokens(), old(self).cursor()) {
                Some(found) => token_types@.contains(found),
                None => false,
            },
            final(self).cursor() == old(self).cursor() + if matched {
                1int
            } else {
                0int
            },
    {
        let matched = self.peek_first_match(token_types);
        if matched {
            self.advance();
        }
        matched
    }

    /// Whether the token under the cursor has the given type. The cursor
    /// stays.
    pub fn peek_match(&self, token_type: TokenType) -> (matched: bool)
        ensures
            matched == (type_at(self.tokens(), self.cursor()) == Some(token_type)),
    {
        match self.peek() {
            Some(t) => t.token_type == token_type,
            None => false,
        }
    }

    /// Whether the type of the token under the cursor is one of the given
    /// ones. The cursor stays.
    pub fn peek_first_match(&self, token_types: &[TokenType]) -> (matched: bool)
        ensures
            matched == match type_at(self.tokens(), self.cursor()) {
                Some(found) => token_types@.contains(found),
                None => false,
            },
    {
        let found = match self.peek() {
            Some(t) => t.token_type,
            None => return false,
        };
        let mut i: usize = 0;
        while i < token_types.len()
            invariant
                i <= token_types@.len(),
                type_at(self.tokens(), self.cursor()) == Some(found),
                forall|j: int| 0 <= j < i ==> token_types@[j] != found,
            decreases token_types@.len() - i,
        {
            if token_types[i] == found {
                return true;
            }
            i += 1;
        }
        false
    }

    /// Assembles the token stream: lays it out and collects the labels, then
    /// encodes it. Gives the bytes of the image, or the first error.
    pub fn run(&mut self) -> (image: Result<Vec<u8>, AssemblerErr>)
        ensures
            final(self).tokens() == old(self).tokens(),
            final(self).output_name() == old(self).output_name(),
            match assemble(old(self).tokens()) {
                Ok(bytes) => image matches Ok(found) && found@ == bytes && final(self).symbols()
                    == symbols_of(old(self).tokens()) && final(self).init_pc() == code_start(
                    old(self).tokens(),
                ) && final(self).cursor() == old(self).tokens().len(),
                Err(e) => image matches Err(found) && found@ == e && final(self).cursor() == 0,
            },
            match layout_failure(old(self).tokens(), old(self).tokens().len() as int) {
                Some(_) => final(self).symbols() == Map::<Seq<char>, SymbolView>::empty()
                    && final(self).init_pc() == old(self).init_pc(),
                None => final(self).symbols() == symbols_of(old(self).tokens())
                    && final(self).init_pc() == code_start(old(self).tokens()),
            },
    {
        self.pass_one()?;
        self.pass_two()
    }

    /// The first pass. Starts from an empty table at the start of the stream,
    /// enters every label at the offset of the statement it marks, and finds
    /// the offset of the first instruction. Stops at a label that is defined
    /// twice and at a statement that would end beyond the largest offset, and
    /// then leaves the table empty and the cursor at the start.
    pub fn pass_one(&mut self) -> (laid_out: Result<(), AssemblerErr>)
        ensures
            final(self).tokens() == old(self).tokens(),
            final(self).output_name() == old(self).output_name(),
            match layout_failure(old(self).tokens(), old(self).tokens().len() as int) {
                Some(i) => laid_out matches Err(found) && found@ == layout_error(
                    old(self).tokens(),
                    i,
                ) && final(self).cursor() == 0 && final(self).symbols() == Map::<
                    Seq<char>,
                    SymbolView,
                >::empty() && final(self).init_pc() == old(self).init_pc(),
                None => laid_out is Ok && final(self).symbols() == symbols_of(old(self).tokens())
                    && final(self).init_pc() == code_start(old(self).tokens()) && code_start(
                    old(self).tokens(),
                ) <= max_offset() && final(self).cursor() == old(self).tokens().len(),
            },
    {
        self.reset();
        self.symbol_table = SymbolTable::new();
        let mut lc: usize = 4;
        let mut first_instruction: Option<usize> = None;
        while !self.reached_eof()
            invariant
                self.tokens() == old(self).tokens(),
                self.output_name() == old(self).output_name(),
                self.init_pc() == old(self).init_pc(),
                0 <= self.cursor() <= self.tokens().len(),
                lc == offset_at(self.tokens(), self.cursor()),
                lc <= max_offset(),
                self.symbols() == symbols_upto(self.tokens(), self.cursor()),
                layout_failure(self.tokens(), self.cursor()) is None,
                match first_instruction {
                    Some(offset) => offset == code_start(self.tokens()) && offset <= max_offset(),
                    None => first_instruction_from(self.tokens(), 0) == first_instruction_from(
                        self.tokens(),
                        self.cursor(),
                    ),
                },
            decreases self.tokens().len() - self.cursor(),
        {
            let ghost tokens = self.tokens();
            let ghost i = self.cursor();
            let at = self.cur_idx;
            if self.consume_match(TokenType::Label) {
                let label = self.last_consumed();
                let symbol = Symbol::new(
                    Token::new(TokenType::Label, Self::label_name(&label.lexeme), label.line),
                    lc,
                );
                let entered = self.enter(&symbol);
                proof {
                    lemma_symbols_domain(tokens, i, label_name(tokens[i].lexeme));
                    assert(symbol@ == symbol_at(tokens, i));
                    assert(statement_size(tokens, i) == 0);
                    lemma_first_instruction_step(tokens, i);
                }
                match entered {
                    Ok(_) => {},
                    Err(SymbolTableErr::AlreadyExists(refused)) => {
                        proof {
                            let name = label_name(tokens[i].lexeme);
                            let earlier = choose|earlier: int|
                                0 <= earlier < i && #[trigger] defines(tokens, earlier, name);
                            assert(defines(tokens, earlier, name));
                            assert(redefines(tokens, i));
                            lemma_layout_failure_stays(tokens, i, tokens.len() as int);
                        }
                        self.reset();
                        self.symbol_table = SymbolTable::new();
                        return Err(
                            AssemblerErr::DuplicateSymbol(
                                refused.token.lexeme,
                                refused.token.line,
                            ),
                        );
                    },
                }
                proof {
                    assert(!redefines(tokens, i)) by {
                        if redefines(tokens, i) {
                            let name = label_name(tokens[i].lexeme);
                            let earlier = choose|earlier: int|
                                0 <= earlier < i && #[trigger] defines(tokens, earlier, name)
                                    && type_at(tokens, i) == Some(TokenType::Label);
                            assert(defines(tokens, earlier, name));
                        }
                    }
                }
            } else {
                if first_instruction.is_none() && self.peek_first_match(&INS_TOKEN_TYPES) {
                    first_instruction = Some(lc);
                }
                proof {
                    lemma_ins_token_types(tokens[i].token_type);
                    if !is_instruction(tokens[i].token_type) {
                        lemma_first_instruction_step(tokens, i);
                    }
                    assert(!redefines(tokens, i));
                    lemma_operands_change_nothing(tokens, i + 1, next_statement(tokens, i + 1));
                }
                let num = self.consume_num_bytes();
                if self.cur_idx == at {
                    self.advance();
                } else {
                    if num > 2147483647 - lc {
                        proof {
                            assert(layout_fails_at(tokens, i));
                            lemma_layout_failure_stays(tokens, i, tokens.len() as int);
                        }
                        let keyword = &self.tokens[at];
                        self.reset();
                        self.symbol_table = SymbolTable::new();
                        return Err(AssemblerErr::InvalidToken(keyword.clone(), keyword.line));
                    }
                    lc += num;
                }
            }
        }
        self.init_pc = match first_instruction {
            Some(offset) => offset as i32,
            None => lc as i32,
        };
        Ok(())
    }

    /// The second pass. Starts again at the start of the stream and writes
    /// the header, the directives and the instructions, with label references
    /// resolved against the table as it is. After an error the cursor is back
    /// at the start.
    pub fn pass_two(&mut self) -> (image: Result<Vec<u8>, AssemblerErr>)
        ensures
            final(self).same_program(old(self)),
            match body_of(old(self).tokens(), old(self).symbols()) {
                Ok(body) => image matches Ok(found) && found@ == spec_i32_bytes_le(
                    old(self).init_pc(),
                ) + body && final(self).cursor() == old(self).tokens().len(),
                Err(e) => image matches Err(found) && found@ == e && final(self).cursor() == 0,
            },
    {
        self.reset();
        let mut writer: Vec<u8> = Vec::new();
        let header = i32_bytes_le(self.init_pc);
        writer.push(header[0]);
        writer.push(header[1]);
        writer.push(header[2]);
        writer.push(header[3]);
        assert(writer@ =~= spec_i32_bytes_le(self.init_pc()));
        let ghost mut data: Seq<u8> = Seq::empty();
        assert(writer@ =~= spec_i32_bytes_le(self.init_pc()) + data);
        loop
            invariant
                self.same_program(old(self)),
                0 <= self.cursor() <= self.tokens().len(),
                writer@ == spec_i32_bytes_le(self.init_pc()) + data,
                match directives_from(self.tokens(), self.cursor()) {
                    Ok((rest, end)) => directives_from(self.tokens(), 0) == Ok::<
                        (Seq<u8>, int),
                        AssemblerErrView,
                    >((data + rest, end)),
                    Err(e) => directives_from(self.tokens(), 0) == Err::<
                        (Seq<u8>, int),
                        AssemblerErrView,
                    >(e),
                },
            ensures
                self.same_program(old(self)),
                0 <= self.cursor() <= self.tokens().len(),
                writer@ == spec_i32_bytes_le(self.init_pc()) + data,
                directives_from(self.tokens(), 0) == Ok::<(Seq<u8>, int), AssemblerErrView>(
                    (data, self.cursor()),
                ),
            decreases self.tokens().len() - self.cursor(),
        {
            let ghost before = data;
            let read = match self.consume_next_directive() {
                Ok(read) => read,
                Err(e) => {
                    self.reset();
                    return Err(e);
                },
            };
            match read {
                Some(directive) => {
                    directive.write(&mut writer);
                    proof {
                        data = data + crate::assembly::directive::directive_bytes(directive@);
                        assert(writer@ =~= spec_i32_bytes_le(self.init_pc()) + data);
                        match directives_from(self.tokens(), self.cursor()) {
                            Ok((rest, end)) => {
                                assert(before + (crate::assembly::directive::directive_bytes(
                                    directive@,
                                ) + rest) =~= data + rest);
                            },
                            Err(_) => {},
                        }
                    }
                },
                None => {
                    assert(data + Seq::<u8>::empty() =~= data);
                    break;
                },
            }
        }
        let ghost start = self.cursor();
        let ghost mut code: Seq<u8> = Seq::empty();
        assert(writer@ =~= spec_i32_bytes_le(self.init_pc()) + data + code);
        while !self.reached_eof()
            invariant
                self.same_program(old(self)),
                0 <= self.cursor() <= self.tokens().len(),
                writer@ == spec_i32_bytes_le(self.init_pc()) + data + code,
                directives_from(self.tokens(), 0) == Ok::<(Seq<u8>, int), AssemblerErrView>(
                    (data, start),
                ),
                match instructions_from(self.tokens(), self.cursor(), self.symbols()) {
                    Ok(rest) => instructions_from(self.tokens(), start, self.symbols()) == Ok::<
                        Seq<u8>,
                        AssemblerErrView,
                    >(code + rest),
                    Err(e) => instructions_from(self.tokens(), start, self.symbols()) == Err::<
                        Seq<u8>,
                        AssemblerErrView,
                    >(e),
                },
            decreases self.tokens().len() - self.cursor(),
        {
            let ghost before = code;
            let instruction = match self.consume_next_instruction() {
                Ok(instruction) => instruction,
                Err(e) => {
                    self.reset();
                    return Err(e);
                },
            };
            instruction.write(&mut writer);
            proof {
                code = code + crate::vm::instruction::encode(instruction);
                assert(writer@ =~= spec_i32_bytes_le(self.init_pc()) + data + code);
                match instructions_from(self.tokens(), self.cursor(), self.symbols()) {
                    Ok(rest) => {
                        assert(before + (crate::vm::instruction::encode(instruction) + rest)
                            =~= code + rest);
                    },
                    Err(_) => {},
                }
            }
        }
        proof {
            assert(code + Seq::<u8>::empty() =~= code);
            assert(writer@ =~= spec_i32_bytes_le(self.init_pc()) + (data + code));
        }
        Ok(writer)
    }

    /// Enters a symbol into the table. The table is taken out of the
    /// assembler while it is changed and put back afterwards.
    fn enter(&mut self, symbol: &Symbol) -> (entered: Result<(), SymbolTableErr>)
        ensures
            final(self).tokens() == old(self).tokens(),
            final(self).cursor() == old(self).cursor(),
            final(self).init_pc() == old(self).init_pc(),
            final(self).output_name() == old(self).output_name(),
            old(self).symbols().contains_key(symbol.token.lexeme@) ==> entered == Err::<
                (),
                SymbolTableErr,
            >(SymbolTableErr::AlreadyExists(*symbol)) && final(self).symbols()
                == old(self).symbols(),
            !old(self).symbols().contains_key(symbol.token.lexeme@) ==> entered is Ok
                && final(self).symbols() == old(self).symbols().insert(
                symbol.token.lexeme@,
                symbol@,
            ),
    {
        proof {
            use_type_invariant(&*self);
        }
        let mut table = SymbolTable::new();
        core::mem::swap(&mut self.symbol_table, &mut table);
        let entered = table.insert(symbol);
        core::mem::swap(&mut self.symbol_table, &mut table);
        entered
    }

    /// The name that a label definition introduces: its text without the
    /// colon that ends it.
    fn label_name(lexeme: &String) -> (name: String)
        ensures
            name@ == label_name(lexeme@),
    {
        let text = lexeme.as_str();
        let len = text.unicode_len();
        if len == 0 {
            return lexeme.clone();
        }
        let name = text.substring_char(0, len - 1).to_owned();
        assert(name@ =~= lexeme@.drop_last());
        name
    }

    /// Encodes the directive statement under the cursor, if one stands
    /// there: an optional label definition, a directive keyword and at most
    /// one literal. Where none stands there, or one that is in error, the
    /// cursor stays.
    pub fn consume_next_directive(&mut self) -> (directive: Result<
        Option<Directive>,
        AssemblerErr,
    >)
        ensures
            final(self).same_program(old(self)),
            match directive_at(old(self).tokens(), old(self).cursor()) {
                Ok(Some((expected, next))) => directive matches Ok(Some(found)) && found@
                    == expected && final(self).cursor() == next && old(self).cursor() < next
                    <= old(self).tokens().len(),
                Ok(None) => directive matches Ok(None) && final(self).cursor()
                    == old(self).cursor(),
                Err(e) => directive matches Err(found) && found@ == e && final(self).cursor()
                    == old(self).cursor(),
            },
    {
        proof {
            use_type_invariant(&*self);
        }
        let start = self.cur_idx;
        let found_label = self.consume_match(TokenType::Label);

        if !self.consume_first_match(&DIR_TOKEN_TYPES) {
            proof {
                let j = self.cursor();
                if type_at(self.tokens(), j) is Some {
                    lemma_dir_token_types(self.tokens()[j].token_type);
                }
            }
            if found_label {
                self.retract();
            }
            return Ok(None);
        }
        let dir_type = self.last_consumed();
        proof {
            lemma_dir_token_types(dir_type.token_type);
        }

        let token_types = [TokenType::CharImm, TokenType::IntImm, TokenType::StrImm];
        let dir_value = if self.consume_first_match(&token_types) {
            Some(self.last_consumed())
        } else {
            None
        };

        match Directive::try_from(dir_type, dir_value) {
            Ok(d) => Ok(Some(d)),
            Err(_) => {
                let culprit = match dir_value {
                    Some(value) => value,
                    None => dir_type,
                };
                self.give_up(start, AssemblerErr::InvalidToken(culprit.clone(), culprit.line))
            },
        }
    }

    /// Moves past the statement under the cursor, up to the next label
    /// definition or keyword, and gives the number of bytes that the
    /// statement takes in the image. Where no keyword stands under the cursor
    /// the cursor stays and the number is 0.
    pub fn consume_num_bytes(&mut self) -> (num_bytes: usize)
        ensures
            final(self).same_program(old(self)),
            match type_at(old(self).tokens(), old(self).cursor()) {
                Some(keyword) => if is_directive(keyword) || is_instruction(keyword) {
                    num_bytes == statement_size(old(self).tokens(), old(self).cursor())
                        && final(self).cursor() == next_statement(
                        old(self).tokens(),
                        old(self).cursor() + 1,
                    )
                } else {
                    num_bytes == 0 && final(self).cursor() == old(self).cursor()
                },
                None => num_bytes == 0 && final(self).cursor() == old(self).cursor(),
            },
    {
        proof {
            use_type_invariant(&*self);
            if type_at(self.tokens(), self.cursor()) is Some {
                lemma_dir_token_types(self.tokens()[self.cursor()].token_type);
                lemma_ins_token_types(self.tokens()[self.cursor()].token_type);
            }
        }
        let num_bytes = if self.consume_first_match(&DIR_TOKEN_TYPES) {
            match self.last_consumed().token_type {
                TokenType::BytDir => 1,
                TokenType::IntDir => 4,
                _ => {
                    if self.consume_match(TokenType::StrImm) {
                        let literal = self.last_consumed();
                        match Directive::parse_str(&literal.lexeme) {
                            Some(_) => {
                                proof {
                                    lemma_quoted_size(literal.lexeme@, '"');
                                }
                                let length = literal.lexeme.as_str().as_bytes().len();
                                // one less for each quote, one more for the length byte
                                length - 2 + 1
                            },
                            None => 1,
                        }
                    } else {
                        1
                    }
                },
            }
        } else if self.consume_first_match(&INS_TOKEN_TYPES) {
            12
        } else {
            return 0;
        };
        self.skip_operands();
        num_bytes
    }

    /// Moves the cursor to the next label definition or keyword, or to the
    /// end of the stream.
    fn skip_operands(&mut self)
        ensures
            final(self).same_program(old(self)),
            final(self).cursor() == next_statement(old(self).tokens(), old(self).cursor()),
    {
        proof {
            use_type_invariant(&*self);
        }
        while !self.peek_first_match(&DIR_TOKEN_TYPES) && !self.peek_first_match(&INS_TOKEN_TYPES)
            && !self.peek_match(TokenType::Label) && !self.reached_eof()
            invariant
                self.same_program(old(self)),
                0 <= self.cursor() <= self.tokens().len(),
                next_statement(self.tokens(), self.cursor()) == next_statement(
                    old(self).tokens(),
                    old(self).cursor(),
                ),
            decreases self.tokens().len() - self.cursor(),
        {
            proof {
                lemma_dir_token_types(self.tokens()[self.cursor()].token_type);
                lemma_ins_token_types(self.tokens()[self.cursor()].token_type);
            }
            self.advance();
        }
        proof {
            if self.cursor() < self.tokens().len() {
                lemma_dir_token_types(self.tokens()[self.cursor()].token_type);
                lemma_ins_token_types(self.tokens()[self.cursor()].token_type);
            }
        }
    }

    /// Gives a statement up: puts the cursor back where the statement began
    /// and hands the error on.
    fn give_up<T>(&mut self, start: usize, error: AssemblerErr) -> (failed: Result<
        T,
        AssemblerErr,
    >)
        requires
            start <= old(self).cursor(),
        ensures
            final(self).same_program(old(self)),
            final(self).cursor() == start,
            failed matches Err(found) && found == error,
    {
        proof {
            use_type_invariant(&*self);
        }
        self.cur_idx = start;
        Err(error)
    }

    /// The token before the cursor, which the last successful match moved
    /// past.
    fn last_consumed(&self) -> (token: &'a Token)
        requires
            self.cursor() > 0,
        ensures
            self.cursor() <= self.tokens().len(),
            token@ == self.tokens()[self.cursor() - 1],
    {
        proof {
            use_type_invariant(self);
        }
        &self.tokens[self.cur_idx - 1]
    }

    /// Reads a register operand.
    fn consume_register(&mut self) -> (index: Result<i32, AssemblerErr>)
        ensures
            final(self).same_program(old(self)),
            agrees(index, register_operand(old(self).tokens(), old(self).cursor())),
            index is Ok ==> final(self).cursor() == old(self).cursor() + 1,
            old(self).cursor() <= final(self).cursor() <= final(self).tokens().len(),
    {
        proof {
            use_type_invariant(&*self);
        }
        if !self.consume_match(TokenType::Rg) {
            return Err(AssemblerErr::ExpectedTokenType(TokenType::Rg, self.current_line()));
        }
        let token = self.last_consumed();
        match Self::i32_try_from_rg_str(&token.lexeme) {
            Ok(i) => Ok(i),
            Err(_) => Err(AssemblerErr::InvalidRg(token.lexeme.clone(), token.line)),
        }
    }

    /// Reads the comma between two operands.
    fn consume_comma(&mut self) -> (missing: Result<(), AssemblerErr>)
        ensures
            final(self).same_program(old(self)),
            match comma_missing(old(self).tokens(), old(self).cursor()) {
                None => missing is Ok && final(self).cursor() == old(self).cursor() + 1,
                Some(e) => missing matches Err(found) && found@ == e,
            },
            old(self).cursor() <= final(self).cursor() <= final(self).tokens().len(),
    {
        proof {
            use_type_invariant(&*self);
        }
        if !self.consume_match(TokenType::Comma) {
            return Err(AssemblerErr::ExpectedTokenType(TokenType::Comma, self.current_line()));
        }
        Ok(())
    }

    /// Reads a register operand and the comma after it.
    fn consume_register_and_comma(&mut self) -> (index: Result<i32, AssemblerErr>)
        ensures
            final(self).same_program(old(self)),
            agrees(index, register_and_comma(old(self).tokens(), old(self).cursor())),
            index is Ok ==> final(self).cursor() == old(self).cursor() + 2,
            old(self).cursor() <= final(self).cursor() <= final(self).tokens().len(),
    {
        let index = self.consume_register()?;
        self.consume_comma()?;
        Ok(index)
    }

    /// The offset that a label reference stands for.
    fn resolve(&self, name: &Token) -> (offset: Result<i32, AssemblerErr>)
        ensures
            agrees(offset, crate::assembly::grammar::resolve(self.symbols(), name@)),
    {
        match self.symbol_table.get(&name.lexeme) {
            Some(symbol) => Ok(#[verifier::truncate] (symbol.offset as i32)),
            None => Err(AssemblerErr::NonexistentLabel(name.lexeme.clone(), name.line)),
        }
    }

    /// Reads a label reference and resolves it.
    fn consume_label(&mut self) -> (offset: Result<i32, AssemblerErr>)
        ensures
            final(self).same_program(old(self)),
            agrees(
                offset,
                label_operand(old(self).tokens(), old(self).cursor(), old(self).symbols()),
            ),
            offset is Ok ==> final(self).cursor() == old(self).cursor() + 1,
            old(self).cursor() <= final(self).cursor() <= final(self).tokens().len(),
    {
        proof {
            use_type_invariant(&*self);
        }
        if !self.consume_match(TokenType::LabelOp) {
            return Err(AssemblerErr::ExpectedTokenType(TokenType::LabelOp, self.current_line()));
        }
        self.resolve(self.last_consumed())
    }

    /// Reads an immediate operand: an integer or a character literal.
    fn consume_immediate(&mut self) -> (value: Result<i32, AssemblerErr>)
        ensures
            final(self).same_program(old(self)),
            agrees(value, immediate_operand(old(self).tokens(), old(self).cursor())),
            value is Ok ==> final(self).cursor() == old(self).cursor() + 1,
            old(self).cursor() <= final(self).cursor() <= final(self).tokens().len(),
    {
        proof {
            use_type_invariant(&*self);
        }
        let token_types = [TokenType::IntImm, TokenType::CharImm];
        if !self.consume_first_match(&token_types) {
            return Err(AssemblerErr::ExpectedTokenType(TokenType::IntImm, self.current_line()));
        }
        let imm_token = self.last_consumed();
        let parsed = match imm_token.token_type {
            TokenType::IntImm => Self::i32_try_from_int_imm_str(&imm_token.lexeme),
            _ => Self::i32_try_from_char_imm_str(&imm_token.lexeme),
        };
        match parsed {
            Ok(i) => Ok(i),
            Err(_) => Err(AssemblerErr::InvalidToken(imm_token.clone(), imm_token.line)),
        }
    }

    /// Reads the number of a trap.
    fn consume_trap_number(&mut self) -> (number: Result<i32, AssemblerErr>)
        ensures
            final(self).same_program(old(self)),
            agrees(number, trap_operand(old(self).tokens(), old(self).cursor())),
            number is Ok ==> final(self).cursor() == old(self).cursor() + 1,
            old(self).cursor() <= final(self).cursor() <= final(self).tokens().len(),
    {
        proof {
            use_type_invariant(&*self);
        }
        if !self.consume_match(TokenType::IntImm) {
            return Err(AssemblerErr::ExpectedTokenType(TokenType::IntImm, self.current_line()));
        }
        let token = self.last_consumed();
        match Self::i32_try_from_int_imm_str(&token.lexeme) {
            Ok(i) => {
                if i < 0 || i > 4 {
                    return Err(AssemblerErr::InvalidToken(token.clone(), token.line));
                }
                Ok(i)
            },
            Err(_) => Err(AssemblerErr::ExpectedTokenType(TokenType::IntImm, token.line)),
        }
    }

    /// Reads the second operand of a load or store and picks the opcode by
    /// the operand's form: direct for a label reference, register-indirect
    /// for a register.
    fn consume_address(&mut self, mnemonic: TokenType) -> (operand: Result<
        (Opcode, i32),
        AssemblerErr,
    >)
        ensures
            final(self).same_program(old(self)),
            agrees(
                operand,
                address_operand(
                    old(self).tokens(),
                    old(self).cursor(),
                    mnemonic,
                    old(self).symbols(),
                ),
            ),
            operand is Ok ==> final(self).cursor() == old(self).cursor() + 1,
            old(self).cursor() <= final(self).cursor() <= final(self).tokens().len(),
    {
        proof {
            use_type_invariant(&*self);
        }
        let token_types = [TokenType::LabelOp, TokenType::Rg];
        if !self.consume_first_match(&token_types) {
            return Err(AssemblerErr::ExpectedTokenType(TokenType::LabelOp, self.current_line()));
        }
        let token = self.last_consumed();
        let opcode = match Opcode::try_from((mnemonic, token.token_type)) {
            Ok(o) => o,
            Err(_) => return Err(
                AssemblerErr::ExpectedTokenType(TokenType::LabelOp, token.line),
            ),
        };
        match token.token_type {
            TokenType::LabelOp => {
                let offset = self.resolve(token)?;
                Ok((opcode, offset))
            },
            _ => match Self::i32_try_from_rg_str(&token.lexeme) {
                Ok(i) => Ok((opcode, i)),
                Err(_) => Err(AssemblerErr::InvalidRg(token.lexeme.clone(), token.line)),
            },
        }
    }

    /// Encodes the instruction statement under the cursor: an optional
    /// label definition, a mnemonic and the operands that the mnemonic takes.
    /// The cursor ends after the statement's last token, or where it was if
    /// the statement is in error.
    pub fn consume_next_instruction(&mut self) -> (instruction: Result<Instruction, AssemblerErr>)
        ensures
            final(self).same_program(old(self)),
            match instruction_at(old(self).tokens(), old(self).cursor(), old(self).symbols()) {
                Ok((expected, next)) => instruction matches Ok(found) && found == expected
                    && final(self).cursor() == next && old(self).cursor() < next
                    <= old(self).tokens().len(),
                Err(e) => instruction matches Err(found) && found@ == e && final(self).cursor()
                    == old(self).cursor(),
            },
    {
        proof {
            use_type_invariant(&*self);
        }
        let start = self.cur_idx;
        self.consume_match(TokenType::Label);
        if !self.consume_first_match(&INS_TOKEN_TYPES) {
            proof {
                let j = self.cursor();
                if type_at(self.tokens(), j) is Some {
                    lemma_ins_token_types(self.tokens()[j].token_type);
                }
            }
            let line = self.current_line();
            return self.give_up(start, AssemblerErr::ExpectedOpcode(line));
        }
        let mnemonic = self.last_consumed().token_type;
        proof {
            lemma_ins_token_types(mnemonic);
        }
        let opcode = match Opcode::try_from(mnemonic) {
            Ok(o) => o,
            Err(_) => {
                let line = self.current_line();
                return self.give_up(start, AssemblerErr::ExpectedOpcode(line));
            },
        };
        match mnemonic {
            TokenType::Jmp => {
                let target = match self.consume_label() {
                    Ok(read) => read,
                    Err(e) => return self.give_up(start, e),
                };
                Ok(Instruction { opcode, op1: target, op2: 0 })
            },
            TokenType::Jmr | TokenType::Push | TokenType::Peek | TokenType::Pop => {
                let rg = match self.consume_register() {
                    Ok(read) => read,
                    Err(e) => return self.give_up(start, e),
                };
                Ok(Instruction { opcode, op1: rg, op2: 0 })
            },
            TokenType::Bnz
            | TokenType::Bgt
            | TokenType::Blt
            | TokenType::Brz
            | TokenType::Bal
            | TokenType::Lda => {
                let rg = match self.consume_register_and_comma() {
                    Ok(read) => read,
                    Err(e) => return self.give_up(start, e),
                };
                let target = match self.consume_label() {
                    Ok(read) => read,
                    Err(e) => return self.give_up(start, e),
                };
                Ok(Instruction { opcode, op1: rg, op2: target })
            },
            TokenType::Mov
            | TokenType::And
            | TokenType::Or
            | TokenType::Not
            | TokenType::Cmp
            | TokenType::Allc
            | TokenType::Add
            | TokenType::Sub
            | TokenType::Mul
            | TokenType::Div => {
                let rd = match self.consume_register_and_comma() {
                    Ok(read) => read,
                    Err(e) => return self.give_up(start, e),
                };
                let rs = match self.consume_register() {
                    Ok(read) => read,
                    Err(e) => return self.give_up(start, e),
                };
                Ok(Instruction { opcode, op1: rd, op2: rs })
            },
            TokenType::Movi
            | TokenType::Cmpi
            | TokenType::Adi
            | TokenType::Muli
            | TokenType::Divi
            | TokenType::Alci => {
                let rd = match self.consume_register_and_comma() {
                    Ok(read) => read,
                    Err(e) => return self.give_up(start, e),
                };
                let imm = match self.consume_immediate() {
                    Ok(read) => read,
                    Err(e) => return self.give_up(start, e),
                };
                Ok(Instruction { opcode, op1: rd, op2: imm })
            },
            TokenType::Str | TokenType::Ldr | TokenType::Stb | TokenType::Ldb => {
                let op_1 = match self.consume_register_and_comma() {
                    Ok(read) => read,
                    Err(e) => return self.give_up(start, e),
                };
                let (opcode, op_2) = match self.consume_address(mnemonic) {
                    Ok(read) => read,
                    Err(e) => return self.give_up(start, e),
                };
                Ok(Instruction { opcode, op1: op_1, op2: op_2 })
            },
            TokenType::Trp => {
                let op1 = match self.consume_trap_number() {
                    Ok(read) => read,
                    Err(e) => return self.give_up(start, e),
                };
                Ok(Instruction { opcode, op1, op2: 0 })
            },
            _ => {
                let line = self.current_line();
                self.give_up(start, AssemblerErr::ExpectedOpcode(line))
            },
        }
    }

    /// Reads the index of a register from its text: `R` and a decimal
    /// numeral.
    pub fn i32_try_from_rg_str(rg_str: &String) -> (index: Result<i32, ()>)
        ensures
            match index {
                Ok(i) => register_index(rg_str@) == Some(i),
                Err(_) => register_index(rg_str@) is None,
            },
    {
        let text = rg_str.as_str();
        let len = text.unicode_len();
        if len < 2 || text.get_char(0) != 'R' {
            return Err(());
        }
        match parse_digits(text, 1, len, 2147483647) {
            Some(i) => Ok(i as i32),
            None => Err(()),
        }
    }

    /// Reads the value of a character literal: the code point of the one
    /// character between its quotes.
    pub fn i32_try_from_char_imm_str(imm_str: &String) -> (value: Result<i32, ()>)
        ensures
            match value {
                Ok(i) => char_operand_value(imm_str@) == Some(i),
                Err(_) => char_operand_value(imm_str@) is None,
            },
    {
        match unquote(imm_str, '\'') {
            Some(content) => {
                let text = content.as_str();
                if text.unicode_len() == 1 {
                    Ok((text.get_char(0) as u32) as i32)
                } else {
                    Err(())
                }
            },
            None => Err(()),
        }
    }

    /// Reads the value of an integer literal.
    pub fn i32_try_from_int_imm_str(imm_str: &String) -> (value: Result<i32, ()>)
        ensures
            match value {
                Ok(i) => int_literal_value(imm_str@) == Some(i),
                Err(_) => int_literal_value(imm_str@) is None,
            },
    {
        Directive::parse_int(imm_str)
    }
}

} // verus!
