//! Tokens of the assembly language.

use vstd::prelude::*;

verus! {

/// The lexical category of a token.
#[derive(Debug, Clone, Copy, PartialEq, Eq, Structural)]
pub enum TokenType {
    /// A label definition, `name:`.
    Label,
    /// A reference to a label, used as an operand.
    LabelOp,
    IntImm,
    CharImm,
    StrImm,
    Comma,
    IntDir,
    BytDir,
    StrDir,
    /// A general purpose register, `Rn`.
    Rg,
    Pc,
    Sp,
    Hp,
    Jmp,
    Jmr,
    Bnz,
    Bgt,
    Blt,
    Brz,
    Bal,
    Mov,
    Movi,
    Lda,
    Str,
    Ldr,
    Stb,
    Ldb,
    Push,
    Pop,
    Peek,
    And,
    Or,
    Not,
    Cmp,
    Cmpi,
    Add,
    Adi,
    Sub,
    Mul,
    Muli,
    Div,
    Divi,
    Alci,
    Allc,
    Trp,
    Comment,
}

/// One lexeme of the source text with its category and source line.
#[derive(Debug)]
pub struct Token {
    pub token_type: TokenType,
    pub lexeme: String,
    pub line: usize,
}

/// The mathematical content of a [`Token`].
pub struct TokenView {
    pub token_type: TokenType,
    pub lexeme: Seq<char>,
    pub line: usize,
}

impl View for Token {
    type V = TokenView;

    open spec fn view(&self) -> TokenView {
        TokenView { token_type: self.token_type, lexeme: self.lexeme@, line: self.line }
    }
}

impl Clone for Token {
    fn clone(&self) -> (copy: Self)
        ensures
            copy == *self,
    {
        Token { token_type: self.token_type, lexeme: self.lexeme.clone(), line: self.line }
    }
}

impl Token {
    /// A token of a type, with its text and source line.
    pub fn new(token_type: TokenType, lexeme: String, line: usize) -> (token: Self)
        ensures
            token.token_type == token_type,
            token.lexeme == lexeme,
            token.line == line,
    {
        Self { token_type, lexeme, line }
    }
}

/// The views of a sequence of tokens, position by position.
pub open spec fn token_views(tokens: Seq<Token>) -> Seq<TokenView> {
    tokens.map_values(|t: Token| t@)
}

} // verus!
