//! The lexical patterns of the assembly language and the matching engine
//! behind them.
//!
//! A line is cut into lexemes by one combined pattern. Each lexeme is then
//! held against an ordered list of patterns, one per token type, and takes
//! the type of the first that matches. The order matters: a register or a
//! mnemonic also has the shape of a label reference, so the patterns of
//! literals, punctuation, registers and keywords come before those of labels.

use crate::assembly::token::TokenType;
use vstd::prelude::*;

verus! {

/// The pattern that cuts a line into lexemes: a comment up to the end of
/// the line, a string literal, a character literal, a comma, or a run of
/// characters that are neither blank nor comma nor semicolon.
pub const ANY_PATTERN: &'static str = ";.*|\"[^\"]*\"|'(\\\\.|[^'\\\\])'|,|[^\\s,;]+";

/// Number of entries in `LEXICAL_RULES`.
pub const NUM_RULES: usize = 46;

/// The patterns of the token types, in the order in which a lexeme is held
/// against them. Every pattern covers the whole lexeme.
pub const LEXICAL_RULES: [(&'static str, TokenType); NUM_RULES] = [
    ("^#?[+-]?[0-9]+$", TokenType::IntImm),
    ("^\"[^\"]*\"$", TokenType::StrImm),
    ("^'(\\\\.|[^'\\\\])'$", TokenType::CharImm),
    ("^,$", TokenType::Comma),
    ("^\\.(int|INT)$", TokenType::IntDir),
    ("^\\.(byt|BYT)$", TokenType::BytDir),
    ("^\\.(str|STR)$", TokenType::StrDir),
    ("^R[0-9]+$", TokenType::Rg),
    ("^PC$", TokenType::Pc),
    ("^SP$", TokenType::Sp),
    ("^HP$", TokenType::Hp),
    ("^JMP$", TokenType::Jmp),
    ("^JMR$", TokenType::Jmr),
    ("^BNZ$", TokenType::Bnz),
    ("^BGT$", TokenType::Bgt),
    ("^BLT$", TokenType::Blt),
    ("^BRZ$", TokenType::Brz),
    ("^BAL$", TokenType::Bal),
    ("^MOVI$", TokenType::Movi),
    ("^MOV$", TokenType::Mov),
    ("^LDA$", TokenType::Lda),
    ("^STR$", TokenType::Str),
    ("^LDR$", TokenType::Ldr),
    ("^STB$", TokenType::Stb),
    ("^LDB$", TokenType::Ldb),
    ("^PUSH$", TokenType::Push),
    ("^POP$", TokenType::Pop),
    ("^PEEK$", TokenType::Peek),
    ("^AND$", TokenType::And),
    ("^OR$", TokenType::Or),
    ("^NOT$", TokenType::Not),
    ("^CMP$", TokenType::Cmp),
    ("^CMPI$", TokenType::Cmpi),
    ("^ADD$", TokenType::Add),
    ("^ADI$", TokenType::Adi),
    ("^SUB$", TokenType::Sub),
    ("^MUL$", TokenType::Mul),
    ("^MULI$", TokenType::Muli),
    ("^DIV$", TokenType::Div),
    ("^DIVI$", TokenType::Divi),
    ("^ALCI$", TokenType::Alci),
    ("^ALLC$", TokenType::Allc),
    ("^TRP$", TokenType::Trp),
    ("^;.*$", TokenType::Comment),
    ("^[A-Za-z_][A-Za-z0-9_]*:$", TokenType::Label),
    ("^[A-Za-z_][A-Za-z0-9_]*$", TokenType::LabelOp),
];

/// Whether a regular expression matches somewhere in a text, as the `regex`
/// crate decides it; `None` if the crate does not accept the pattern.
pub uninterp spec fn regex_is_match(pattern: Seq<char>, haystack: Seq<char>) -> Option<bool>;

/// The successive matches of a regular expression in a text that do not
/// overlap, from left to right, as the `regex` crate finds them; `None` if
/// the crate does not accept the pattern.
pub uninterp spec fn regex_find_all(pattern: Seq<char>, haystack: Seq<char>) -> Option<
    Seq<Seq<char>>,
>;

/// The texts of a list of strings.
pub open spec fn texts(strings: Seq<String>) -> Seq<Seq<char>> {
    strings.map_values(|s: String| s@)
}

/// The texts of a list of strings that may be missing.
pub open spec fn found_texts(found: Option<Vec<String>>) -> Option<Seq<Seq<char>>> {
    match found {
        Some(strings) => Some(texts(strings@)),
        None => None,
    }
}

/// Compiles a pattern with `regex::Regex::new` and asks `Regex::is_match`
/// whether it matches in the text. The contract only gives the answer a
/// name: it is whatever the crate answers for this pattern and this text.
#[verifier::external_body]
pub(crate) fn pattern_matches(pattern: &str, haystack: &str) -> (matched: Option<bool>)
    ensures
        matched == regex_is_match(pattern@, haystack@),
{
    match regex::Regex::new(pattern) {
        Ok(re) => Some(re.is_match(haystack)),
        Err(_) => None,
    }
}

/// Compiles a pattern with `regex::Regex::new` and collects the matches that
/// `Regex::find_iter` yields in the text, each as the text it covers
/// (`Match::as_str`). The contract only gives the list a name: it is whatever
/// the crate finds for this pattern and this text.
#[verifier::external_body]
pub(crate) fn pattern_find_all(pattern: &str, haystack: &str) -> (found: Option<Vec<String>>)
    ensures
        found_texts(found) == regex_find_all(pattern@, haystack@),
{
    match regex::Regex::new(pattern) {
        Ok(re) => Some(re.find_iter(haystack).map(|m| m.as_str().to_owned()).collect()),
        Err(_) => None,
    }
}

} // verus!
