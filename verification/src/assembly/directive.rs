//! Data directives: `.byt`, `.int` and `.str`, their literals and their
//! encoding in the image.

use crate::assembly::token::{Token, TokenType, TokenView};
use crate::util::decimal::{parse_i32_in, spec_parse_i32};
use crate::util::endianness::{i32_bytes_le, spec_i32_bytes_le};
use crate::vm::register::low_byte;
use vstd::prelude::*;
use vstd::utf8::encode_utf8;

verus! {

/// One datum of the data segment.
#[derive(Debug)]
pub enum Directive {
    /// One byte.
    Byt(u8),
    /// One word, stored least significant byte first.
    Int(i32),
    /// A text, stored as one length byte followed by its UTF-8 bytes.
    Str(String),
}

/// The mathematical content of a [`Directive`].
pub enum DirectiveView {
    Byt(u8),
    Int(i32),
    Str(Seq<char>),
}

impl View for Directive {
    type V = DirectiveView;

    open spec fn view(&self) -> DirectiveView {
        match self {
            Directive::Byt(b) => DirectiveView::Byt(*b),
            Directive::Int(i) => DirectiveView::Int(*i),
            Directive::Str(s) => DirectiveView::Str(s@),
        }
    }
}

/// What stands between the first and the last character of a lexeme that
/// both are `quote`; `None` if the lexeme is not quoted so.
pub open spec fn quoted_content(lexeme: Seq<char>, quote: char) -> Option<Seq<char>> {
    if lexeme.len() >= 2 && lexeme[0] == quote && lexeme.last() == quote {
        Some(lexeme.subrange(1, lexeme.len() - 1))
    } else {
        None
    }
}

/// The low eight bits of a character's code point.
pub open spec fn char_byte(c: char) -> u8 {
    ((c as int) % 256) as u8
}

/// The byte that a character literal denotes in a directive: the escapes
/// `\n`, `\t` and `\r` denote their control characters, any other single
/// character denotes the low eight bits of its code point.
pub open spec fn char_literal_byte(lexeme: Seq<char>) -> Option<u8> {
    match quoted_content(lexeme, '\'') {
        Some(content) => if content == seq!['\\', 'n'] {
            Some(10u8)
        } else if content == seq!['\\', 't'] {
            Some(9u8)
        } else if content == seq!['\\', 'r'] {
            Some(13u8)
        } else if content.len() == 1 {
            Some(char_byte(content[0]))
        } else {
            None
        },
        None => None,
    }
}

/// The number that an integer literal denotes: a signed decimal numeral,
/// which a `#` may precede.
pub open spec fn int_literal_value(lexeme: Seq<char>) -> Option<i32> {
    if lexeme.len() > 0 && lexeme[0] == '#' {
        spec_parse_i32(lexeme.subrange(1, lexeme.len() as int))
    } else {
        spec_parse_i32(lexeme)
    }
}

/// The text that a string literal denotes: what stands between its double
/// quotes.
pub open spec fn str_literal_text(lexeme: Seq<char>) -> Option<Seq<char>> {
    quoted_content(lexeme, '"')
}

/// The directive that a directive keyword and the literal after it denote.
/// Without a literal the datum is zero or the empty text. A byte takes a
/// character or the low eight bits of an integer; a word takes an integer or
/// a character; a text takes a string. `None` for any other pairing and for a
/// literal that denotes nothing.
pub open spec fn directive_of(dir_type: TokenType, dir_value: Option<TokenView>) -> Option<
    DirectiveView,
> {
    match (dir_type, dir_value) {
        (TokenType::BytDir, None) => Some(DirectiveView::Byt(0)),
        (TokenType::IntDir, None) => Some(DirectiveView::Int(0)),
        (TokenType::StrDir, None) => Some(DirectiveView::Str(Seq::empty())),
        (TokenType::BytDir, Some(value)) => match value.token_type {
            TokenType::CharImm => match char_literal_byte(value.lexeme) {
                Some(b) => Some(DirectiveView::Byt(b)),
                None => None,
            },
            TokenType::IntImm => match int_literal_value(value.lexeme) {
                Some(i) => Some(DirectiveView::Byt(low_byte(i))),
                None => None,
            },
            _ => None,
        },
        (TokenType::IntDir, Some(value)) => match value.token_type {
            TokenType::CharImm => match char_literal_byte(value.lexeme) {
                Some(b) => Some(DirectiveView::Int(b as i32)),
                None => None,
            },
            TokenType::IntImm => match int_literal_value(value.lexeme) {
                Some(i) => Some(DirectiveView::Int(i)),
                None => None,
            },
            _ => None,
        },
        (TokenType::StrDir, Some(value)) => match value.token_type {
            TokenType::StrImm => match str_literal_text(value.lexeme) {
                Some(text) => Some(DirectiveView::Str(text)),
                None => None,
            },
            _ => None,
        },
        _ => None,
    }
}

/// The bytes that a directive puts into the image. The length byte of a text
/// holds the number of its UTF-8 bytes modulo 256.
pub open spec fn directive_bytes(directive: DirectiveView) -> Seq<u8> {
    match directive {
        DirectiveView::Byt(b) => seq![b],
        DirectiveView::Int(i) => spec_i32_bytes_le(i),
        DirectiveView::Str(text) => seq![(encode_utf8(text).len() % 256) as u8] + encode_utf8(
            text,
        ),
    }
}

/// Copies the characters between the first and the last one of a lexeme, if
/// both are `quote`.
pub(crate) fn unquote(string: &String, quote: char) -> (content: Option<String>)
    ensures
        match content {
            Some(text) => quoted_content(string@, quote) == Some(text@),
            None => quoted_content(string@, quote) is None,
        },
{
    let text = string.as_str();
    let len = text.unicode_len();
    if len < 2 {
        return None;
    }
    if text.get_char(0) != quote || text.get_char(len - 1) != quote {
        return None;
    }
    Some(text.substring_char(1, len - 1).to_owned())
}

impl Directive {
    /// Appends the directive's bytes to a buffer.
    pub fn write(&self, writer: &mut Vec<u8>)
        ensures
            final(writer)@ == old(writer)@ + directive_bytes(self@),
    {
        match self {
            Directive::Byt(b) => {
                writer.push(*b);
                assert(writer@ =~= old(writer)@ + directive_bytes(self@));
            },
            Directive::Int(i) => {
                let bytes = i32_bytes_le(*i);
                writer.push(bytes[0]);
                writer.push(bytes[1]);
                writer.push(bytes[2]);
                writer.push(bytes[3]);
                assert(writer@ =~= old(writer)@ + directive_bytes(self@));
            },
            Directive::Str(s) => {
                let mut bytes = s.as_str().as_bytes_vec();
                writer.push((bytes.len() % 256) as u8);
                writer.append(&mut bytes);
                assert(writer@ =~= old(writer)@ + directive_bytes(self@));
            },
        }
    }

    /// Builds the directive that a directive keyword and the literal after
    /// it, if any, denote.
    pub fn try_from(dir_type: &Token, dir_value: Option<&Token>) -> (directive: Result<Self, ()>)
        ensures
            match directive {
                Ok(d) => directive_of(
                    dir_type.token_type,
                    match dir_value {
                        Some(t) => Some(t@),
                        None => None,
                    },
                ) == Some(d@),
                Err(_) => directive_of(
                    dir_type.token_type,
                    match dir_value {
                        Some(t) => Some(t@),
                        None => None,
                    },
                ) is None,
            },
    {
        match dir_type.token_type {
            TokenType::BytDir => {
                if let Some(t) = dir_value {
                    match t.token_type {
                        TokenType::CharImm => match Directive::parse_char(&t.lexeme) {
                            Ok(i) => Ok(Directive::Byt(i)),
                            Err(_) => Err(()),
                        },
                        TokenType::IntImm => match Directive::parse_int(&t.lexeme) {
                            Ok(i) => Ok(Directive::Byt(narrow(i))),
                            Err(_) => Err(()),
                        },
                        _ => Err(()),
                    }
                } else {
                    Ok(Directive::Byt(0))
                }
            },
            TokenType::IntDir => {
                if let Some(t) = dir_value {
                    match t.token_type {
                        TokenType::CharImm => match Directive::parse_char(&t.lexeme) {
                            Ok(i) => Ok(Directive::Int(i as i32)),
                            Err(_) => Err(()),
                        },
                        TokenType::IntImm => match Directive::parse_int(&t.lexeme) {
                            Ok(i) => Ok(Directive::Int(i)),
                            Err(_) => Err(()),
                        },
                        _ => Err(()),
                    }
                } else {
                    Ok(Directive::Int(0))
                }
            },
            TokenType::StrDir => {
                if let Some(t) = dir_value {
                    match t.token_type {
                        TokenType::StrImm => match Directive::parse_str(&t.lexeme) {
                            Some(text) => Ok(Directive::Str(text)),
                            None => Err(()),
                        },
                        _ => Err(()),
                    }
                } else {
                    let text = String::new();
                    assert(text@ =~= Seq::<char>::empty());
                    Ok(Directive::Str(text))
                }
            },
            _ => Err(()),
        }
    }

    /// Reads a character literal as a byte.
    pub fn parse_char(string: &String) -> (byte: Result<u8, ()>)
        ensures
            match byte {
                Ok(b) => char_literal_byte(string@) == Some(b),
                Err(_) => char_literal_byte(string@) is None,
            },
    {
        let content = match unquote(string, '\'') {
            Some(content) => content,
            None => return Err(()),
        };
        let text = content.as_str();
        let len = text.unicode_len();
        if len == 2 && text.get_char(0) == '\\' {
            let escaped = text.get_char(1);
            proof {
                assert(escaped == 'n' ==> text@ =~= seq!['\\', 'n']);
                assert(escaped == 't' ==> text@ =~= seq!['\\', 't']);
                assert(escaped == 'r' ==> text@ =~= seq!['\\', 'r']);
                assert(text@ == seq!['\\', 'n'] ==> text@[1] == 'n');
                assert(text@ == seq!['\\', 't'] ==> text@[1] == 't');
                assert(text@ == seq!['\\', 'r'] ==> text@[1] == 'r');
            }
            if escaped == 'n' {
                Ok(10)
            } else if escaped == 't' {
                Ok(9)
            } else if escaped == 'r' {
                Ok(13)
            } else {
                Err(())
            }
        } else if len == 1 {
            proof {
                assert(seq!['\\', 'n'].len() == 2);
                assert(seq!['\\', 't'].len() == 2);
                assert(seq!['\\', 'r'].len() == 2);
            }
            Ok(((text.get_char(0) as u32) % 256) as u8)
        } else {
            proof {
                assert(text@ == seq!['\\', 'n'] ==> text@[0] == '\\');
                assert(text@ == seq!['\\', 't'] ==> text@[0] == '\\');
                assert(text@ == seq!['\\', 'r'] ==> text@[0] == '\\');
            }
            Err(())
        }
    }

    /// Reads an integer literal.
    pub fn parse_int(string: &String) -> (value: Result<i32, ()>)
        ensures
            match value {
                Ok(i) => int_literal_value(string@) == Some(i),
                Err(_) => int_literal_value(string@) is None,
            },
    {
        let text = string.as_str();
        let len = text.unicode_len();
        let start: usize = if len > 0 && text.get_char(0) == '#' {
            1
        } else {
            0
        };
        proof {
            if start == 0 {
                assert(text@.subrange(0, len as int) =~= text@);
            }
        }
        match parse_i32_in(text, start, len) {
            Some(i) => Ok(i),
            None => Err(()),
        }
    }

    /// Reads the text of a string literal.
    pub fn parse_str(string: &String) -> (text: Option<String>)
        ensures
            match text {
                Some(t) => str_literal_text(string@) == Some(t@),
                None => str_literal_text(string@) is None,
            },
    {
        unquote(string, '"')
    }
}

/// The low eight bits of a word.
fn narrow(value: i32) -> (byte: u8)
    ensures
        byte == low_byte(value),
{
    let shifted: i64 = value as i64 + 2147483648;
    (shifted % 256) as u8
}

} // verus!
