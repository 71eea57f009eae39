//! The opcode enumeration and its numeric encoding.
//!
//! The numbering is the contract between the assembler, which writes opcode
//! ids into the image, and the machine, which decodes them.

use crate::assembly::token::TokenType;
use vstd::prelude::*;
use vstd::std_specs::convert::FromSpecImpl;
use vstd::std_specs::convert::TryFromSpecImpl;

verus! {

/// An operation of the machine.
///
/// `Str2`, `Ldr2`, `Stb2`, `Ldb2` and `Allc2` are the register-indirect
/// variants of the operations they are named after.
#[derive(Debug, Clone, Copy, PartialEq, Eq, Structural)]
pub enum Opcode {
    Jmp,
    Jmr,
    Bnz,
    Bgt,
    Blt,
    Brz,
    Bal,
    Mov,
    Movi,
    Lda,
    Str,
    Str2,
    Ldr,
    Ldr2,
    Stb,
    Stb2,
    Ldb,
    Ldb2,
    Push,
    Pop,
    Peek,
    And,
    Or,
    Not,
    Cmp,
    Cmpi,
    Add,
    Adi,
    Sub,
    Mul,
    Muli,
    Div,
    Divi,
    Alci,
    Allc,
    Allc2,
    Trp,
}

/// An integer that is no opcode id.
#[derive(Debug, Clone, Copy, PartialEq, Eq, Structural)]
pub enum OpcodeErr {
    InvalidOpcode(i32),
}

/// The id under which an opcode is stored in a binary image.
pub open spec fn opcode_id(opcode: Opcode) -> i32 {
    match opcode {
        Opcode::Jmp => 1i32,
        Opcode::Jmr => 2i32,
        Opcode::Bnz => 3i32,
        Opcode::Bgt => 4i32,
        Opcode::Blt => 5i32,
        Opcode::Brz => 6i32,
        Opcode::Bal => 43i32,
        Opcode::Mov => 7i32,
        Opcode::Movi => 31i32,
        Opcode::Lda => 8i32,
        Opcode::Str => 9i32,
        Opcode::Str2 => 22i32,
        Opcode::Ldr => 10i32,
        Opcode::Ldr2 => 23i32,
        Opcode::Stb => 11i32,
        Opcode::Stb2 => 24i32,
        Opcode::Ldb => 12i32,
        Opcode::Ldb2 => 25i32,
        Opcode::Push => 40i32,
        Opcode::Pop => 41i32,
        Opcode::Peek => 42i32,
        Opcode::And => 18i32,
        Opcode::Or => 19i32,
        Opcode::Not => 39i32,
        Opcode::Cmp => 20i32,
        Opcode::Cmpi => 32i32,
        Opcode::Add => 13i32,
        Opcode::Adi => 14i32,
        Opcode::Sub => 15i32,
        Opcode::Mul => 16i32,
        Opcode::Muli => 33i32,
        Opcode::Div => 17i32,
        Opcode::Divi => 34i32,
        Opcode::Alci => 35i32,
        Opcode::Allc => 36i32,
        Opcode::Allc2 => 37i32,
        Opcode::Trp => 21i32,
    }
}

/// The opcode stored under an id, if the id is in use.
pub open spec fn opcode_from_id(id: i32) -> Option<Opcode> {
    if id == 1 {
        Some(Opcode::Jmp)
    } else if id == 2 {
        Some(Opcode::Jmr)
    } else if id == 3 {
        Some(Opcode::Bnz)
    } else if id == 4 {
        Some(Opcode::Bgt)
    } else if id == 5 {
        Some(Opcode::Blt)
    } else if id == 6 {
        Some(Opcode::Brz)
    } else if id == 7 {
        Some(Opcode::Mov)
    } else if id == 8 {
        Some(Opcode::Lda)
    } else if id == 9 {
        Some(Opcode::Str)
    } else if id == 10 {
        Some(Opcode::Ldr)
    } else if id == 11 {
        Some(Opcode::Stb)
    } else if id == 12 {
        Some(Opcode::Ldb)
    } else if id == 13 {
        Some(Opcode::Add)
    } else if id == 14 {
        Some(Opcode::Adi)
    } else if id == 15 {
        Some(Opcode::Sub)
    } else if id == 16 {
        Some(Opcode::Mul)
    } else if id == 17 {
        Some(Opcode::Div)
    } else if id == 18 {
        Some(Opcode::And)
    } else if id == 19 {
        Some(Opcode::Or)
    } else if id == 20 {
        Some(Opcode::Cmp)
    } else if id == 21 {
        Some(Opcode::Trp)
    } else if id == 22 {
        Some(Opcode::Str2)
    } else if id == 23 {
        Some(Opcode::Ldr2)
    } else if id == 24 {
        Some(Opcode::Stb2)
    } else if id == 25 {
        Some(Opcode::Ldb2)
    } else if id == 31 {
        Some(Opcode::Movi)
    } else if id == 32 {
        Some(Opcode::Cmpi)
    } else if id == 33 {
        Some(Opcode::Muli)
    } else if id == 34 {
        Some(Opcode::Divi)
    } else if id == 35 {
        Some(Opcode::Alci)
    } else if id == 36 {
        Some(Opcode::Allc)
    } else if id == 37 {
        Some(Opcode::Allc2)
    } else if id == 39 {
        Some(Opcode::Not)
    } else if id == 40 {
        Some(Opcode::Push)
    } else if id == 41 {
        Some(Opcode::Pop)
    } else if id == 42 {
        Some(Opcode::Peek)
    } else if id == 43 {
        Some(Opcode::Bal)
    } else {
        None
    }
}

/// The opcode that a mnemonic token stands for, in its direct variant.
pub open spec fn opcode_of_mnemonic(token_type: TokenType) -> Option<Opcode> {
    match token_type {
        TokenType::Jmp => Some(Opcode::Jmp),
        TokenType::Jmr => Some(Opcode::Jmr),
        TokenType::Bnz => Some(Opcode::Bnz),
        TokenType::Bgt => Some(Opcode::Bgt),
        TokenType::Blt => Some(Opcode::Blt),
        TokenType::Brz => Some(Opcode::Brz),
        TokenType::Bal => Some(Opcode::Bal),
        TokenType::Mov => Some(Opcode::Mov),
        TokenType::Movi => Some(Opcode::Movi),
        TokenType::Lda => Some(Opcode::Lda),
        TokenType::Str => Some(Opcode::Str),
        TokenType::Ldr => Some(Opcode::Ldr),
        TokenType::Stb => Some(Opcode::Stb),
        TokenType::Ldb => Some(Opcode::Ldb),
        TokenType::Push => Some(Opcode::Push),
        TokenType::Pop => Some(Opcode::Pop),
        TokenType::Peek => Some(Opcode::Peek),
        TokenType::And => Some(Opcode::And),
        TokenType::Or => Some(Opcode::Or),
        TokenType::Not => Some(Opcode::Not),
        TokenType::Cmp => Some(Opcode::Cmp),
        TokenType::Cmpi => Some(Opcode::Cmpi),
        TokenType::Add => Some(Opcode::Add),
        TokenType::Adi => Some(Opcode::Adi),
        TokenType::Sub => Some(Opcode::Sub),
        TokenType::Mul => Some(Opcode::Mul),
        TokenType::Muli => Some(Opcode::Muli),
        TokenType::Div => Some(Opcode::Div),
        TokenType::Divi => Some(Opcode::Divi),
        TokenType::Alci => Some(Opcode::Alci),
        TokenType::Allc => Some(Opcode::Allc),
        TokenType::Trp => Some(Opcode::Trp),
        _ => None,
    }
}

/// The opcode of a load or store mnemonic, chosen by the form of its second
/// operand: a label reference selects the direct variant, a register the
/// register-indirect one.
pub open spec fn opcode_of_access(mnemonic: TokenType, operand: TokenType) -> Option<Opcode> {
    match (mnemonic, operand) {
        (TokenType::Str, TokenType::LabelOp) => Some(Opcode::Str),
        (TokenType::Str, TokenType::Rg) => Some(Opcode::Str2),
        (TokenType::Ldr, TokenType::LabelOp) => Some(Opcode::Ldr),
        (TokenType::Ldr, TokenType::Rg) => Some(Opcode::Ldr2),
        (TokenType::Stb, TokenType::LabelOp) => Some(Opcode::Stb),
        (TokenType::Stb, TokenType::Rg) => Some(Opcode::Stb2),
        (TokenType::Ldb, TokenType::LabelOp) => Some(Opcode::Ldb),
        (TokenType::Ldb, TokenType::Rg) => Some(Opcode::Ldb2),
        _ => None,
    }
}

impl From<Opcode> for i32 {
    fn from(opcode: Opcode) -> (id: i32) {
        match opcode {
            Opcode::Jmp => 1,
            Opcode::Jmr => 2,
            Opcode::Bnz => 3,
            Opcode::Bgt => 4,
            Opcode::Blt => 5,
            Opcode::Brz => 6,
            Opcode::Bal => 43,
            Opcode::Mov => 7,
            Opcode::Movi => 31,
            Opcode::Lda => 8,
            Opcode::Str => 9,
            Opcode::Str2 => 22,
            Opcode::Ldr => 10,
            Opcode::Ldr2 => 23,
            Opcode::Stb => 11,
            Opcode::Stb2 => 24,
            Opcode::Ldb => 12,
            Opcode::Ldb2 => 25,
            Opcode::Push => 40,
            Opcode::Pop => 41,
            Opcode::Peek => 42,
            Opcode::And => 18,
            Opcode::Or => 19,
            Opcode::Not => 39,
            Opcode::Cmp => 20,
            Opcode::Cmpi => 32,
            Opcode::Add => 13,
            Opcode::Adi => 14,
            Opcode::Sub => 15,
            Opcode::Mul => 16,
            Opcode::Muli => 33,
            Opcode::Div => 17,
            Opcode::Divi => 34,
            Opcode::Alci => 35,
            Opcode::Allc => 36,
            Opcode::Allc2 => 37,
            Opcode::Trp => 21,
        }
    }
}

impl FromSpecImpl<Opcode> for i32 {
    open spec fn obeys_from_spec() -> bool {
        true
    }

    open spec fn from_spec(opcode: Opcode) -> i32 {
        opcode_id(opcode)
    }
}

impl TryFrom<i32> for Opcode {
    type Error = OpcodeErr;

    fn try_from(value: i32) -> (decoded: Result<Self, OpcodeErr>) {
        Ok(
            match value {
                1 => Self::Jmp,
                2 => Self::Jmr,
                3 => Self::Bnz,
                4 => Self::Bgt,
                5 => Self::Blt,
                6 => Self::Brz,
                43 => Self::Bal,
                7 => Self::Mov,
                31 => Self::Movi,
                8 => Self::Lda,
                9 => Self::Str,
                22 => Self::Str2,
                10 => Self::Ldr,
                23 => Self::Ldr2,
                11 => Self::Stb,
                24 => Self::Stb2,
                12 => Self::Ldb,
                25 => Self::Ldb2,
                40 => Self::Push,
                41 => Self::Pop,
                42 => Self::Peek,
                18 => Self::And,
                19 => Self::Or,
                39 => Self::Not,
                20 => Self::Cmp,
                32 => Self::Cmpi,
                13 => Self::Add,
                14 => Self::Adi,
                15 => Self::Sub,
                16 => Self::Mul,
                33 => Self::Muli,
                17 => Self::Div,
                34 => Self::Divi,
                35 => Self::Alci,
                36 => Self::Allc,
                37 => Self::Allc2,
                21 => Self::Trp,
                op => return Err(OpcodeErr::InvalidOpcode(op)),
            },
        )
    }
}

impl TryFromSpecImpl<i32> for Opcode {
    open spec fn obeys_try_from_spec() -> bool {
        true
    }

    open spec fn try_from_spec(value: i32) -> Result<Self, OpcodeErr> {
        match opcode_from_id(value) {
            Some(opcode) => Ok(opcode),
            None => Err(OpcodeErr::InvalidOpcode(value)),
        }
    }
}

impl TryFrom<TokenType> for Opcode {
    type Error = ();

    fn try_from(value: TokenType) -> (opcode: Result<Self, ()>) {
        Ok(
            match value {
                TokenType::Jmp => Opcode::Jmp,
                TokenType::Jmr => Opcode::Jmr,
                TokenType::Bnz => Opcode::Bnz,
                TokenType::Bgt => Opcode::Bgt,
                TokenType::Blt => Opcode::Blt,
                TokenType::Brz => Opcode::Brz,
                TokenType::Bal => Opcode::Bal,
                TokenType::Mov => Opcode::Mov,
                TokenType::Movi => Opcode::Movi,
                TokenType::Lda => Opcode::Lda,
                TokenType::Str => Opcode::Str,
                TokenType::Ldr => Opcode::Ldr,
                TokenType::Stb => Opcode::Stb,
                TokenType::Ldb => Opcode::Ldb,
                TokenType::Push => Opcode::Push,
                TokenType::Pop => Opcode::Pop,
                TokenType::Peek => Opcode::Peek,
                TokenType::And => Opcode::And,
                TokenType::Or => Opcode::Or,
                TokenType::Not => Opcode::Not,
                TokenType::Cmp => Opcode::Cmp,
                TokenType::Cmpi => Opcode::Cmpi,
                TokenType::Add => Opcode::Add,
                TokenType::Adi => Opcode::Adi,
                TokenType::Sub => Opcode::Sub,
                TokenType::Mul => Opcode::Mul,
                TokenType::Muli => Opcode::Muli,
                TokenType::Div => Opcode::Div,
                TokenType::Divi => Opcode::Divi,
                TokenType::Alci => Opcode::Alci,
                TokenType::Allc => Opcode::Allc,
                TokenType::Trp => Opcode::Trp,
                _ => return Err(()),
            },
        )
    }
}

impl TryFromSpecImpl<TokenType> for Opcode {
    open spec fn obeys_try_from_spec() -> bool {
        true
    }

    open spec fn try_from_spec(value: TokenType) -> Result<Self, ()> {
        match opcode_of_mnemonic(value) {
            Some(opcode) => Ok(opcode),
            None => Err(()),
        }
    }
}

impl TryFrom<(TokenType, TokenType)> for Opcode {
    type Error = ();

    fn try_from(value: (TokenType, TokenType)) -> (opcode: Result<Self, ()>) {
        Ok(
            match value.0 {
                TokenType::Str => match value.1 {
                    TokenType::LabelOp => Opcode::Str,
                    TokenType::Rg => Opcode::Str2,
                    _ => return Err(()),
                },
                TokenType::Ldr => match value.1 {
                    TokenType::LabelOp => Opcode::Ldr,
                    TokenType::Rg => Opcode::Ldr2,
                    _ => return Err(()),
                },
                TokenType::Stb => match value.1 {
                    TokenType::LabelOp => Opcode::Stb,
                    TokenType::Rg => Opcode::Stb2,
                    _ => return Err(()),
                },
                TokenType::Ldb => match value.1 {
                    TokenType::LabelOp => Opcode::Ldb,
                    TokenType::Rg => Opcode::Ldb2,
                    _ => return Err(()),
                },
                _ => return Err(()),
            },
        )
    }
}

impl TryFromSpecImpl<(TokenType, TokenType)> for Opcode {
    open spec fn obeys_try_from_spec() -> bool {
        true
    }

    open spec fn try_from_spec(value: (TokenType, TokenType)) -> Result<Self, ()> {
        match opcode_of_access(value.0, value.1) {
            Some(opcode) => Ok(opcode),
            None => Err(()),
        }
    }
}

/// Every opcode is found again under its own id, so the assembler and the
/// machine agree on the numbering.
pub proof fn lemma_opcode_id_round_trip(opcode: Opcode)
    ensures
        opcode_from_id(opcode_id(opcode)) == Some(opcode),
{
}

/// An id that decodes to an opcode is that opcode's id: no two ids share an
/// opcode.
pub proof fn lemma_opcode_from_id_round_trip(id: i32)
    ensures
        opcode_from_id(id) matches Some(opcode) ==> opcode_id(opcode) == id,
{
}

} // verus!
