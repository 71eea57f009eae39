//! The cells of the register file.

use vstd::prelude::*;

verus! {

/// One 32-bit signed cell of the register file.
#[derive(Debug, Clone, Copy, PartialEq, Eq, Structural)]
pub struct Register(pub i32);

/// The low eight bits of a value, read as an unsigned byte.
pub open spec fn low_byte(value: i32) -> u8 {
    ((value as int) % 256) as u8
}

impl Register {
    /// Reads the cell as a signed word.
    pub fn get_i32(&self) -> (value: i32)
        ensures
            value == self.0,
    {
        self.0
    }

    /// Reads the cell narrowed to a byte: the low eight bits of its value, so
    /// that narrowing wraps and does not saturate.
    pub fn get_u8(&self) -> (byte: u8)
        ensures
            byte == low_byte(self.0),
    {
        let shifted: i64 = self.0 as i64 + 2147483648;
        (shifted % 256) as u8
    }

    /// Writes a signed word into the cell.
    pub fn set_i32(&mut self, num: i32)
        ensures
            final(self).0 == num,
    {
        self.0 = num;
    }

    /// Writes a byte into the cell, which then holds its value.
    pub fn set_u8(&mut self, num: u8)
        ensures
            final(self).0 == num,
    {
        self.0 = num as i32;
    }

    /// Index of the program counter in the register file.
    pub fn pc_idx() -> (idx: usize)
        ensures
            idx == 64,
    {
        64
    }

    /// Index of the stack limit register.
    pub fn sl_idx() -> (idx: usize)
        ensures
            idx == 65,
    {
        65
    }

    /// Index of the stack base register.
    pub fn sb_idx() -> (idx: usize)
        ensures
            idx == 66,
    {
        66
    }

    /// Index of the stack pointer.
    pub fn sp_idx() -> (idx: usize)
        ensures
            idx == 67,
    {
        67
    }

    /// Index of the frame pointer.
    pub fn fp_idx() -> (idx: usize)
        ensures
            idx == 68,
    {
        68
    }

    /// Index of the heap pointer.
    pub fn hp_idx() -> (idx: usize)
        ensures
            idx == 69,
    {
        69
    }
}

impl Default for Register {
    fn default() -> (register: Self)
        ensures
            register.0 == 0,
    {
        Self(0)
    }
}

/// A byte written to a cell is read back unchanged.
pub proof fn lemma_byte_survives_narrowing(byte: u8)
    ensures
        low_byte(byte as i32) == byte,
{
}

/// Narrowing sees a value only modulo 256: 256 reads as 0 and 257 as 1.
pub proof fn lemma_narrowing_wraps(value: i32)
    requires
        value <= i32::MAX - 256,
    ensures
        low_byte((value + 256) as i32) == low_byte(value),
        low_byte(256) == 0,
        low_byte(257) == 1,
{
}

} // verus!
