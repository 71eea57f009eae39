//! Instructions: their twelve-byte encoding and what each does to the
//! machine.

use crate::util::decimal::{i32_to_decimal, parse_i32_in, parse_u8_in};
use crate::util::endianness::{i32_bytes_le, spec_i32_bytes_le, spec_i32_le};
use crate::vm::cpu::{Cpu, CpuErr, ExecuteResult, VMErr, IO_RG};
use crate::vm::memory::{to_address, MemoryErr};
use crate::vm::opcode::{opcode_from_id, opcode_id, Opcode, OpcodeErr};
use crate::vm::semantics::{quotient, without_line_end, wrap_i32, Outcome};
use vstd::prelude::*;

verus! {

/// Number of bytes that an instruction takes in an image.
pub const INSTRUCTION_SIZE: usize = 12;

/// An operation with its two operands. What an operand means depends on the
/// opcode: a register index, an immediate value or an address.
#[derive(Debug, Clone, Copy, PartialEq, Eq, Structural)]
pub struct Instruction {
    pub opcode: Opcode,
    pub op1: i32,
    pub op2: i32,
}

/// The twelve bytes of an instruction: the opcode's id, the first and the
/// second operand, each as a little-endian word.
pub open spec fn encode(instruction: Instruction) -> Seq<u8> {
    spec_i32_bytes_le(opcode_id(instruction.opcode)) + spec_i32_bytes_le(instruction.op1)
        + spec_i32_bytes_le(instruction.op2)
}

/// The instruction that three words stand for: the opcode's id and the two
/// operands.
pub open spec fn decode_words(id: i32, op1: i32, op2: i32) -> Result<Instruction, OpcodeErr> {
    match opcode_from_id(id) {
        Some(opcode) => Ok(Instruction { opcode, op1, op2 }),
        None => Err(OpcodeErr::InvalidOpcode(id)),
    }
}

/// The instruction that twelve bytes stand for.
pub open spec fn decode(bytes: Seq<u8>) -> Result<Instruction, OpcodeErr>
    recommends
        bytes.len() == 12,
{
    decode_words(
        spec_i32_le(bytes.subrange(0, 4)) as i32,
        spec_i32_le(bytes.subrange(4, 8)) as i32,
        spec_i32_le(bytes.subrange(8, 12)) as i32,
    )
}

/// The sum of two words, wrapped to 32 bits.
fn wrapping_sum(x: i32, y: i32) -> (sum: i32)
    ensures
        sum == wrap_i32(x + y),
{
    x.wrapping_add(y)
}

/// The difference of two words, wrapped to 32 bits.
fn wrapping_difference(x: i32, y: i32) -> (difference: i32)
    ensures
        difference == wrap_i32(x - y),
{
    x.wrapping_sub(y)
}

/// The product of two words, wrapped to 32 bits.
fn wrapping_product(x: i32, y: i32) -> (product: i32)
    ensures
        product == wrap_i32(x * y),
{
    x.wrapping_mul(y)
}

/// The quotient of two words, rounded toward zero and wrapped to 32 bits.
fn wrapping_quotient(x: i32, y: i32) -> (q: i32)
    requires
        y != 0,
    ensures
        q == wrap_i32(quotient(x as int, y as int)),
{
    match x.checked_div(y) {
        Some(q) => q,
        None => i32::MIN,
    }
}

/// The end of a line's content: the number of characters before its line
/// end.
fn content_end(line: &str) -> (end: usize)
    ensures
        end <= line@.len(),
        line@.subrange(0, end as int) == without_line_end(line@),
{
    let len = line.unicode_len();
    let mut end = len;
    if end > 0 && line.get_char(end - 1) == '\n' {
        end = end - 1;
    }
    assert(line@.subrange(0, end as int) =~= if line@.len() > 0 && line@.last() == '\n' {
        line@.drop_last()
    } else {
        line@
    });
    if end > 0 && line.get_char(end - 1) == '\r' {
        end = end - 1;
    }
    assert(line@.subrange(0, end as int) =~= without_line_end(line@));
    end
}

impl Instruction {
    /// Executes the instruction on a machine: reads and writes registers,
    /// memory and console as the opcode says, and tells the loop whether to go
    /// on, to halt, or to stop with a fault.
    pub fn execute(&self, cpu: &mut Cpu) -> (result: ExecuteResult)
        ensures
            (Outcome { cpu: final(cpu)@, result }) == old(cpu)@.execute(*self),
    {
        match self.opcode {
            Opcode::Jmp => self.jmp(cpu),
            Opcode::Jmr => self.jmr(cpu),
            Opcode::Bnz => self.bnz(cpu),
            Opcode::Bgt => self.bgt(cpu),
            Opcode::Blt => self.blt(cpu),
            Opcode::Brz => self.brz(cpu),
            Opcode::Mov => self.mov(cpu),
            Opcode::Movi => self.movi(cpu),
            Opcode::Lda => self.lda(cpu),
            Opcode::Str => self.str(cpu),
            Opcode::Str2 => self.str2(cpu),
            Opcode::Ldr => self.ldr(cpu),
            Opcode::Ldr2 => self.ldr2(cpu),
            Opcode::Stb => self.stb(cpu),
            Opcode::Stb2 => self.stb2(cpu),
            Opcode::Ldb => self.ldb(cpu),
            Opcode::Ldb2 => self.ldb2(cpu),
            Opcode::Cmp => self.cmp(cpu),
            Opcode::Cmpi => self.cmpi(cpu),
            Opcode::Add => self.add(cpu),
            Opcode::Adi => self.adi(cpu),
            Opcode::Sub => self.sub(cpu),
            Opcode::Mul => self.mul(cpu),
            Opcode::Muli => self.muli(cpu),
            Opcode::Div => self.div(cpu),
            Opcode::Divi => self.divi(cpu),
            Opcode::Trp => self.trp(cpu),
            _ => ExecuteResult::Error(VMErr::CpuErr(CpuErr::InvalidInstruction(self.clone()))),
        }
    }

    /// The fault of an instruction that cannot be executed.
    fn invalid(&self) -> (result: ExecuteResult)
        ensures
            result == ExecuteResult::Error(VMErr::CpuErr(CpuErr::InvalidInstruction(*self))),
    {
        ExecuteResult::Error(VMErr::CpuErr(CpuErr::InvalidInstruction(*self)))
    }

    /// Jumps to the address in the first operand.
    pub fn jmp(&self, cpu: &mut Cpu) -> (result: ExecuteResult)
        ensures
            (Outcome { cpu: final(cpu)@, result }) == old(cpu)@.jmp(*self),
    {
        cpu.set_pc(self.op1);
        ExecuteResult::Continue
    }

    /// Jumps to the address that a register holds.
    pub fn jmr(&self, cpu: &mut Cpu) -> (result: ExecuteResult)
        ensures
            (Outcome { cpu: final(cpu)@, result }) == old(cpu)@.jmr(*self),
    {
        let value = match cpu.read_rg(self.op1) {
            Ok(i) => i,
            Err(e) => return ExecuteResult::Error(e),
        };
        cpu.set_pc(value);
        ExecuteResult::Continue
    }

    /// Branches if the register is not zero.
    pub fn bnz(&self, cpu: &mut Cpu) -> (result: ExecuteResult)
        ensures
            (Outcome { cpu: final(cpu)@, result }) == old(cpu)@.bnz(*self),
    {
        let value = match cpu.read_rg(self.op1) {
            Ok(i) => i,
            Err(e) => return ExecuteResult::Error(e),
        };
        if value != 0 {
            cpu.set_pc(self.op2);
        }
        ExecuteResult::Continue
    }

    /// Branches if the register is above zero.
    pub fn bgt(&self, cpu: &mut Cpu) -> (result: ExecuteResult)
        ensures
            (Outcome { cpu: final(cpu)@, result }) == old(cpu)@.bgt(*self),
    {
        let value = match cpu.read_rg(self.op1) {
            Ok(i) => i,
            Err(e) => return ExecuteResult::Error(e),
        };
        if value > 0 {
            cpu.set_pc(self.op2);
        }
        ExecuteResult::Continue
    }

    /// Branches if the register is below zero.
    pub fn blt(&self, cpu: &mut Cpu) -> (result: ExecuteResult)
        ensures
            (Outcome { cpu: final(cpu)@, result }) == old(cpu)@.blt(*self),
    {
        let value = match cpu.read_rg(self.op1) {
            Ok(i) => i,
            Err(e) => return ExecuteResult::Error(e),
        };
        if value < 0 {
            cpu.set_pc(self.op2);
        }
        ExecuteResult::Continue
    }

    /// Branches if the register is zero.
    pub fn brz(&self, cpu: &mut Cpu) -> (result: ExecuteResult)
        ensures
            (Outcome { cpu: final(cpu)@, result }) == old(cpu)@.brz(*self),
    {
        let value = match cpu.read_rg(self.op1) {
            Ok(i) => i,
            Err(e) => return ExecuteResult::Error(e),
        };
        if value == 0 {
            cpu.set_pc(self.op2);
        }
        ExecuteResult::Continue
    }

    /// Copies the second register into the first.
    pub fn mov(&self, cpu: &mut Cpu) -> (result: ExecuteResult)
        ensures
            (Outcome { cpu: final(cpu)@, result }) == old(cpu)@.mov(*self),
    {
        let value = match cpu.read_rg(self.op2) {
            Ok(i) => i,
            Err(e) => return ExecuteResult::Error(e),
        };
        cpu.write_rg(self.op1, value)
    }

    /// Puts the immediate into the register.
    pub fn movi(&self, cpu: &mut Cpu) -> (result: ExecuteResult)
        ensures
            (Outcome { cpu: final(cpu)@, result }) == old(cpu)@.movi(*self),
    {
        cpu.write_rg(self.op1, self.op2)
    }

    /// Puts the address into the register.
    pub fn lda(&self, cpu: &mut Cpu) -> (result: ExecuteResult)
        ensures
            (Outcome { cpu: final(cpu)@, result }) == old(cpu)@.lda(*self),
    {
        cpu.write_rg(self.op1, self.op2)
    }

    /// Stores the word of a register at a direct address. The code segment
    /// is write-protected.
    pub fn str(&self, cpu: &mut Cpu) -> (result: ExecuteResult)
        ensures
            (Outcome { cpu: final(cpu)@, result }) == old(cpu)@.str(*self),
    {
        let word = match cpu.read_rg(self.op1) {
            Ok(i) => i,
            Err(e) => return ExecuteResult::Error(e),
        };
        match cpu.memory.set_i32(to_address(self.op2), word) {
            Ok(_) => ExecuteResult::Continue,
            Err(e) => ExecuteResult::Error(VMErr::MemoryErr(e)),
        }
    }

    /// Stores the word of a register at the address that another register
    /// holds. The code segment is write-protected.
    pub fn str2(&self, cpu: &mut Cpu) -> (result: ExecuteResult)
        ensures
            (Outcome { cpu: final(cpu)@, result }) == old(cpu)@.str2(*self),
    {
        let word = match cpu.read_rg(self.op1) {
            Ok(i) => i,
            Err(e) => return ExecuteResult::Error(e),
        };
        let address = match cpu.read_rg(self.op2) {
            Ok(i) => i,
            Err(e) => return ExecuteResult::Error(e),
        };
        match cpu.memory.set_i32(to_address(address), word) {
            Ok(_) => ExecuteResult::Continue,
            Err(e) => ExecuteResult::Error(VMErr::MemoryErr(e)),
        }
    }

    /// Loads a word of the data segment from a direct address.
    pub fn ldr(&self, cpu: &mut Cpu) -> (result: ExecuteResult)
        ensures
            (Outcome { cpu: final(cpu)@, result }) == old(cpu)@.ldr(*self),
    {
        let value = match cpu.memory.get_data_seg_i32(to_address(self.op2)) {
            Ok(i) => i,
            Err(e) => return ExecuteResult::Error(VMErr::MemoryErr(e)),
        };
        cpu.write_rg(self.op1, value)
    }

    /// Loads a word from the address that a register holds.
    pub fn ldr2(&self, cpu: &mut Cpu) -> (result: ExecuteResult)
        ensures
            (Outcome { cpu: final(cpu)@, result }) == old(cpu)@.ldr2(*self),
    {
        let addr = match cpu.read_rg(self.op2) {
            Ok(i) => i,
            Err(e) => return ExecuteResult::Error(e),
        };
        let value = match cpu.memory.get_any_i32(to_address(addr)) {
            Ok(i) => i,
            Err(e) => return ExecuteResult::Error(VMErr::MemoryErr(e)),
        };
        cpu.write_rg(self.op1, value)
    }

    /// Stores the low byte of a register at a direct address. The code
    /// segment is write-protected.
    pub fn stb(&self, cpu: &mut Cpu) -> (result: ExecuteResult)
        ensures
            (Outcome { cpu: final(cpu)@, result }) == old(cpu)@.stb(*self),
    {
        let byte = match cpu.rg_at_ref(to_address(self.op1)) {
            Ok(r) => r.get_u8(),
            Err(e) => return ExecuteResult::Error(VMErr::CpuErr(e)),
        };
        match cpu.memory.set_u8(to_address(self.op2), byte) {
            Ok(_) => ExecuteResult::Continue,
            Err(e) => ExecuteResult::Error(VMErr::MemoryErr(e)),
        }
    }

    /// Stores the low byte of a register at the address that another
    /// register holds. The code segment is write-protected.
    pub fn stb2(&self, cpu: &mut Cpu) -> (result: ExecuteResult)
        ensures
            (Outcome { cpu: final(cpu)@, result }) == old(cpu)@.stb2(*self),
    {
        let byte = match cpu.rg_at_ref(to_address(self.op1)) {
            Ok(r) => r.get_u8(),
            Err(e) => return ExecuteResult::Error(VMErr::CpuErr(e)),
        };
        let address = match cpu.read_rg(self.op2) {
            Ok(i) => i,
            Err(e) => return ExecuteResult::Error(e),
        };
        match cpu.memory.set_u8(to_address(address), byte) {
            Ok(_) => ExecuteResult::Continue,
            Err(e) => ExecuteResult::Error(VMErr::MemoryErr(e)),
        }
    }

    /// Loads a byte of the data segment from a direct address.
    pub fn ldb(&self, cpu: &mut Cpu) -> (result: ExecuteResult)
        ensures
            (Outcome { cpu: final(cpu)@, result }) == old(cpu)@.ldb(*self),
    {
        let byte = match cpu.memory.get_data_seg_u8(to_address(self.op2)) {
            Ok(b) => b,
            Err(e) => return ExecuteResult::Error(VMErr::MemoryErr(e)),
        };
        cpu.write_rg(self.op1, byte as i32)
    }

    /// Loads a byte from the address that a register holds.
    pub fn ldb2(&self, cpu: &mut Cpu) -> (result: ExecuteResult)
        ensures
            (Outcome { cpu: final(cpu)@, result }) == old(cpu)@.ldb2(*self),
    {
        let address = match cpu.read_rg(self.op2) {
            Ok(i) => i,
            Err(e) => return ExecuteResult::Error(e),
        };
        let byte = match cpu.memory.get_any_u8(to_address(address)) {
            Ok(b) => b,
            Err(e) => return ExecuteResult::Error(VMErr::MemoryErr(e)),
        };
        cpu.write_rg(self.op1, byte as i32)
    }

    /// Compares two registers and leaves -1, 0 or 1 in the first as it is
    /// less than, equal to or greater than the second.
    pub fn cmp(&self, cpu: &mut Cpu) -> (result: ExecuteResult)
        ensures
            (Outcome { cpu: final(cpu)@, result }) == old(cpu)@.cmp(*self),
    {
        let rs_int = match cpu.read_rg(self.op2) {
            Ok(i) => i,
            Err(e) => return ExecuteResult::Error(e),
        };
        let rd_int = match cpu.read_rg(self.op1) {
            Ok(i) => i,
            Err(e) => return ExecuteResult::Error(e),
        };
        if rd_int == rs_int {
            cpu.write_rg(self.op1, 0)
        } else if rd_int > rs_int {
            cpu.write_rg(self.op1, 1)
        } else {
            cpu.write_rg(self.op1, -1)
        }
    }

    /// Compares a register with an immediate, as `cmp` compares two
    /// registers.
    pub fn cmpi(&self, cpu: &mut Cpu) -> (result: ExecuteResult)
        ensures
            (Outcome { cpu: final(cpu)@, result }) == old(cpu)@.cmpi(*self),
    {
        let rd_int = match cpu.read_rg(self.op1) {
            Ok(i) => i,
            Err(e) => return ExecuteResult::Error(e),
        };
        if rd_int == self.op2 {
            cpu.write_rg(self.op1, 0)
        } else if rd_int > self.op2 {
            cpu.write_rg(self.op1, 1)
        } else {
            cpu.write_rg(self.op1, -1)
        }
    }

    /// Adds the second register to the first.
    pub fn add(&self, cpu: &mut Cpu) -> (result: ExecuteResult)
        ensures
            (Outcome { cpu: final(cpu)@, result }) == old(cpu)@.add(*self),
    {
        let value = match cpu.read_rg(self.op2) {
            Ok(i) => i,
            Err(e) => return ExecuteResult::Error(e),
        };
        let rd = match cpu.read_rg(self.op1) {
            Ok(i) => i,
            Err(e) => return ExecuteResult::Error(e),
        };
        cpu.write_rg(self.op1, wrapping_sum(rd, value))
    }

    /// Adds the immediate to the register.
    pub fn adi(&self, cpu: &mut Cpu) -> (result: ExecuteResult)
        ensures
            (Outcome { cpu: final(cpu)@, result }) == old(cpu)@.adi(*self),
    {
        let rd = match cpu.read_rg(self.op1) {
            Ok(i) => i,
            Err(e) => return ExecuteResult::Error(e),
        };
        cpu.write_rg(self.op1, wrapping_sum(rd, self.op2))
    }

    /// Subtracts the second register from the first.
    pub fn sub(&self, cpu: &mut Cpu) -> (result: ExecuteResult)
        ensures
            (Outcome { cpu: final(cpu)@, result }) == old(cpu)@.sub(*self),
    {
        let value = match cpu.read_rg(self.op2) {
            Ok(i) => i,
            Err(e) => return ExecuteResult::Error(e),
        };
        let rd = match cpu.read_rg(self.op1) {
            Ok(i) => i,
            Err(e) => return ExecuteResult::Error(e),
        };
        cpu.write_rg(self.op1, wrapping_difference(rd, value))
    }

    /// Multiplies the first register by the second.
    pub fn mul(&self, cpu: &mut Cpu) -> (result: ExecuteResult)
        ensures
            (Outcome { cpu: final(cpu)@, result }) == old(cpu)@.mul(*self),
    {
        let value = match cpu.read_rg(self.op2) {
            Ok(i) => i,
            Err(e) => return ExecuteResult::Error(e),
        };
        let rd = match cpu.read_rg(self.op1) {
            Ok(i) => i,
            Err(e) => return ExecuteResult::Error(e),
        };
        cpu.write_rg(self.op1, wrapping_product(rd, value))
    }

    /// Multiplies the register by the immediate.
    pub fn muli(&self, cpu: &mut Cpu) -> (result: ExecuteResult)
        ensures
            (Outcome { cpu: final(cpu)@, result }) == old(cpu)@.muli(*self),
    {
        let rd = match cpu.read_rg(self.op1) {
            Ok(i) => i,
            Err(e) => return ExecuteResult::Error(e),
        };
        cpu.write_rg(self.op1, wrapping_product(rd, self.op2))
    }

    /// Divides the first register by the second. Division by zero is a fault.
    pub fn div(&self, cpu: &mut Cpu) -> (result: ExecuteResult)
        ensures
            (Outcome { cpu: final(cpu)@, result }) == old(cpu)@.div(*self),
    {
        let value = match cpu.read_rg(self.op2) {
            Ok(i) => i,
            Err(e) => return ExecuteResult::Error(e),
        };
        let rd = match cpu.read_rg(self.op1) {
            Ok(i) => i,
            Err(e) => return ExecuteResult::Error(e),
        };
        if value == 0 {
            return self.invalid();
        }
        cpu.write_rg(self.op1, wrapping_quotient(rd, value))
    }

    /// Divides a register by an immediate. Division by zero is a fault.
    pub fn divi(&self, cpu: &mut Cpu) -> (result: ExecuteResult)
        ensures
            (Outcome { cpu: final(cpu)@, result }) == old(cpu)@.divi(*self),
    {
        let rd = match cpu.read_rg(self.op1) {
            Ok(i) => i,
            Err(e) => return ExecuteResult::Error(e),
        };
        if self.op2 == 0 {
            return self.invalid();
        }
        cpu.write_rg(self.op1, wrapping_quotient(rd, self.op2))
    }

    /// Performs the trap that the first operand numbers.
    pub fn trp(&self, cpu: &mut Cpu) -> (result: ExecuteResult)
        ensures
            (Outcome { cpu: final(cpu)@, result }) == old(cpu)@.trp(*self),
    {
        match self.op1 {
            0 => self.trp0(),
            1 => self.trp1(cpu),
            2 => self.trp2(cpu),
            3 => self.trp3(cpu),
            4 => self.trp4(cpu),
            5 => self.trp5(cpu),
            _ => self.invalid(),
        }
    }

    /// Halts the machine.
    pub fn trp0(&self) -> (result: ExecuteResult)
        ensures
            result == ExecuteResult::Exit,
    {
        ExecuteResult::Exit
    }

    /// Prints the I/O register as a decimal number.
    pub fn trp1(&self, cpu: &mut Cpu) -> (result: ExecuteResult)
        ensures
            (Outcome { cpu: final(cpu)@, result }) == old(cpu)@.trp1(),
    {
        let mut text = i32_to_decimal(cpu.registers[IO_RG].get_i32());
        cpu.console.output.append(&mut text);
        ExecuteResult::Continue
    }

    /// Reads a line of input as a number into the I/O register.
    pub fn trp2(&self, cpu: &mut Cpu) -> (result: ExecuteResult)
        ensures
            (Outcome { cpu: final(cpu)@, result }) == old(cpu)@.trp2(),
    {
        if cpu.console.input.len() == 0 {
            return ExecuteResult::Error(VMErr::IOError { trp_num: 2 });
        }
        let line = cpu.console.input.remove(0);
        assert(cpu@.input =~= old(cpu)@.input.drop_first());
        assert(line@ == old(cpu)@.input[0]);
        let text = line.as_str();
        let value = match parse_i32_in(text, 0, content_end(text)) {
            Some(i) => i,
            None => return ExecuteResult::Error(VMErr::IOError { trp_num: 2 }),
        };
        cpu.write_rg(0, value)
    }

    /// Prints the low byte of the I/O register as a character.
    pub fn trp3(&self, cpu: &mut Cpu) -> (result: ExecuteResult)
        ensures
            (Outcome { cpu: final(cpu)@, result }) == old(cpu)@.trp3(),
    {
        let byte = cpu.registers[IO_RG].get_u8();
        cpu.console.output.push(byte as char);
        ExecuteResult::Continue
    }

    /// Reads a line of input as a byte into the I/O register.
    pub fn trp4(&self, cpu: &mut Cpu) -> (result: ExecuteResult)
        ensures
            (Outcome { cpu: final(cpu)@, result }) == old(cpu)@.trp4(),
    {
        if cpu.console.input.len() == 0 {
            return ExecuteResult::Error(VMErr::IOError { trp_num: 4 });
        }
        let line = cpu.console.input.remove(0);
        assert(cpu@.input =~= old(cpu)@.input.drop_first());
        assert(line@ == old(cpu)@.input[0]);
        let text = line.as_str();
        let value = match parse_u8_in(text, 0, content_end(text)) {
            Some(i) => i,
            None => return ExecuteResult::Error(VMErr::IOError { trp_num: 4 }),
        };
        cpu.write_rg(0, value as i32)
    }

    /// Prints the text whose length byte lies at the address in the I/O
    /// register.
    pub fn trp5(&self, cpu: &mut Cpu) -> (result: ExecuteResult)
        ensures
            (Outcome { cpu: final(cpu)@, result }) == old(cpu)@.trp5(),
    {
        let str_idx = to_address(cpu.registers[IO_RG].get_i32());
        let str_len = match cpu.memory.get_data_seg_u8(str_idx) {
            Ok(i) => i,
            Err(e) => return ExecuteResult::Error(VMErr::MemoryErr(e)),
        };
        proof {
            cpu.memory.lemma_arena_size();
        }
        let end = str_idx + str_len as usize;
        if !cpu.memory.in_data_seg(end) || !cpu.memory.in_bounds(end) {
            let limit = cpu.memory.data_end();
            return ExecuteResult::Error(VMErr::MemoryErr(MemoryErr::OutOfDataSegBounds(limit)));
        }
        let ghost expected = old(cpu)@.text_at(str_idx as int).unwrap();
        let mut i: usize = str_idx + 1;
        while i <= end
            invariant
                str_idx + 1 <= i <= end + 1,
                end == str_idx + str_len,
                end < crate::vm::memory::MEM_CAPACITY,
                cpu.memory == old(cpu).memory,
                cpu.memory@.in_data_seg(str_idx as int),
                cpu.memory@.in_data_seg(end as int),
                cpu.memory@.in_bounds(end as int),
                cpu.registers == old(cpu).registers,
                cpu.console.input == old(cpu).console.input,
                cpu.state == old(cpu).state,
                expected == Seq::new(
                    str_len as nat,
                    |k: int| cpu.memory@.bytes[str_idx + 1 + k] as char,
                ),
                cpu.console.output@ == old(cpu).console.output@ + expected.take(
                    i - str_idx - 1,
                ),
            decreases end + 1 - i,
        {
            let byte = match cpu.memory.get_data_seg_u8(i) {
                Ok(b) => b,
                Err(e) => return ExecuteResult::Error(VMErr::MemoryErr(e)),
            };
            cpu.console.output.push(byte as char);
            assert(cpu.console.output@ =~= old(cpu).console.output@ + expected.take(
                i + 1 - str_idx - 1,
            ));
            i += 1;
        }
        assert(expected.take(str_len as int) =~= expected);
        ExecuteResult::Continue
    }

    /// Appends the instruction's twelve bytes to a buffer.
    pub fn write(&self, writer: &mut Vec<u8>)
        ensures
            final(writer)@ == old(writer)@ + encode(*self),
    {
        let bytes = self.as_box_slice();
        let mut i: usize = 0;
        while i < 12
            invariant
                i <= 12,
                bytes@ == encode(*self),
                writer@ == old(writer)@ + encode(*self).take(i as int),
            decreases 12 - i,
        {
            writer.push(bytes[i]);
            assert(writer@ =~= old(writer)@ + encode(*self).take(i + 1));
            i += 1;
        }
        assert(encode(*self).take(12) =~= encode(*self));
    }

    /// The instruction's twelve bytes.
    pub fn as_box_slice(&self) -> (bytes: Box<[u8; 12]>)
        ensures
            bytes@ == encode(*self),
    {
        let mut bytes = Box::new([0_u8; 12]);

        let mut word = i32_bytes_le(self.opcode.into());
        bytes[0] = word[0];
        bytes[1] = word[1];
        bytes[2] = word[2];
        bytes[3] = word[3];

        word = i32_bytes_le(self.op1);
        bytes[4] = word[0];
        bytes[5] = word[1];
        bytes[6] = word[2];
        bytes[7] = word[3];

        word = i32_bytes_le(self.op2);
        bytes[8] = word[0];
        bytes[9] = word[1];
        bytes[10] = word[2];
        bytes[11] = word[3];

        assert(bytes@ =~= encode(*self));
        bytes
    }
}

/// Decoding the twelve bytes of an instruction gives the instruction back:
/// opcode and both operands.
pub proof fn lemma_encode_decode_round_trip(instruction: Instruction)
    ensures
        encode(instruction).len() == 12,
        decode(encode(instruction)) == Ok::<Instruction, OpcodeErr>(instruction),
{
    let bytes = encode(instruction);
    assert(bytes.subrange(0, 4) =~= spec_i32_bytes_le(opcode_id(instruction.opcode)));
    assert(bytes.subrange(4, 8) =~= spec_i32_bytes_le(instruction.op1));
    assert(bytes.subrange(8, 12) =~= spec_i32_bytes_le(instruction.op2));
    crate::util::endianness::lemma_i32_le_round_trip(opcode_id(instruction.opcode));
    crate::util::endianness::lemma_i32_le_round_trip(instruction.op1);
    crate::util::endianness::lemma_i32_le_round_trip(instruction.op2);
    crate::vm::opcode::lemma_opcode_id_round_trip(instruction.opcode);
}

} // verus!
