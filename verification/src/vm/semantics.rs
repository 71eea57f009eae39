//! What the machine does, as mathematics: the effect of each instruction on
//! registers, memory and console, and the fetch-decode-execute cycle.

use crate::util::decimal::{int_text, spec_parse_i32, spec_parse_u8};
use crate::vm::cpu::{CpuErr, CpuState, ExecuteResult, VMErr, IO_RG, NUM_RGS, PC_IDX};
use crate::vm::instruction::{decode_words, Instruction};
use crate::vm::memory::{address_of, MemoryErr, MemoryView, MEM_CAPACITY};
use crate::vm::opcode::Opcode;
use crate::vm::register::low_byte;
use vstd::prelude::*;

verus! {

/// The mathematical content of a machine.
pub struct CpuView {
    pub memory: MemoryView,
    /// The values of the `NUM_RGS` registers.
    pub registers: Seq<i32>,
    /// The lines of input that no trap has read yet.
    pub input: Seq<Seq<char>>,
    /// The characters that the traps have printed.
    pub output: Seq<char>,
    pub state: CpuState,
}

/// A machine after an instruction, with what the instruction asks of the
/// loop.
pub struct Outcome {
    pub cpu: CpuView,
    pub result: ExecuteResult,
}

/// The value of a 32-bit two's complement result: `v` brought into range by
/// a multiple of 2^32.
pub open spec fn wrap_i32(v: int) -> i32 {
    let low = v % 0x1_0000_0000;
    if low >= 0x8000_0000 {
        (low - 0x1_0000_0000) as i32
    } else {
        low as i32
    }
}

/// The quotient of a division that rounds toward zero.
pub open spec fn quotient(x: int, d: int) -> int
    recommends
        d != 0,
{
    if x >= 0 && d > 0 {
        x / d
    } else if x < 0 && d < 0 {
        (-x) / (-d)
    } else if x < 0 {
        -((-x) / d)
    } else {
        -(x / (-d))
    }
}

/// The three-way result of a comparison: -1, 0 or 1 as `x` is less than,
/// equal to or greater than `y`, which is the sign of `x - y`.
pub open spec fn three_way(x: i32, y: i32) -> i32 {
    if x < y {
        -1i32
    } else if x == y {
        0i32
    } else {
        1i32
    }
}

/// The three-way result is one of -1, 0 and 1 and has the sign of the
/// difference.
pub proof fn lemma_three_way_is_the_sign(x: i32, y: i32)
    ensures
        three_way(x, y) == -1 || three_way(x, y) == 0 || three_way(x, y) == 1,
        three_way(x, y) == -1 <==> x - y < 0,
        three_way(x, y) == 0 <==> x - y == 0,
        three_way(x, y) == 1 <==> x - y > 0,
{
}

/// A line of input without the line end that closes it: one `\n`, and one
/// `\r` before it.
pub open spec fn without_line_end(line: Seq<char>) -> Seq<char> {
    let no_lf = if line.len() > 0 && line.last() == '\n' {
        line.drop_last()
    } else {
        line
    };
    if no_lf.len() > 0 && no_lf.last() == '\r' {
        no_lf.drop_last()
    } else {
        no_lf
    }
}

impl CpuView {
    /// Whether the register file and the arena have their sizes.
    pub open spec fn wf(self) -> bool {
        &&& self.registers.len() == NUM_RGS
        &&& self.memory.bytes.len() == MEM_CAPACITY
    }

    /// The value of the program counter.
    pub open spec fn pc(self) -> i32 {
        self.registers[PC_IDX as int]
    }

    /// The machine with another value in the program counter.
    pub open spec fn with_pc(self, pc: i32) -> CpuView {
        CpuView { registers: self.registers.update(PC_IDX as int, pc), ..self }
    }

    /// The machine with another memory.
    pub open spec fn with_memory(self, memory: MemoryView) -> CpuView {
        CpuView { memory, ..self }
    }

    /// The machine in another state.
    pub open spec fn with_state(self, state: CpuState) -> CpuView {
        CpuView { state, ..self }
    }

    /// Whether an operand names a register.
    pub open spec fn valid_rg(operand: i32) -> bool {
        0 <= operand < NUM_RGS
    }

    /// The fault of an operand that names no register.
    pub open spec fn rg_fault(operand: i32) -> VMErr {
        VMErr::CpuErr(CpuErr::RgOutOfBounds(address_of(operand)))
    }

    /// The value of the register that an operand names.
    pub open spec fn rg(self, operand: i32) -> Result<i32, VMErr> {
        if Self::valid_rg(operand) {
            Ok(self.registers[operand as int])
        } else {
            Err(Self::rg_fault(operand))
        }
    }

    /// The machine goes on unchanged.
    pub open spec fn proceed(self) -> Outcome {
        Outcome { cpu: self, result: ExecuteResult::Continue }
    }

    /// The machine stops with a fault, unchanged.
    pub open spec fn fail(self, error: VMErr) -> Outcome {
        Outcome { cpu: self, result: ExecuteResult::Error(error) }
    }

    /// The machine goes on with a new value in the register that an operand
    /// names, or stops if the operand names none.
    pub open spec fn write_rg(self, operand: i32, value: i32) -> Outcome {
        if Self::valid_rg(operand) {
            CpuView { registers: self.registers.update(operand as int, value), ..self }.proceed()
        } else {
            self.fail(Self::rg_fault(operand))
        }
    }

    /// The machine goes on with the memory that a store has given, or stops
    /// with the store's error.
    pub open spec fn stored(self, store: Result<MemoryView, MemoryErr>) -> Outcome {
        match store {
            Ok(memory) => self.with_memory(memory).proceed(),
            Err(e) => self.fail(VMErr::MemoryErr(e)),
        }
    }

    /// A branch: the program counter takes `target` if `taken`.
    pub open spec fn branch(self, operand: i32, target: i32, taken: spec_fn(i32) -> bool)
        -> Outcome {
        match self.rg(operand) {
            Ok(value) => if taken(value) {
                self.with_pc(target).proceed()
            } else {
                self.proceed()
            },
            Err(e) => self.fail(e),
        }
    }

    /// An operation on two registers: the first takes `op` of both values.
    pub open spec fn combine(self, rd: i32, rs: i32, op: spec_fn(i32, i32) -> i32) -> Outcome {
        match (self.rg(rs), self.rg(rd)) {
            (Ok(y), Ok(x)) => self.write_rg(rd, op(x, y)),
            (Err(e), _) => self.fail(e),
            (_, Err(e)) => self.fail(e),
        }
    }

    /// An operation on a register and an immediate.
    pub open spec fn combine_immediate(
        self,
        rd: i32,
        immediate: i32,
        op: spec_fn(i32, i32) -> i32,
    ) -> Outcome {
        match self.rg(rd) {
            Ok(x) => self.write_rg(rd, op(x, immediate)),
            Err(e) => self.fail(e),
        }
    }

    /// The text at an address of the data segment: the bytes that follow its
    /// length byte, each as the character with that code point. The whole
    /// text must lie in the data segment.
    pub open spec fn text_at(self, address: int) -> Result<Seq<char>, MemoryErr> {
        match self.memory.read_data_seg_u8(address) {
            Ok(length) => {
                let end = address + length;
                if self.memory.in_data_seg(end) && self.memory.in_bounds(end) {
                    Ok(Seq::new(length as nat, |k: int| self.memory.bytes[address + 1 + k] as char))
                } else {
                    Err(MemoryErr::OutOfDataSegBounds(self.first_unreadable() as usize))
                }
            },
            Err(e) => Err(e),
        }
    }

    /// The first address after the data segment: the start of the code
    /// segment, or the end of the arena if that comes first.
    pub open spec fn first_unreadable(self) -> int {
        if self.memory.code_seg_start < self.memory.bytes.len() {
            self.memory.code_seg_start as int
        } else {
            self.memory.bytes.len() as int
        }
    }

    /// `JMP`: the program counter takes the first operand.
    pub open spec fn jmp(self, instruction: Instruction) -> Outcome {
        self.with_pc(instruction.op1).proceed()
    }

    /// `JMR`: the program counter takes the value of the register that the
    /// first operand names.
    pub open spec fn jmr(self, instruction: Instruction) -> Outcome {
        match self.rg(instruction.op1) {
            Ok(target) => self.with_pc(target).proceed(),
            Err(e) => self.fail(e),
        }
    }

    /// `BNZ`: a branch to the second operand if the register is not zero.
    pub open spec fn bnz(self, instruction: Instruction) -> Outcome {
        self.branch(instruction.op1, instruction.op2, |v: i32| v != 0)
    }

    /// `BGT`: a branch to the second operand if the register is above zero.
    pub open spec fn bgt(self, instruction: Instruction) -> Outcome {
        self.branch(instruction.op1, instruction.op2, |v: i32| v > 0)
    }

    /// `BLT`: a branch to the second operand if the register is below zero.
    pub open spec fn blt(self, instruction: Instruction) -> Outcome {
        self.branch(instruction.op1, instruction.op2, |v: i32| v < 0)
    }

    /// `BRZ`: a branch to the second operand if the register is zero.
    pub open spec fn brz(self, instruction: Instruction) -> Outcome {
        self.branch(instruction.op1, instruction.op2, |v: i32| v == 0)
    }

    /// `MOV`: the first register takes the value of the second.
    pub open spec fn mov(self, instruction: Instruction) -> Outcome {
        self.combine(instruction.op1, instruction.op2, |x: i32, y: i32| y)
    }

    /// `MOVI`: the register takes the immediate.
    pub open spec fn movi(self, instruction: Instruction) -> Outcome {
        self.write_rg(instruction.op1, instruction.op2)
    }

    /// `LDA`: the register takes the address.
    pub open spec fn lda(self, instruction: Instruction) -> Outcome {
        self.write_rg(instruction.op1, instruction.op2)
    }

    /// `STR` with a direct address: the word of the register is stored at the
    /// address that the second operand stands for. A store of which any byte
    /// would fall into the code segment fails and changes nothing.
    pub open spec fn str(self, instruction: Instruction) -> Outcome {
        match self.rg(instruction.op1) {
            Ok(word) => self.stored(
                self.memory.write_i32(address_of(instruction.op2) as int, word),
            ),
            Err(e) => self.fail(e),
        }
    }

    /// `STR` through a register: the word of the first register is stored at
    /// the address that the second register holds.
    pub open spec fn str2(self, instruction: Instruction) -> Outcome {
        match (self.rg(instruction.op1), self.rg(instruction.op2)) {
            (Ok(word), Ok(address)) => self.stored(
                self.memory.write_i32(address_of(address) as int, word),
            ),
            (Err(e), _) => self.fail(e),
            (_, Err(e)) => self.fail(e),
        }
    }

    /// `LDR` with a direct address: the register takes the word of the data
    /// segment at the address that the second operand stands for.
    pub open spec fn ldr(self, instruction: Instruction) -> Outcome {
        match self.memory.read_data_seg_i32(address_of(instruction.op2) as int) {
            Ok(word) => self.write_rg(instruction.op1, word),
            Err(e) => self.fail(VMErr::MemoryErr(e)),
        }
    }

    /// `LDR` through a register: the first register takes the word at the
    /// address that the second register holds, anywhere in the arena.
    pub open spec fn ldr2(self, instruction: Instruction) -> Outcome {
        match self.rg(instruction.op2) {
            Ok(address) => match self.memory.read_any_i32(address_of(address) as int) {
                Ok(word) => self.write_rg(instruction.op1, word),
                Err(e) => self.fail(VMErr::MemoryErr(e)),
            },
            Err(e) => self.fail(e),
        }
    }

    /// `STB` with a direct address: the low byte of the register is stored at
    /// the address that the second operand stands for.
    pub open spec fn stb(self, instruction: Instruction) -> Outcome {
        match self.rg(instruction.op1) {
            Ok(word) => self.stored(
                self.memory.write_u8(address_of(instruction.op2) as int, low_byte(word)),
            ),
            Err(e) => self.fail(e),
        }
    }

    /// `STB` through a register: the low byte of the first register is stored
    /// at the address that the second register holds.
    pub open spec fn stb2(self, instruction: Instruction) -> Outcome {
        match (self.rg(instruction.op1), self.rg(instruction.op2)) {
            (Ok(word), Ok(address)) => self.stored(
                self.memory.write_u8(address_of(address) as int, low_byte(word)),
            ),
            (Err(e), _) => self.fail(e),
            (_, Err(e)) => self.fail(e),
        }
    }

    /// `LDB` with a direct address: the register takes the byte of the data
    /// segment at the address that the second operand stands for.
    pub open spec fn ldb(self, instruction: Instruction) -> Outcome {
        match self.memory.read_data_seg_u8(address_of(instruction.op2) as int) {
            Ok(byte) => self.write_rg(instruction.op1, byte as i32),
            Err(e) => self.fail(VMErr::MemoryErr(e)),
        }
    }

    /// `LDB` through a register: the first register takes the byte at the
    /// address that the second register holds, anywhere in the arena.
    pub open spec fn ldb2(self, instruction: Instruction) -> Outcome {
        match self.rg(instruction.op2) {
            Ok(address) => match self.memory.read_any_u8(address_of(address) as int) {
                Ok(byte) => self.write_rg(instruction.op1, byte as i32),
                Err(e) => self.fail(VMErr::MemoryErr(e)),
            },
            Err(e) => self.fail(e),
        }
    }

    /// `CMP`: the first register takes -1, 0 or 1 as its value is less than,
    /// equal to or greater than that of the second register.
    pub open spec fn cmp(self, instruction: Instruction) -> Outcome {
        self.combine(
            instruction.op1,
            instruction.op2,
            |x: i32, y: i32| three_way(x, y),
        )
    }

    /// `CMPI`: the register takes -1, 0 or 1 as its value is less than, equal
    /// to or greater than the immediate.
    pub open spec fn cmpi(self, instruction: Instruction) -> Outcome {
        self.combine_immediate(
            instruction.op1,
            instruction.op2,
            |x: i32, y: i32| three_way(x, y),
        )
    }

    /// `ADD`: the first register takes the sum of both, wrapped to 32 bits.
    pub open spec fn add(self, instruction: Instruction) -> Outcome {
        self.combine(instruction.op1, instruction.op2, |x: i32, y: i32| wrap_i32(x + y))
    }

    /// `ADI`: the register takes its sum with the immediate, wrapped to 32
    /// bits.
    pub open spec fn adi(self, instruction: Instruction) -> Outcome {
        self.combine_immediate(
            instruction.op1,
            instruction.op2,
            |x: i32, y: i32| wrap_i32(x + y),
        )
    }

    /// `SUB`: the first register takes its difference from the second,
    /// wrapped to 32 bits.
    pub open spec fn sub(self, instruction: Instruction) -> Outcome {
        self.combine(instruction.op1, instruction.op2, |x: i32, y: i32| wrap_i32(x - y))
    }

    /// `MUL`: the first register takes the product of both, wrapped to 32
    /// bits.
    pub open spec fn mul(self, instruction: Instruction) -> Outcome {
        self.combine(instruction.op1, instruction.op2, |x: i32, y: i32| wrap_i32(x * y))
    }

    /// `MULI`: the register takes its product with the immediate, wrapped to
    /// 32 bits.
    pub open spec fn muli(self, instruction: Instruction) -> Outcome {
        self.combine_immediate(
            instruction.op1,
            instruction.op2,
            |x: i32, y: i32| wrap_i32(x * y),
        )
    }

    /// `DIV`: the first register takes its quotient by the second, rounded
    /// toward zero. Division by zero is a fault.
    pub open spec fn div(self, instruction: Instruction) -> Outcome {
        match self.rg(instruction.op2) {
            Ok(divisor) => if divisor == 0 && Self::valid_rg(instruction.op1) {
                self.fail(VMErr::CpuErr(CpuErr::InvalidInstruction(instruction)))
            } else {
                self.combine(
                    instruction.op1,
                    instruction.op2,
                    |x: i32, y: i32| wrap_i32(quotient(x as int, y as int)),
                )
            },
            Err(e) => self.fail(e),
        }
    }

    /// `DIVI`: the register takes its quotient by the immediate, rounded
    /// toward zero. Division by zero is a fault.
    pub open spec fn divi(self, instruction: Instruction) -> Outcome {
        if instruction.op2 == 0 && Self::valid_rg(instruction.op1) {
            self.fail(VMErr::CpuErr(CpuErr::InvalidInstruction(instruction)))
        } else {
            self.combine_immediate(
                instruction.op1,
                instruction.op2,
                |x: i32, y: i32| wrap_i32(quotient(x as int, y as int)),
            )
        }
    }

    /// Trap 0: the machine halts. Nothing changes.
    pub open spec fn trp0(self) -> Outcome {
        Outcome { cpu: self, result: ExecuteResult::Exit }
    }

    /// Trap 1: the I/O register is printed as a decimal number.
    pub open spec fn trp1(self) -> Outcome {
        CpuView {
            output: self.output + int_text(self.registers[IO_RG as int] as int),
            ..self
        }.proceed()
    }

    /// Trap 2: the next line of input is taken and read as a number into the
    /// I/O register. Without a line, or with one that does not parse, the trap
    /// fails.
    pub open spec fn trp2(self) -> Outcome {
        if self.input.len() == 0 {
            self.fail(VMErr::IOError { trp_num: 2 })
        } else {
            let taken = CpuView { input: self.input.drop_first(), ..self };
            match spec_parse_i32(without_line_end(self.input[0])) {
                Some(number) => taken.write_rg(IO_RG as i32, number),
                None => taken.fail(VMErr::IOError { trp_num: 2 }),
            }
        }
    }

    /// Trap 3: the low byte of the I/O register is printed as a character.
    pub open spec fn trp3(self) -> Outcome {
        CpuView {
            output: self.output.push(low_byte(self.registers[IO_RG as int]) as char),
            ..self
        }.proceed()
    }

    /// Trap 4: the next line of input is taken and read as a byte into the
    /// I/O register. Without a line, or with one that does not parse, the trap
    /// fails.
    pub open spec fn trp4(self) -> Outcome {
        if self.input.len() == 0 {
            self.fail(VMErr::IOError { trp_num: 4 })
        } else {
            let taken = CpuView { input: self.input.drop_first(), ..self };
            match spec_parse_u8(without_line_end(self.input[0])) {
                Some(byte) => taken.write_rg(IO_RG as i32, byte as i32),
                None => taken.fail(VMErr::IOError { trp_num: 4 }),
            }
        }
    }

    /// Trap 5: the text at the address that the I/O register holds is
    /// printed.
    pub open spec fn trp5(self) -> Outcome {
        match self.text_at(address_of(self.registers[IO_RG as int]) as int) {
            Ok(text) => CpuView { output: self.output + text, ..self }.proceed(),
            Err(e) => self.fail(VMErr::MemoryErr(e)),
        }
    }

    /// `TRP`: the trap that the first operand numbers. Only trap 0 halts; a
    /// number from 1 to 5 reads or prints; any other number is a fault.
    pub open spec fn trp(self, instruction: Instruction) -> Outcome {
        if instruction.op1 == 0 {
            self.trp0()
        } else if instruction.op1 == 1 {
            self.trp1()
        } else if instruction.op1 == 2 {
            self.trp2()
        } else if instruction.op1 == 3 {
            self.trp3()
        } else if instruction.op1 == 4 {
            self.trp4()
        } else if instruction.op1 == 5 {
            self.trp5()
        } else {
            self.fail(VMErr::CpuErr(CpuErr::InvalidInstruction(instruction)))
        }
    }

    /// What executing an instruction does to the machine: what the handler
    /// of its opcode does. An opcode without a handler is a fault. A failing
    /// instruction leaves registers, memory and output as they were; a read
    /// trap that fails on a line of input has taken the line.
    pub open spec fn execute(self, instruction: Instruction) -> Outcome {
        match instruction.opcode {
            Opcode::Jmp => self.jmp(instruction),
            Opcode::Jmr => self.jmr(instruction),
            Opcode::Bnz => self.bnz(instruction),
            Opcode::Bgt => self.bgt(instruction),
            Opcode::Blt => self.blt(instruction),
            Opcode::Brz => self.brz(instruction),
            Opcode::Mov => self.mov(instruction),
            Opcode::Movi => self.movi(instruction),
            Opcode::Lda => self.lda(instruction),
            Opcode::Str => self.str(instruction),
            Opcode::Str2 => self.str2(instruction),
            Opcode::Ldr => self.ldr(instruction),
            Opcode::Ldr2 => self.ldr2(instruction),
            Opcode::Stb => self.stb(instruction),
            Opcode::Stb2 => self.stb2(instruction),
            Opcode::Ldb => self.ldb(instruction),
            Opcode::Ldb2 => self.ldb2(instruction),
            Opcode::Cmp => self.cmp(instruction),
            Opcode::Cmpi => self.cmpi(instruction),
            Opcode::Add => self.add(instruction),
            Opcode::Adi => self.adi(instruction),
            Opcode::Sub => self.sub(instruction),
            Opcode::Mul => self.mul(instruction),
            Opcode::Muli => self.muli(instruction),
            Opcode::Div => self.div(instruction),
            Opcode::Divi => self.divi(instruction),
            Opcode::Trp => self.trp(instruction),
            _ => self.fail(VMErr::CpuErr(CpuErr::InvalidInstruction(instruction))),
        }
    }

    /// Whether the twelve bytes from the program counter lie in the code
    /// segment and in the arena.
    pub open spec fn has_next_instruction(self) -> bool {
        let pc = address_of(self.pc()) as int;
        self.memory.in_code_seg(pc) && self.memory.in_code_seg(pc + 11) && self.memory.in_bounds(
            pc + 11,
        )
    }

    /// The three words at the program counter.
    pub open spec fn fetch(self) -> Result<(i32, i32, i32), MemoryErr> {
        let pc = address_of(self.pc()) as int;
        if self.has_next_instruction() {
            Ok(
                (
                    self.memory.word_at(pc) as i32,
                    self.memory.word_at(pc + 4) as i32,
                    self.memory.word_at(pc + 8) as i32,
                ),
            )
        } else {
            Err(MemoryErr::OutOfCodeSegBounds(address_of(self.pc())))
        }
    }

    /// One cycle. A machine that is not running stays as it is. A running
    /// one fetches three words at the program counter, moves the program
    /// counter past them, decodes them and executes the instruction. A failed
    /// fetch, an unknown opcode and a failing instruction end the run with a
    /// fault at the address of the fetch; the halt trap ends it cleanly.
    pub open spec fn step(self) -> CpuView {
        if self.state != CpuState::Running {
            self
        } else {
            let pc = self.pc();
            match self.fetch() {
                Ok((id, op1, op2)) => {
                    let advanced = self.with_pc((pc + 12) as i32);
                    match decode_words(id, op1, op2) {
                        Ok(instruction) => {
                            let outcome = advanced.execute(instruction);
                            match outcome.result {
                                ExecuteResult::Continue => outcome.cpu,
                                ExecuteResult::Exit => outcome.cpu.with_state(CpuState::Halted),
                                ExecuteResult::Error(error) => outcome.cpu.with_state(
                                    CpuState::Faulted { pc, error },
                                ),
                            }
                        },
                        Err(e) => advanced.with_state(
                            CpuState::Faulted { pc, error: VMErr::OpcodeErr(e) },
                        ),
                    }
                },
                Err(e) => self.with_state(CpuState::Faulted { pc, error: VMErr::MemoryErr(e) }),
            }
        }
    }

    /// The machine after `cycles` cycles.
    pub open spec fn steps(self, cycles: nat) -> CpuView
        decreases cycles,
    {
        if cycles == 0 {
            self
        } else {
            self.step().steps((cycles - 1) as nat)
        }
    }

    /// The machine ready to run: the program counter holds the header of the
    /// image and the state is `Running`.
    pub open spec fn booted(self) -> CpuView {
        self.with_pc(self.memory.word_at(0) as i32).with_state(CpuState::Running)
    }

    /// Whether the machine is about to read input that is not there.
    pub open spec fn awaits_input(self) -> bool {
        &&& self.state == CpuState::Running
        &&& self.input.len() == 0
        &&& match self.fetch() {
            Ok((id, op1, op2)) => match decode_words(id, op1, op2) {
                Ok(instruction) => instruction.opcode == Opcode::Trp && (op1 == 2 || op1 == 4),
                Err(_) => false,
            },
            Err(_) => false,
        }
    }

    /// A machine that has halted or faulted stays as it is, however many
    /// cycles it is given: after the halt trap nothing is fetched any more.
    pub proof fn lemma_final_states_stay(self, cycles: nat)
        requires
            self.state != CpuState::Running || cycles == 0,
        ensures
            self.steps(cycles) == self,
        decreases cycles,
    {
        if cycles > 0 {
            self.lemma_final_states_stay((cycles - 1) as nat);
        }
    }

    /// The address and the width of the store that an instruction makes, if
    /// it is a store whose register operands name registers.
    pub open spec fn store_target(self, instruction: Instruction) -> Option<(int, int)> {
        let op1 = instruction.op1;
        let op2 = instruction.op2;
        match instruction.opcode {
            Opcode::Str => if Self::valid_rg(op1) {
                Some((address_of(op2) as int, 4int))
            } else {
                None
            },
            Opcode::Stb => if Self::valid_rg(op1) {
                Some((address_of(op2) as int, 1int))
            } else {
                None
            },
            Opcode::Str2 => if Self::valid_rg(op1) && Self::valid_rg(op2) {
                Some((address_of(self.registers[op2 as int]) as int, 4int))
            } else {
                None
            },
            Opcode::Stb2 => if Self::valid_rg(op1) && Self::valid_rg(op2) {
                Some((address_of(self.registers[op2 as int]) as int, 1int))
            } else {
                None
            },
            _ => None,
        }
    }

    /// The code segment is write-protected: a store of which any byte would
    /// fall into the code segment fails with the error of a write into the
    /// code segment, and leaves the machine as it was.
    pub proof fn lemma_store_into_code_segment_faults(self, instruction: Instruction, a: int)
        requires
            self.store_target(instruction) is Some,
            self.store_target(instruction).unwrap().0 <= a < self.store_target(
                instruction,
            ).unwrap().0 + self.store_target(instruction).unwrap().1,
            self.memory.in_code_seg(a),
        ensures
            self.execute(instruction) == self.fail(
                VMErr::MemoryErr(
                    MemoryErr::SetInsideCodeSegBounds(
                        self.store_target(instruction).unwrap().0 as usize,
                    ),
                ),
            ),
    {
    }

    /// A comparison leaves exactly one of -1, 0 and 1 in its first register,
    /// with the sign of the difference between the value that register held
    /// and the value compared with: that of the second register for `CMP`,
    /// the immediate for `CMPI`. Nothing else changes.
    pub proof fn lemma_compare_is_three_way(self, instruction: Instruction)
        requires
            self.wf(),
            instruction.opcode == Opcode::Cmp || instruction.opcode == Opcode::Cmpi,
            Self::valid_rg(instruction.op1),
            instruction.opcode == Opcode::Cmp ==> Self::valid_rg(instruction.op2),
        ensures
            ({
                let rd = instruction.op1 as int;
                let x = self.registers[rd];
                let y = if instruction.opcode == Opcode::Cmp {
                    self.registers[instruction.op2 as int]
                } else {
                    instruction.op2
                };
                let after = self.execute(instruction);
                let left = after.cpu.registers[rd];
                &&& after.result == ExecuteResult::Continue
                &&& after.cpu == (CpuView { registers: self.registers.update(rd, left), ..self })
                &&& left == -1 || left == 0 || left == 1
                &&& left == -1 <==> x - y < 0
                &&& left == 0 <==> x - y == 0
                &&& left == 1 <==> x - y > 0
            }),
    {
    }

    /// The value of the register that an operand names.
    pub open spec fn value_of(self, operand: i32) -> i32
        recommends
            Self::valid_rg(operand),
    {
        self.registers[operand as int]
    }

    /// The machine with another value in the register that an operand names.
    pub open spec fn with_rg(self, operand: i32, value: i32) -> CpuView
        recommends
            Self::valid_rg(operand),
    {
        CpuView { registers: self.registers.update(operand as int, value), ..self }
    }

    /// The fault of a store that would change the code segment.
    pub open spec fn code_fault(address: usize) -> VMErr {
        VMErr::MemoryErr(MemoryErr::SetInsideCodeSegBounds(address))
    }

    /// Each of the four store handlers protects the code segment: where a
    /// byte of the store would fall on an address of the code segment, the
    /// handler fails with the error of a write into the code segment and
    /// leaves registers, memory and console as they were.
    pub proof fn lemma_store_handlers_protect_code(self, instruction: Instruction, a: int)
        requires
            self.memory.in_code_seg(a),
            Self::valid_rg(instruction.op1),
        ensures
            address_of(instruction.op2) <= a < address_of(instruction.op2) + 4 ==> self.str(
                instruction,
            ) == self.fail(Self::code_fault(address_of(instruction.op2))),
            address_of(instruction.op2) == a ==> self.stb(instruction) == self.fail(
                Self::code_fault(address_of(instruction.op2)),
            ),
            Self::valid_rg(instruction.op2) && address_of(self.value_of(instruction.op2)) <= a
                < address_of(self.value_of(instruction.op2)) + 4 ==> self.str2(instruction)
                == self.fail(Self::code_fault(address_of(self.value_of(instruction.op2)))),
            Self::valid_rg(instruction.op2) && address_of(self.value_of(instruction.op2)) == a
                ==> self.stb2(instruction) == self.fail(
                Self::code_fault(address_of(self.value_of(instruction.op2))),
            ),
    {
    }

    /// Both compare handlers leave the three-way result in the first
    /// register, continue, and change nothing else: `CMP` compares with the
    /// value of the second register, `CMPI` with the immediate.
    pub proof fn lemma_compare_handlers_are_three_way(self, instruction: Instruction)
        requires
            self.wf(),
            Self::valid_rg(instruction.op1),
        ensures
            self.cmpi(instruction) == self.with_rg(
                instruction.op1,
                three_way(self.value_of(instruction.op1), instruction.op2),
            ).proceed(),
            Self::valid_rg(instruction.op2) ==> self.cmp(instruction) == self.with_rg(
                instruction.op1,
                three_way(self.value_of(instruction.op1), self.value_of(instruction.op2)),
            ).proceed(),
    {
    }

    /// Only trap 0 halts, and it changes nothing. A trap number outside 0 to
    /// 5 is a fault that changes nothing.
    pub proof fn lemma_only_trap_zero_halts(self, instruction: Instruction)
        ensures
            self.trp(instruction).result == ExecuteResult::Exit <==> instruction.op1 == 0,
            instruction.op1 == 0 ==> self.trp(instruction).cpu == self,
            instruction.op1 < 0 || instruction.op1 > 5 ==> self.trp(instruction) == self.fail(
                VMErr::CpuErr(CpuErr::InvalidInstruction(instruction)),
            ),
    {
    }

    /// The instruction at the program counter, if one can be fetched and
    /// decoded there.
    pub open spec fn next_instruction(self) -> Option<Instruction> {
        match self.fetch() {
            Ok((id, op1, op2)) => match decode_words(id, op1, op2) {
                Ok(instruction) => Some(instruction),
                Err(_) => None,
            },
            Err(_) => None,
        }
    }

    /// Halting is final: a running machine whose next instruction is the halt
    /// trap is halted after one cycle, with nothing changed but the program
    /// counter, and stays exactly so however many cycles follow. Nothing is
    /// fetched after the halt.
    pub proof fn lemma_halt_is_terminal(self, cycles: nat)
        requires
            self.state == CpuState::Running,
            self.next_instruction() is Some,
            self.next_instruction().unwrap().opcode == Opcode::Trp,
            self.next_instruction().unwrap().op1 == 0,
            cycles >= 1,
        ensures
            self.step() == self.with_pc((self.pc() + 12) as i32).with_state(CpuState::Halted),
            self.steps(cycles) == self.step(),
    {
        self.step().lemma_final_states_stay((cycles - 1) as nat);
    }

    /// No instruction changes the code segment: a program cannot rewrite
    /// itself.
    pub proof fn lemma_execute_keeps_code(self, instruction: Instruction)
        ensures
            self.memory.same_code(self.execute(instruction).cpu.memory),
    {
        let op2 = instruction.op2;
        if Self::valid_rg(instruction.op1) {
            let word = self.registers[instruction.op1 as int];
            self.memory.lemma_stores_keep_code(address_of(op2) as int, word, low_byte(word));
            if Self::valid_rg(op2) {
                let address = address_of(self.registers[op2 as int]) as int;
                self.memory.lemma_stores_keep_code(address, word, low_byte(word));
            }
        }
    }

    /// No cycle changes the code segment.
    pub proof fn lemma_step_keeps_code(self)
        ensures
            self.memory.same_code(self.step().memory),
    {
        if self.state == CpuState::Running {
            match self.fetch() {
                Ok((id, op1, op2)) => {
                    let advanced = self.with_pc((self.pc() + 12) as i32);
                    match decode_words(id, op1, op2) {
                        Ok(instruction) => {
                            advanced.lemma_execute_keeps_code(instruction);
                        },
                        Err(_) => {},
                    }
                },
                Err(_) => {},
            }
        }
    }

    /// However long a machine runs, its code segment stays as it was loaded.
    pub proof fn lemma_steps_keep_code(self, cycles: nat)
        ensures
            self.memory.same_code(self.steps(cycles).memory),
        decreases cycles,
    {
        if cycles > 0 {
            self.lemma_step_keeps_code();
            self.step().lemma_steps_keep_code((cycles - 1) as nat);
        }
    }
}

} // verus!
