//! The processor: the register file, the memory it owns, its console, and
//! the fetch-decode-execute loop.

use crate::vm::instruction::{decode_words, Instruction};
use crate::vm::memory::{loaded, to_address, Memory, MemoryErr, MEM_CAPACITY};
use crate::vm::opcode::{Opcode, OpcodeErr};
use crate::vm::register::Register;
use crate::vm::semantics::{CpuView, Outcome};
use vstd::prelude::*;

verus! {

/// Number of cells in the register file: 64 general purpose registers and
/// the six reserved ones.
pub const NUM_RGS: usize = 70;

/// Index of the program counter in the register file.
pub const PC_IDX: usize = 64;

/// Index of the register that the traps read and write.
pub const IO_RG: usize = 0;

/// The ways in which the register file and the decoder fail.
#[derive(Debug, Clone, Copy, PartialEq, Eq, Structural)]
pub enum CpuErr {
    /// No register has this index.
    RgOutOfBounds(usize),
    /// The instruction cannot be executed: its opcode has no handler, its
    /// trap number is unknown, or it divides by zero.
    InvalidInstruction(Instruction),
}

/// Everything that ends a run with a fault.
#[derive(Debug, Clone, Copy, PartialEq, Eq, Structural)]
pub enum VMErr {
    MemoryErr(MemoryErr),
    CpuErr(CpuErr),
    OpcodeErr(OpcodeErr),
    /// A read trap found no input, or input that does not parse.
    IOError { trp_num: usize },
}

/// What executing one instruction asks of the loop.
#[derive(Debug, Clone, Copy, PartialEq, Eq, Structural)]
pub enum ExecuteResult {
    Continue,
    Exit,
    Error(VMErr),
}

/// Where a machine is in its run. `Halted` and `Faulted` are final.
#[derive(Debug, Clone, Copy, PartialEq, Eq, Structural)]
pub enum CpuState {
    Running,
    /// The halt trap was executed.
    Halted,
    /// An instruction failed: the address it was fetched from, and why.
    Faulted { pc: i32, error: VMErr },
}

/// The machine's console: the lines of input that wait to be read by a trap,
/// and the characters that the traps have printed. The program that runs the
/// machine fills the one and drains the other.
pub struct Console {
    pub input: Vec<String>,
    pub output: Vec<char>,
}

/// A machine: one memory, one register file, one console.
///
/// The program counter is register `PC_IDX` of the register file, so every
/// instruction reads and writes it as it does any other register.
pub struct Cpu {
    pub memory: Memory,
    pub registers: [Register; NUM_RGS],
    pub console: Console,
    pub state: CpuState,
}

/// The texts of a sequence of lines.
pub open spec fn line_views(lines: Seq<String>) -> Seq<Seq<char>> {
    lines.map_values(|line: String| line@)
}

/// The values of a sequence of registers.
pub open spec fn register_values(registers: Seq<Register>) -> Seq<i32> {
    registers.map_values(|register: Register| register.0)
}

impl View for Cpu {
    type V = CpuView;

    open spec fn view(&self) -> CpuView {
        CpuView {
            memory: self.memory@,
            registers: register_values(self.registers@),
            input: line_views(self.console.input@),
            output: self.console.output@,
            state: self.state,
        }
    }
}

impl Cpu {
    /// A machine with an image loaded: registers at zero, an empty console,
    /// ready to run.
    pub fn new(image: &[u8]) -> (cpu: Self)
        ensures
            cpu@ == (CpuView {
                memory: loaded(image@),
                registers: Seq::new(NUM_RGS as nat, |i: int| 0i32),
                input: Seq::empty(),
                output: Seq::empty(),
                state: CpuState::Running,
            }),
    {
        let cpu = Self {
            memory: Memory::new(image),
            registers: [Register(0); NUM_RGS],
            console: Console { input: Vec::new(), output: Vec::new() },
            state: CpuState::Running,
        };
        assert(cpu@.registers =~= Seq::new(NUM_RGS as nat, |i: int| 0i32));
        assert(cpu@.input =~= Seq::empty());
        cpu
    }

    /// A machine's register file and arena always have their sizes.
    pub proof fn lemma_view_wf(&self)
        ensures
            self@.wf(),
    {
        self.memory.lemma_arena_size();
    }

    /// Whether a register has this index.
    pub fn valid_rg(&self, idx: usize) -> (valid: bool)
        ensures
            valid == (idx < NUM_RGS),
    {
        idx < NUM_RGS
    }

    /// The register with an index.
    pub fn rg_at_ref(&self, idx: usize) -> (register: Result<&Register, CpuErr>)
        ensures
            idx < NUM_RGS ==> register == Ok::<&Register, CpuErr>(&self.registers@[idx as int]),
            idx >= NUM_RGS ==> register == Err::<&Register, CpuErr>(CpuErr::RgOutOfBounds(idx)),
    {
        if idx >= NUM_RGS {
            Err(CpuErr::RgOutOfBounds(idx))
        } else {
            Ok(&self.registers[idx])
        }
    }

    /// The register with an index, to be written. Whatever the caller leaves
    /// in it is the register's new value; nothing else changes.
    pub fn rg_at_mut(&mut self, idx: usize) -> (register: Result<&mut Register, CpuErr>)
        ensures
            idx < NUM_RGS ==> register is Ok,
            idx >= NUM_RGS ==> register == Err::<&mut Register, CpuErr>(
                CpuErr::RgOutOfBounds(idx),
            ) && *final(self) == *old(self),
            register matches Ok(cell) ==> *cell == old(self).registers@[idx as int]
                && final(self).registers@ == old(self).registers@.update(idx as int, *final(cell))
                && final(self).memory == old(self).memory && final(self).console
                == old(self).console && final(self).state == old(self).state,
    {
        if idx >= NUM_RGS {
            Err(CpuErr::RgOutOfBounds(idx))
        } else {
            Ok(&mut self.registers[idx])
        }
    }

    /// The value of the program counter.
    pub fn get_pc(&self) -> (pc: i32)
        ensures
            pc == self@.pc(),
    {
        self.registers[PC_IDX].get_i32()
    }

    /// Puts a value into the program counter.
    pub fn set_pc(&mut self, pc: i32)
        ensures
            final(self)@ == old(self)@.with_pc(pc),
    {
        self.registers[PC_IDX] = Register(pc);
        assert(self@.registers =~= old(self)@.registers.update(PC_IDX as int, pc));
    }

    /// The value of the register that an operand names.
    pub fn read_rg(&self, operand: i32) -> (value: Result<i32, VMErr>)
        ensures
            value == self@.rg(operand),
    {
        match self.rg_at_ref(to_address(operand)) {
            Ok(register) => Ok(register.get_i32()),
            Err(e) => Err(VMErr::CpuErr(e)),
        }
    }

    /// Puts a value into the register that an operand names.
    pub fn write_rg(&mut self, operand: i32, value: i32) -> (result: ExecuteResult)
        ensures
            (Outcome { cpu: final(self)@, result }) == old(self)@.write_rg(operand, value),
    {
        match self.rg_at_mut(to_address(operand)) {
            Ok(register) => {
                register.set_i32(value);
            },
            Err(e) => return ExecuteResult::Error(VMErr::CpuErr(e)),
        }
        assert(self@.registers =~= old(self)@.registers.update(operand as int, value));
        ExecuteResult::Continue
    }

    /// Whether the twelve bytes at the program counter can be fetched.
    pub fn has_next_instruction(&self) -> (has: bool)
        ensures
            has == self@.has_next_instruction(),
    {
        let pc = to_address(self.get_pc());
        proof {
            self.memory.lemma_arena_size();
        }
        if pc >= MEM_CAPACITY || MEM_CAPACITY - pc <= 11 {
            return false;
        }
        self.memory.in_code_seg(pc) && self.memory.in_code_seg(pc + 11)
    }

    /// Reads the three words at the program counter.
    pub fn fetch(&self) -> (words: Result<[i32; 3], MemoryErr>)
        ensures
            match self@.fetch() {
                Ok((id, op1, op2)) => words matches Ok(found) && found@ == seq![id, op1, op2],
                Err(e) => words == Err::<[i32; 3], MemoryErr>(e),
            },
    {
        let pc = to_address(self.get_pc());
        if !self.has_next_instruction() {
            return Err(MemoryErr::OutOfCodeSegBounds(pc));
        }
        proof {
            self.memory.lemma_arena_size();
        }
        let mut ints: [i32; 3] = [0, 0, 0];
        ints[0] = self.memory.get_code_seg_i32(pc)?;
        ints[1] = self.memory.get_code_seg_i32(pc + 4)?;
        ints[2] = self.memory.get_code_seg_i32(pc + 8)?;
        assert(ints@ =~= seq![
            self@.memory.word_at(pc as int) as i32,
            self@.memory.word_at(pc + 4) as i32,
            self@.memory.word_at(pc + 8) as i32,
        ]);
        Ok(ints)
    }

    /// Builds the instruction that three words stand for.
    pub fn decode(&self, ints: &[i32; 3]) -> (instruction: Result<Instruction, OpcodeErr>)
        ensures
            instruction == decode_words(ints@[0], ints@[1], ints@[2]),
    {
        match Opcode::try_from(ints[0]) {
            Ok(opcode) => Ok(Instruction { opcode, op1: ints[1], op2: ints[2] }),
            Err(e) => Err(e),
        }
    }

    /// Whether the machine is about to read input that is not there: it is
    /// running, the instruction at the program counter is a read trap, and no
    /// line of input waits.
    pub fn awaits_input(&self) -> (waiting: bool)
        ensures
            waiting == self@.awaits_input(),
    {
        if !matches!(self.state, CpuState::Running) || self.console.input.len() > 0 {
            return false;
        }
        let ints = match self.fetch() {
            Ok(ints) => ints,
            Err(_) => return false,
        };
        match self.decode(&ints) {
            Ok(instruction) => matches!(instruction.opcode, Opcode::Trp) && (instruction.op1 == 2
                || instruction.op1 == 4),
            Err(_) => false,
        }
    }

    /// Makes the machine ready to run: puts the header of the image into the
    /// program counter.
    pub fn boot(&mut self)
        ensures
            final(self)@ == old(self)@.booted(),
    {
        proof {
            self.memory.lemma_arena_size();
        }
        let first_int = match self.memory.get_any_i32(0) {
            Ok(word) => word,
            Err(_) => 0,
        };
        self.set_pc(first_int);
        self.state = CpuState::Running;
    }

    /// One cycle: fetch, advance the program counter, decode, execute. Gives
    /// the state that the machine is in afterwards. A machine that has halted
    /// or faulted stays as it is.
    pub fn step(&mut self) -> (state: CpuState)
        ensures
            final(self)@ == old(self)@.step(),
            state == final(self)@.state,
    {
        if !matches!(self.state, CpuState::Running) {
            return self.state;
        }
        let pc = self.get_pc();
        // fetch
        let ints = match self.fetch() {
            Ok(ints) => ints,
            Err(e) => {
                self.state = CpuState::Faulted { pc, error: VMErr::MemoryErr(e) };
                return self.state;
            },
        };
        // increment pc
        proof {
            self.memory.lemma_arena_size();
        }
        self.set_pc(pc + 12);
        // decode
        let instruction = match self.decode(&ints) {
            Ok(instruction) => instruction,
            Err(e) => {
                self.state = CpuState::Faulted { pc, error: VMErr::OpcodeErr(e) };
                return self.state;
            },
        };
        // execute
        match instruction.execute(self) {
            ExecuteResult::Continue => {},
            ExecuteResult::Exit => {
                self.state = CpuState::Halted;
            },
            ExecuteResult::Error(error) => {
                self.state = CpuState::Faulted { pc, error };
            },
        }
        self.state
    }

    /// Goes on for at most `max_cycles` cycles, or until the machine halts or
    /// faults. Gives the state that the machine is in afterwards.
    pub fn resume(&mut self, max_cycles: usize) -> (state: CpuState)
        ensures
            final(self)@ == old(self)@.steps(max_cycles as nat),
            state == final(self)@.state,
    {
        let mut done: usize = 0;
        while done < max_cycles && matches!(self.state, CpuState::Running)
            invariant
                done <= max_cycles,
                self@.steps((max_cycles - done) as nat) == old(self)@.steps(max_cycles as nat),
            decreases max_cycles - done,
        {
            self.step();
            done += 1;
        }
        proof {
            self@.lemma_final_states_stay((max_cycles - done) as nat);
        }
        self.state
    }

    /// Runs the program of the loaded image from its start: boots the
    /// machine, then goes on for at most `max_cycles` cycles, or until the
    /// machine halts or faults. Gives the state that the machine is in
    /// afterwards: `Running` if the cycles ran out.
    pub fn run(&mut self, max_cycles: usize) -> (state: CpuState)
        ensures
            final(self)@ == old(self)@.booted().steps(max_cycles as nat),
            state == final(self)@.state,
    {
        self.boot();
        self.resume(max_cycles)
    }
}

} // verus!
