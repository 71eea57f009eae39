use asmvm::assembly::assembler::Assembler;
use asmvm::assembly::lexer::Lexer;
use asmvm::vm::cpu::{Cpu, CpuErr, CpuState, ExecuteResult, VMErr};
use asmvm::vm::instruction::Instruction;
use asmvm::vm::memory::{Memory, MemoryErr};
use asmvm::vm::opcode::{Opcode, OpcodeErr};
use asmvm::vm::register::Register;

fn assemble(source: &str) -> Vec<u8> {
    let lines = source.split_inclusive('\n').map(|line| line.to_owned()).collect();
    let tokens = Lexer::new(lines).tokenize().expect("the source lexes");
    Assembler::new(&tokens, &String::from("test")).run().expect("the source assembles")
}

fn machine(source: &str) -> Cpu {
    Cpu::new(&assemble(source))
}

fn output(cpu: &Cpu) -> String {
    cpu.console.output.iter().collect()
}

fn image_of(header: i32, data: &[u8], code: &[Instruction]) -> Vec<u8> {
    let mut image = header.to_le_bytes().to_vec();
    image.extend_from_slice(data);
    for instruction in code {
        instruction.write(&mut image);
    }
    image
}

#[test]
fn runs_the_sum_program() {
    let mut cpu = machine("MOVI R0,5\nMOVI R1,10\nADD R0,R1\nTRP 1\nTRP 0\n");
    assert_eq!(cpu.run(100), CpuState::Halted);
    assert_eq!(output(&cpu), "15");
    assert_eq!(cpu.get_pc(), 4 + 5 * 12);
    assert_eq!(cpu.state, CpuState::Halted);
}

#[test]
fn halting_is_final() {
    let mut cpu = machine("TRP 0\nTRP 1\n");
    assert_eq!(cpu.run(1), CpuState::Halted);
    let pc = cpu.get_pc();
    assert_eq!(pc, 16);
    assert_eq!(cpu.step(), CpuState::Halted);
    assert_eq!(cpu.resume(10), CpuState::Halted);
    assert_eq!(cpu.get_pc(), pc);
    assert_eq!(output(&cpu), "");
}

#[test]
fn a_store_into_the_code_segment_faults_and_changes_nothing() {
    let image = assemble("here: STR R0, here\n");
    let mut cpu = Cpu::new(&image);
    cpu.rg_at_mut(0).unwrap().set_i32(-1);
    let expected = CpuState::Faulted {
        pc: 4,
        error: VMErr::MemoryErr(MemoryErr::SetInsideCodeSegBounds(4)),
    };
    assert_eq!(cpu.run(10), expected);
    assert_eq!(cpu.state, expected);
    for (address, byte) in image.iter().enumerate() {
        assert_eq!(cpu.memory.get_any_u8(address), Ok(*byte));
    }
    // a faulted machine stays as it is
    assert_eq!(cpu.resume(10), expected);
}

#[test]
fn every_store_that_touches_the_code_segment_is_refused() {
    let image = image_of(8, &[1, 2, 3, 4], &[Instruction { opcode: Opcode::Trp, op1: 0, op2: 0 }]);
    let mut memory = Memory::new(&image);
    for address in 0..30usize {
        let in_code = (8..20).contains(&address);
        assert_eq!(memory.in_code_seg(address), in_code);
        let byte_store = memory.set_u8(address, 0xaa);
        let touches = (address..address + 4).any(|a| (8..20).contains(&a));
        let word_store = memory.set_i32(address, 0x55555555);
        if in_code {
            assert_eq!(byte_store, Err(MemoryErr::SetInsideCodeSegBounds(address)));
        } else {
            assert_eq!(byte_store, Ok(()));
        }
        if touches {
            assert_eq!(word_store, Err(MemoryErr::SetInsideCodeSegBounds(address)));
        } else {
            assert_eq!(word_store, Ok(()));
        }
    }
    for address in 8..20usize {
        assert_eq!(memory.get_any_u8(address), Ok(image[address]));
    }
}

#[test]
fn the_indirect_stores_are_protected_too() {
    let mut cpu = machine("d: .int 0\ncode: TRP 0\n");
    cpu.rg_at_mut(1).unwrap().set_i32(7);
    cpu.rg_at_mut(2).unwrap().set_i32(9);
    let word = Instruction { opcode: Opcode::Str2, op1: 1, op2: 2 };
    assert_eq!(
        word.execute(&mut cpu),
        ExecuteResult::Error(VMErr::MemoryErr(MemoryErr::SetInsideCodeSegBounds(9)))
    );
    let byte = Instruction { opcode: Opcode::Stb2, op1: 1, op2: 2 };
    assert_eq!(
        byte.execute(&mut cpu),
        ExecuteResult::Error(VMErr::MemoryErr(MemoryErr::SetInsideCodeSegBounds(9)))
    );
    // a word that begins in the data segment and ends in the code segment
    cpu.rg_at_mut(2).unwrap().set_i32(5);
    assert_eq!(
        word.execute(&mut cpu),
        ExecuteResult::Error(VMErr::MemoryErr(MemoryErr::SetInsideCodeSegBounds(5)))
    );
    assert_eq!(cpu.memory.get_any_i32(4), Ok(0));
    assert_eq!(cpu.memory.get_any_i32(8), Ok(21));
}

#[test]
fn compares_three_ways() {
    let mut cpu = machine("TRP 0\n");
    let values = [i32::MIN, -120, -100, -1, 0, 1, 63, 100, i32::MAX];
    for x in values {
        for y in values {
            let expected = if x < y { -1 } else if x == y { 0 } else { 1 };
            cpu.rg_at_mut(5).unwrap().set_i32(x);
            cpu.rg_at_mut(6).unwrap().set_i32(y);
            let cmp = Instruction { opcode: Opcode::Cmp, op1: 5, op2: 6 };
            assert_eq!(cmp.execute(&mut cpu), ExecuteResult::Continue);
            assert_eq!(cpu.rg_at_ref(5).unwrap().get_i32(), expected);
            assert_eq!(cpu.rg_at_ref(6).unwrap().get_i32(), y);

            cpu.rg_at_mut(5).unwrap().set_i32(x);
            let cmpi = Instruction { opcode: Opcode::Cmpi, op1: 5, op2: y };
            assert_eq!(cmpi.execute(&mut cpu), ExecuteResult::Continue);
            assert_eq!(cpu.rg_at_ref(5).unwrap().get_i32(), expected);
        }
    }
}

#[test]
fn a_register_compared_with_itself_is_equal() {
    let mut cpu = machine("TRP 0\n");
    cpu.rg_at_mut(9).unwrap().set_i32(77);
    let cmp = Instruction { opcode: Opcode::Cmp, op1: 9, op2: 9 };
    assert_eq!(cmp.execute(&mut cpu), ExecuteResult::Continue);
    assert_eq!(cpu.rg_at_ref(9).unwrap().get_i32(), 0);
}

#[test]
fn narrowing_to_a_byte_wraps() {
    let mut register = Register::default();
    assert_eq!(register.get_i32(), 0);
    register.set_i32(256);
    assert_eq!(register.get_u8(), 0);
    register.set_i32(257);
    assert_eq!(register.get_u8(), 1);
    register.set_i32(-1);
    assert_eq!(register.get_u8(), 255);
    register.set_i32(i32::MIN);
    assert_eq!(register.get_u8(), 0);
    register.set_i32(i32::MAX);
    assert_eq!(register.get_u8(), 255);
    register.set_u8(200);
    assert_eq!(register.get_i32(), 200);
}

#[test]
fn the_reserved_registers_have_their_indices() {
    assert_eq!(Register::pc_idx(), 64);
    assert_eq!(Register::sl_idx(), 65);
    assert_eq!(Register::sb_idx(), 66);
    assert_eq!(Register::sp_idx(), 67);
    assert_eq!(Register::fp_idx(), 68);
    assert_eq!(Register::hp_idx(), 69);
    let mut cpu = machine("TRP 0\n");
    cpu.set_pc(1234);
    assert_eq!(cpu.rg_at_ref(Register::pc_idx()).unwrap().get_i32(), 1234);
    cpu.rg_at_mut(64).unwrap().set_i32(-5);
    assert_eq!(cpu.get_pc(), -5);
}

#[test]
fn decoding_gives_back_what_was_encoded() {
    let cpu = machine("TRP 0\n");
    let opcodes = [
        Opcode::Jmp, Opcode::Jmr, Opcode::Bnz, Opcode::Bgt, Opcode::Blt, Opcode::Brz, Opcode::Bal,
        Opcode::Mov, Opcode::Movi, Opcode::Lda, Opcode::Str, Opcode::Str2, Opcode::Ldr,
        Opcode::Ldr2, Opcode::Stb, Opcode::Stb2, Opcode::Ldb, Opcode::Ldb2, Opcode::Push,
        Opcode::Pop, Opcode::Peek, Opcode::And, Opcode::Or, Opcode::Not, Opcode::Cmp,
        Opcode::Cmpi, Opcode::Add, Opcode::Adi, Opcode::Sub, Opcode::Mul, Opcode::Muli,
        Opcode::Div, Opcode::Divi, Opcode::Alci, Opcode::Allc, Opcode::Allc2, Opcode::Trp,
    ];
    for opcode in opcodes {
        for (op1, op2) in [(0, 0), (1, -1), (i32::MAX, i32::MIN), (-256, 0x01020304)] {
            let instruction = Instruction { opcode, op1, op2 };
            let bytes = instruction.as_box_slice();
            let word = |at: usize| {
                i32::from_le_bytes([bytes[at], bytes[at + 1], bytes[at + 2], bytes[at + 3]])
            };
            let words = [word(0), word(4), word(8)];
            assert_eq!(cpu.decode(&words), Ok(instruction));
            assert_eq!(Opcode::try_from(i32::from(opcode)), Ok(opcode));
        }
    }
}

#[test]
fn the_opcode_ids_are_the_stable_ones() {
    let table = [
        (Opcode::Jmp, 1), (Opcode::Jmr, 2), (Opcode::Bnz, 3), (Opcode::Bgt, 4), (Opcode::Blt, 5),
        (Opcode::Brz, 6), (Opcode::Mov, 7), (Opcode::Lda, 8), (Opcode::Str, 9), (Opcode::Ldr, 10),
        (Opcode::Stb, 11), (Opcode::Ldb, 12), (Opcode::Add, 13), (Opcode::Adi, 14),
        (Opcode::Sub, 15), (Opcode::Mul, 16), (Opcode::Div, 17), (Opcode::And, 18),
        (Opcode::Or, 19), (Opcode::Cmp, 20), (Opcode::Trp, 21), (Opcode::Str2, 22),
        (Opcode::Ldr2, 23), (Opcode::Stb2, 24), (Opcode::Ldb2, 25), (Opcode::Movi, 31),
        (Opcode::Cmpi, 32), (Opcode::Muli, 33), (Opcode::Divi, 34), (Opcode::Alci, 35),
        (Opcode::Allc, 36), (Opcode::Allc2, 37), (Opcode::Not, 39), (Opcode::Push, 40),
        (Opcode::Pop, 41), (Opcode::Peek, 42), (Opcode::Bal, 43),
    ];
    for (opcode, id) in table {
        let encoded: i32 = opcode.into();
        assert_eq!(encoded, id);
        assert_eq!(Opcode::try_from(id), Ok(opcode));
    }
    for id in [0, 26, 27, 28, 29, 30, 38, 44, -1, 1000] {
        assert_eq!(Opcode::try_from(id), Err(OpcodeErr::InvalidOpcode(id)));
    }
}

#[test]
fn an_unknown_opcode_is_a_decode_fault() {
    let mut image = vec![4u8, 0, 0, 0];
    image.extend_from_slice(&99i32.to_le_bytes());
    image.extend_from_slice(&[0; 8]);
    let mut cpu = Cpu::new(&image);
    assert_eq!(
        cpu.run(5),
        CpuState::Faulted { pc: 4, error: VMErr::OpcodeErr(OpcodeErr::InvalidOpcode(99)) }
    );
}

#[test]
fn an_opcode_without_a_handler_is_an_invalid_instruction() {
    let mut cpu = machine("TRP 0\n");
    for opcode in [
        Opcode::Bal, Opcode::Push, Opcode::Pop, Opcode::Peek, Opcode::And, Opcode::Or,
        Opcode::Not, Opcode::Alci, Opcode::Allc, Opcode::Allc2,
    ] {
        let instruction = Instruction { opcode, op1: 1, op2: 2 };
        assert_eq!(
            instruction.execute(&mut cpu),
            ExecuteResult::Error(VMErr::CpuErr(CpuErr::InvalidInstruction(instruction)))
        );
    }
    let trap = Instruction { opcode: Opcode::Trp, op1: 6, op2: 0 };
    assert_eq!(
        trap.execute(&mut cpu),
        ExecuteResult::Error(VMErr::CpuErr(CpuErr::InvalidInstruction(trap)))
    );
}

#[test]
fn running_off_the_code_segment_is_a_fault() {
    let mut cpu = machine("MOVI R1, 1\n");
    assert_eq!(
        cpu.run(5),
        CpuState::Faulted { pc: 16, error: VMErr::MemoryErr(MemoryErr::OutOfCodeSegBounds(16)) }
    );
    assert_eq!(cpu.rg_at_ref(1).unwrap().get_i32(), 1);
    let mut cpu = machine("d: .int 0\nback: JMP d\n");
    assert_eq!(
        cpu.run(5),
        CpuState::Faulted { pc: 4, error: VMErr::MemoryErr(MemoryErr::OutOfCodeSegBounds(4)) }
    );
}

#[test]
fn a_register_index_out_of_range_is_a_fault() {
    let mut cpu = machine("TRP 0\n");
    assert!(cpu.valid_rg(69));
    assert!(!cpu.valid_rg(70));
    assert!(cpu.rg_at_ref(69).is_ok());
    assert_eq!(cpu.rg_at_ref(70).err(), Some(CpuErr::RgOutOfBounds(70)));
    assert_eq!(cpu.rg_at_mut(70).err(), Some(CpuErr::RgOutOfBounds(70)));
    let mov = Instruction { opcode: Opcode::Mov, op1: 1, op2: 70 };
    assert_eq!(
        mov.execute(&mut cpu),
        ExecuteResult::Error(VMErr::CpuErr(CpuErr::RgOutOfBounds(70)))
    );
    let movi = Instruction { opcode: Opcode::Movi, op1: -1, op2: 7 };
    assert_eq!(
        movi.execute(&mut cpu),
        ExecuteResult::Error(VMErr::CpuErr(CpuErr::RgOutOfBounds(usize::MAX)))
    );
    // the source register is looked at first
    let add = Instruction { opcode: Opcode::Add, op1: 71, op2: 72 };
    assert_eq!(
        add.execute(&mut cpu),
        ExecuteResult::Error(VMErr::CpuErr(CpuErr::RgOutOfBounds(72)))
    );
}

#[test]
fn division_by_zero_is_a_fault() {
    let mut cpu = machine("MOVI R1, 10\nMOVI R2, 0\nDIV R1, R2\nTRP 0\n");
    let fault = Instruction { opcode: Opcode::Div, op1: 1, op2: 2 };
    assert_eq!(
        cpu.run(10),
        CpuState::Faulted { pc: 28, error: VMErr::CpuErr(CpuErr::InvalidInstruction(fault)) }
    );
    assert_eq!(cpu.rg_at_ref(1).unwrap().get_i32(), 10);
    let divi = Instruction { opcode: Opcode::Divi, op1: 1, op2: 0 };
    assert_eq!(
        divi.execute(&mut cpu),
        ExecuteResult::Error(VMErr::CpuErr(CpuErr::InvalidInstruction(divi)))
    );
    assert_eq!(cpu.rg_at_ref(1).unwrap().get_i32(), 10);
}

#[test]
fn division_rounds_toward_zero() {
    let mut cpu = machine("TRP 0\n");
    for (x, y, q) in [(7, 2, 3), (-7, 2, -3), (7, -2, -3), (-7, -2, 3), (0, 5, 0), (i32::MIN, -1, i32::MIN)] {
        cpu.rg_at_mut(1).unwrap().set_i32(x);
        cpu.rg_at_mut(2).unwrap().set_i32(y);
        let div = Instruction { opcode: Opcode::Div, op1: 1, op2: 2 };
        assert_eq!(div.execute(&mut cpu), ExecuteResult::Continue);
        assert_eq!(cpu.rg_at_ref(1).unwrap().get_i32(), q);
        cpu.rg_at_mut(1).unwrap().set_i32(x);
        let divi = Instruction { opcode: Opcode::Divi, op1: 1, op2: y };
        assert_eq!(divi.execute(&mut cpu), ExecuteResult::Continue);
        assert_eq!(cpu.rg_at_ref(1).unwrap().get_i32(), q);
    }
}

#[test]
fn arithmetic_wraps_at_32_bits() {
    let mut cpu = machine("TRP 0\n");
    cpu.rg_at_mut(1).unwrap().set_i32(i32::MAX);
    let adi = Instruction { opcode: Opcode::Adi, op1: 1, op2: 1 };
    assert_eq!(adi.execute(&mut cpu), ExecuteResult::Continue);
    assert_eq!(cpu.rg_at_ref(1).unwrap().get_i32(), i32::MIN);
    cpu.rg_at_mut(2).unwrap().set_i32(1);
    let sub = Instruction { opcode: Opcode::Sub, op1: 1, op2: 2 };
    assert_eq!(sub.execute(&mut cpu), ExecuteResult::Continue);
    assert_eq!(cpu.rg_at_ref(1).unwrap().get_i32(), i32::MAX);
    let muli = Instruction { opcode: Opcode::Muli, op1: 1, op2: 2 };
    assert_eq!(muli.execute(&mut cpu), ExecuteResult::Continue);
    assert_eq!(cpu.rg_at_ref(1).unwrap().get_i32(), -2);
    cpu.rg_at_mut(3).unwrap().set_i32(65536);
    let mul = Instruction { opcode: Opcode::Mul, op1: 3, op2: 3 };
    assert_eq!(mul.execute(&mut cpu), ExecuteResult::Continue);
    assert_eq!(cpu.rg_at_ref(3).unwrap().get_i32(), 0);
}

#[test]
fn counts_down_in_a_loop() {
    let mut cpu = machine(
        "MOVI R0, 3\nloop: TRP 1\nADI R0, -1\nBNZ R0, loop\nMOVI R0, 10\nTRP 3\nTRP 0\n",
    );
    assert_eq!(cpu.run(1000), CpuState::Halted);
    assert_eq!(output(&cpu), "321\n");
}

#[test]
fn stops_when_the_cycles_run_out_and_goes_on_when_resumed() {
    let mut cpu = machine("loop: ADI R1, 1\nJMP loop\n");
    assert_eq!(cpu.run(7), CpuState::Running);
    assert_eq!(cpu.rg_at_ref(1).unwrap().get_i32(), 4);
    assert_eq!(cpu.resume(2), CpuState::Running);
    assert_eq!(cpu.rg_at_ref(1).unwrap().get_i32(), 5);
    assert_eq!(cpu.resume(0), CpuState::Running);
    assert_eq!(cpu.step(), CpuState::Running);
    assert_eq!(cpu.rg_at_ref(1).unwrap().get_i32(), 5);
    assert_eq!(cpu.get_pc(), 4);
}

#[test]
fn fetches_and_decodes_at_the_program_counter() {
    let mut cpu = machine("x: .byt 1\nMOV R1, R2\nTRP 0\n");
    assert!(!cpu.has_next_instruction());
    cpu.boot();
    assert_eq!(cpu.get_pc(), 5);
    assert!(cpu.has_next_instruction());
    let words = cpu.fetch().unwrap();
    assert_eq!(words, [7, 1, 2]);
    assert_eq!(cpu.decode(&words), Ok(Instruction { opcode: Opcode::Mov, op1: 1, op2: 2 }));
    cpu.set_pc(17);
    assert_eq!(cpu.fetch(), Ok([21, 0, 0]));
    cpu.set_pc(18);
    assert_eq!(cpu.fetch(), Err(MemoryErr::OutOfCodeSegBounds(18)));
    cpu.set_pc(4);
    assert_eq!(cpu.fetch(), Err(MemoryErr::OutOfCodeSegBounds(4)));
    cpu.set_pc(-1);
    assert!(!cpu.has_next_instruction());
    assert_eq!(cpu.fetch(), Err(MemoryErr::OutOfCodeSegBounds(usize::MAX)));
}

#[test]
fn prints_numbers_characters_and_texts() {
    let movi = |value: i32| Instruction { opcode: Opcode::Movi, op1: 0, op2: value };
    let trap = |number: i32| Instruction { opcode: Opcode::Trp, op1: number, op2: 0 };
    let image = image_of(10, &[5, b'H', b'e', b'l', b'l', b'o'], &[
        movi(i32::MIN),
        trap(1),
        movi(0),
        trap(1),
        movi(321),
        trap(3),
        movi(4),
        trap(5),
        trap(0),
    ]);
    let mut cpu = Cpu::new(&image);
    assert_eq!(cpu.run(100), CpuState::Halted);
    assert_eq!(output(&cpu), "-21474836480AHello");
}

#[test]
fn reads_numbers_and_bytes_from_the_input() {
    let mut cpu = machine("TRP 2\nMOV R1, R0\nTRP 4\nMOV R2, R0\nTRP 2\nTRP 0\n");
    cpu.console.input.push(String::from("-42\n"));
    cpu.console.input.push(String::from("255\r\n"));
    cpu.console.input.push(String::from("+7"));
    assert_eq!(cpu.run(100), CpuState::Halted);
    assert_eq!(cpu.rg_at_ref(1).unwrap().get_i32(), -42);
    assert_eq!(cpu.rg_at_ref(2).unwrap().get_i32(), 255);
    assert_eq!(cpu.rg_at_ref(0).unwrap().get_i32(), 7);
    assert!(cpu.console.input.is_empty());
}

#[test]
fn input_that_does_not_parse_is_an_io_fault() {
    let mut cpu = machine("MOVI R0, 9\nTRP 2\nTRP 0\n");
    cpu.console.input.push(String::from("twelve\n"));
    assert_eq!(cpu.run(100), CpuState::Faulted { pc: 16, error: VMErr::IOError { trp_num: 2 } });
    assert_eq!(cpu.rg_at_ref(0).unwrap().get_i32(), 9);
    assert!(cpu.console.input.is_empty());

    let mut cpu = machine("TRP 4\nTRP 0\n");
    cpu.console.input.push(String::from("256\n"));
    assert_eq!(cpu.run(100), CpuState::Faulted { pc: 4, error: VMErr::IOError { trp_num: 4 } });

    let mut cpu = machine("TRP 4\nTRP 0\n");
    cpu.console.input.push(String::from("-1\n"));
    assert_eq!(cpu.run(100), CpuState::Faulted { pc: 4, error: VMErr::IOError { trp_num: 4 } });
}

#[test]
fn a_read_without_input_is_an_io_fault() {
    let mut cpu = machine("TRP 4\nTRP 0\n");
    cpu.boot();
    assert!(cpu.awaits_input());
    assert_eq!(cpu.step(), CpuState::Faulted { pc: 4, error: VMErr::IOError { trp_num: 4 } });
    assert!(!cpu.awaits_input());
}

#[test]
fn tells_when_it_waits_for_input() {
    let mut cpu = machine("MOVI R1, 1\nTRP 2\nTRP 1\nTRP 0\n");
    cpu.boot();
    assert!(!cpu.awaits_input());
    assert_eq!(cpu.step(), CpuState::Running);
    assert!(cpu.awaits_input());
    cpu.console.input.push(String::from("12\n"));
    assert!(!cpu.awaits_input());
    assert_eq!(cpu.resume(10), CpuState::Halted);
    assert_eq!(output(&cpu), "12");
    assert!(!cpu.awaits_input());
}

#[test]
fn a_text_must_lie_in_the_data_segment() {
    // the length byte says 200, the data segment ends at 10
    let image = image_of(10, &[200, b'a', b'b', b'c', b'd', b'e'], &[
        Instruction { opcode: Opcode::Movi, op1: 0, op2: 4 },
        Instruction { opcode: Opcode::Trp, op1: 5, op2: 0 },
        Instruction { opcode: Opcode::Trp, op1: 0, op2: 0 },
    ]);
    let mut cpu = Cpu::new(&image);
    assert_eq!(
        cpu.run(10),
        CpuState::Faulted { pc: 22, error: VMErr::MemoryErr(MemoryErr::OutOfDataSegBounds(10)) }
    );
    assert_eq!(output(&cpu), "");
    // the address itself lies in the code segment
    cpu.rg_at_mut(0).unwrap().set_i32(10);
    let trap = Instruction { opcode: Opcode::Trp, op1: 5, op2: 0 };
    assert_eq!(
        trap.execute(&mut cpu),
        ExecuteResult::Error(VMErr::MemoryErr(MemoryErr::OutOfDataSegBounds(10)))
    );
}

#[test]
fn loads_an_image_into_the_arena() {
    assert_eq!(Memory::capacity(), 102400);
    let image = image_of(7, &[1, 2, 3], &[Instruction { opcode: Opcode::Trp, op1: 0, op2: 0 }]);
    let memory = Memory::new(&image);
    assert_eq!(memory.get_any_i32(0), Ok(7));
    assert_eq!(memory.get_data_seg_u8(4), Ok(1));
    assert_eq!(memory.get_data_seg_u8(6), Ok(3));
    assert_eq!(memory.get_data_seg_u8(7), Err(MemoryErr::OutOfDataSegBounds(7)));
    assert_eq!(memory.get_data_seg_u8(3), Err(MemoryErr::OutOfDataSegBounds(3)));
    assert_eq!(memory.get_data_seg_u8(0), Err(MemoryErr::OutOfDataSegBounds(0)));
    assert_eq!(memory.get_data_seg_i32(3), Err(MemoryErr::OutOfDataSegBounds(3)));
    assert_eq!(memory.get_data_seg_i32(4), Err(MemoryErr::OutOfDataSegBounds(4)));
    assert_eq!(memory.get_any_i32(3), Ok(0x03020100));
    assert_eq!(memory.get_code_seg_i32(7), Ok(21));
    assert_eq!(memory.get_code_seg_i32(15), Ok(0));
    assert_eq!(memory.get_code_seg_i32(16), Err(MemoryErr::OutOfCodeSegBounds(16)));
    assert_eq!(memory.get_code_seg_i32(6), Err(MemoryErr::OutOfCodeSegBounds(6)));
    assert_eq!(memory.get_any_u8(19), Ok(0));
    assert_eq!(memory.get_any_u8(102399), Ok(0));
    assert_eq!(memory.get_any_u8(102400), Err(MemoryErr::OutOfMemoryBounds(102400)));
    assert_eq!(memory.get_any_i32(102396), Ok(0));
    assert_eq!(memory.get_any_i32(102397), Err(MemoryErr::OutOfMemoryBounds(102397)));
    assert_eq!(memory.get_any_i32(usize::MAX), Err(MemoryErr::OutOfMemoryBounds(usize::MAX)));
    assert!(memory.in_data_seg(4) && memory.in_data_seg(6) && !memory.in_data_seg(7));
    assert!(!memory.in_data_seg(0) && !memory.in_data_seg(3));
    assert!(memory.in_code_seg(7) && memory.in_code_seg(18) && !memory.in_code_seg(19));
    assert!(memory.in_bounds(102399) && !memory.in_bounds(102400));
    assert_eq!(memory.next_heap_idx(), 19);
    assert_eq!(memory.next_stack_idx(), 102399);
    assert!(memory.in_free_memory(19) && memory.in_free_memory(102399));
    assert!(!memory.in_free_memory(18) && !memory.in_free_memory(102400));
    assert!(!memory.in_heap(19) && !memory.in_stack(102399));
    assert_eq!(memory.data_end(), 7);
}

#[test]
fn stores_outside_the_arena_are_refused() {
    let mut memory = Memory::default();
    assert_eq!(memory.set_u8(102400, 1), Err(MemoryErr::OutOfMemoryBounds(102400)));
    assert_eq!(memory.set_i32(102397, 1), Err(MemoryErr::OutOfMemoryBounds(102397)));
    assert_eq!(memory.set_i32(usize::MAX, 1), Err(MemoryErr::OutOfMemoryBounds(usize::MAX)));
    assert_eq!(memory.set_i32(102396, -2), Ok(()));
    assert_eq!(memory.get_any_i32(102396), Ok(-2));
    assert_eq!(memory.get_any_u8(102396), Ok(0xfe));
    assert_eq!(memory.set_u8(0, 9), Ok(()));
    assert_eq!(memory.get_any_i32(0), Ok(9));
}

#[test]
fn the_header_is_no_data() {
    let image = image_of(8, &[1, 2, 3, 4], &[]);
    let mut memory = Memory::new(&image);
    for address in 0..4usize {
        assert!(!memory.in_data_seg(address));
        assert_eq!(memory.get_data_seg_u8(address), Err(MemoryErr::OutOfDataSegBounds(address)));
        assert_eq!(memory.get_data_seg_i32(address), Err(MemoryErr::OutOfDataSegBounds(address)));
    }
    assert_eq!(memory.get_data_seg_u8(4), Ok(1));
    assert_eq!(memory.get_data_seg_i32(4), Ok(0x04030201));
    assert_eq!(memory.get_data_seg_i32(5), Err(MemoryErr::OutOfDataSegBounds(5)));
    // the header can still be read and written as any other byte of the arena
    assert_eq!(memory.get_any_i32(0), Ok(8));
    assert_eq!(memory.set_i32(0, 12), Ok(()));
    assert_eq!(memory.get_any_i32(0), Ok(12));
    assert!(!memory.in_code_seg(8));
}

#[test]
fn loads_refuse_the_header() {
    let mut cpu = machine("w: .int 77\nTRP 0\n");
    let ldr = Instruction { opcode: Opcode::Ldr, op1: 1, op2: 0 };
    assert_eq!(
        ldr.execute(&mut cpu),
        ExecuteResult::Error(VMErr::MemoryErr(MemoryErr::OutOfDataSegBounds(0)))
    );
    let ldb = Instruction { opcode: Opcode::Ldb, op1: 1, op2: 3 };
    assert_eq!(
        ldb.execute(&mut cpu),
        ExecuteResult::Error(VMErr::MemoryErr(MemoryErr::OutOfDataSegBounds(3)))
    );
    assert_eq!(cpu.rg_at_ref(1).unwrap().get_i32(), 0);
    let ldr = Instruction { opcode: Opcode::Ldr, op1: 1, op2: 4 };
    assert_eq!(ldr.execute(&mut cpu), ExecuteResult::Continue);
    assert_eq!(cpu.rg_at_ref(1).unwrap().get_i32(), 77);
    // a text cannot begin in the header
    cpu.rg_at_mut(0).unwrap().set_i32(0);
    let trap = Instruction { opcode: Opcode::Trp, op1: 5, op2: 0 };
    assert_eq!(
        trap.execute(&mut cpu),
        ExecuteResult::Error(VMErr::MemoryErr(MemoryErr::OutOfDataSegBounds(0)))
    );
}

#[test]
fn a_negative_header_leaves_no_code_segment() {
    let image = image_of(-1, &[1, 2, 3, 4], &[]);
    let mut memory = Memory::new(&image);
    for address in [0usize, 4, 7, 8, 102399] {
        assert!(!memory.in_code_seg(address));
    }
    assert_eq!(memory.data_end(), 102400);
    assert_eq!(memory.get_data_seg_u8(0), Err(MemoryErr::OutOfDataSegBounds(0)));
    assert_eq!(memory.get_data_seg_u8(4), Ok(1));
    assert_eq!(memory.get_data_seg_i32(4), Ok(0x04030201));
    assert_eq!(memory.get_data_seg_u8(102399), Ok(0));
    assert_eq!(memory.get_code_seg_i32(4), Err(MemoryErr::OutOfCodeSegBounds(4)));
    assert_eq!(memory.set_u8(3, 0), Ok(()));
    assert_eq!(memory.set_i32(4, -1), Ok(()));
    assert_eq!(memory.get_any_i32(0), Ok(0x00ffffff));
    let mut cpu = Cpu::new(&image);
    assert_eq!(
        cpu.run(3),
        CpuState::Faulted {
            pc: -1,
            error: VMErr::MemoryErr(MemoryErr::OutOfCodeSegBounds(usize::MAX)),
        }
    );
}

#[test]
fn each_handler_does_its_work_whatever_the_opcode_says() {
    let mut cpu = machine("d: .int 5\ncode: TRP 0\n");
    let operands = Instruction { opcode: Opcode::Trp, op1: 1, op2: 2 };
    cpu.rg_at_mut(1).unwrap().set_i32(9);
    cpu.rg_at_mut(2).unwrap().set_i32(8);
    assert_eq!(operands.cmp(&mut cpu), ExecuteResult::Continue);
    assert_eq!(cpu.rg_at_ref(1).unwrap().get_i32(), 1);
    assert_eq!(operands.cmpi(&mut cpu), ExecuteResult::Continue);
    assert_eq!(cpu.rg_at_ref(1).unwrap().get_i32(), -1);
    assert_eq!(operands.add(&mut cpu), ExecuteResult::Continue);
    assert_eq!(cpu.rg_at_ref(1).unwrap().get_i32(), 7);
    // the word of R1 at the address in R2: the first byte of the code segment
    assert_eq!(
        operands.str2(&mut cpu),
        ExecuteResult::Error(VMErr::MemoryErr(MemoryErr::SetInsideCodeSegBounds(8)))
    );
    // the word of R1 at address 2, in the header
    assert_eq!(operands.str(&mut cpu), ExecuteResult::Continue);
    assert_eq!(cpu.memory.get_any_i32(2), Ok(7));
    assert_eq!(operands.trp0(), ExecuteResult::Exit);
    assert_eq!(operands.trp(&mut cpu), ExecuteResult::Continue);
    assert_eq!(operands.trp3(&mut cpu), ExecuteResult::Continue);
    assert_eq!(output(&cpu), "0\u{0}");
    let divide = Instruction { opcode: Opcode::Add, op1: 1, op2: 0 };
    assert_eq!(
        divide.divi(&mut cpu),
        ExecuteResult::Error(VMErr::CpuErr(CpuErr::InvalidInstruction(divide)))
    );
}

#[test]
fn a_short_image_is_padded_with_zeros() {
    let memory = Memory::new(&[9, 0]);
    assert_eq!(memory.get_any_i32(0), Ok(9));
    assert!(!memory.in_code_seg(9));
    assert_eq!(memory.get_data_seg_u8(8), Ok(0));
    let empty = Memory::new(&[]);
    assert_eq!(empty.get_any_i32(0), Ok(0));
    assert_eq!(empty.get_data_seg_u8(0), Err(MemoryErr::OutOfDataSegBounds(0)));
}

#[test]
fn loads_and_stores_through_registers_and_labels() {
    let mut cpu = machine(
        "w: .int 1234\nb: .byt 'z'\nfree: .int 0\nLDR R1, w\nLDB R2, b\nLDA R3, free\nSTR R1, R3\nTRP 0\n",
    );
    assert_eq!(cpu.run(100), CpuState::Halted);
    assert_eq!(cpu.rg_at_ref(1).unwrap().get_i32(), 1234);
    assert_eq!(cpu.rg_at_ref(2).unwrap().get_i32(), 122);
    assert_eq!(cpu.rg_at_ref(3).unwrap().get_i32(), 9);
    assert_eq!(cpu.memory.get_data_seg_i32(9), Ok(1234));
    let ldr2 = Instruction { opcode: Opcode::Ldr2, op1: 5, op2: 3 };
    assert_eq!(ldr2.execute(&mut cpu), ExecuteResult::Continue);
    assert_eq!(cpu.rg_at_ref(5).unwrap().get_i32(), 1234);
    let ldr = Instruction { opcode: Opcode::Ldr, op1: 5, op2: 13 };
    assert_eq!(
        ldr.execute(&mut cpu),
        ExecuteResult::Error(VMErr::MemoryErr(MemoryErr::OutOfDataSegBounds(13)))
    );
    let ldb = Instruction { opcode: Opcode::Ldb, op1: 5, op2: -4 };
    assert_eq!(
        ldb.execute(&mut cpu),
        ExecuteResult::Error(VMErr::MemoryErr(MemoryErr::OutOfDataSegBounds(usize::MAX - 3)))
    );
}

#[test]
fn a_new_machine_is_ready_and_empty() {
    let cpu = machine("TRP 0\n");
    assert_eq!(cpu.state, CpuState::Running);
    assert_eq!(cpu.get_pc(), 0);
    assert!(cpu.registers.iter().all(|r| r.get_i32() == 0));
    assert!(cpu.console.input.is_empty());
    assert!(cpu.console.output.is_empty());
    assert_eq!(cpu.memory.get_any_i32(0), Ok(4));
}
