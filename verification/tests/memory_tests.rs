use asmvm::vm::instruction::Instruction;
use asmvm::vm::memory::Memory;
use asmvm::vm::opcode::Opcode;

/// An image whose header puts the code segment at 6: two bytes of data and
/// one instruction.
fn we_image() -> Vec<u8> {
    let mut image = vec![6u8, 0, 0, 0, b'w', b'e'];
    Instruction { opcode: Opcode::Trp, op1: 0, op2: 0 }.write(&mut image);
    image
}

/// An image whose header puts the code segment at 101.
fn hello_world_image() -> Vec<u8> {
    let mut image = vec![0u8; 101];
    image[0] = 101;
    image[100] = b'\n';
    Instruction { opcode: Opcode::Trp, op1: 0, op2: 0 }.write(&mut image);
    image
}

#[test]
fn get_any_i32_test() {
    let mut m = Memory::new(&we_image());

    let mut int = m.get_any_i32(0);
    assert_eq!(int.unwrap(), 6);

    m = Memory::new(&hello_world_image());

    let mut int = m.get_any_i32(0);
    assert_eq!(int.unwrap(), 101);
}

#[test]
fn set_any_i32_test() {
    let mut m = Memory::new(&we_image());

    m.set_i32(0, 10).expect("");
    assert_eq!(m.get_any_i32(0).expect(""), 10);
}
