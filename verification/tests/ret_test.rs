use gbemu::gameboy::opcodes::decode_instruction;
use gbemu::gameboy::{Gameboy, RegisterLabel16};

#[test]
fn run_instruction_is_1_byte_big() {
    let instructions = vec![0xC9];
    let opcode = decode_instruction(0x00, &instructions).unwrap();
    assert_eq!(opcode.size(), 1);
}

#[test]
fn ret_takes_16_cycles() {
    let mut gb = Gameboy::new(vec![0xC9, 0x34, 0x12]);
    gb.set_register_16(RegisterLabel16::StackPointer, 0x01);
    let cycles = gb.step_once();
    assert_eq!(cycles, 16);
}

#[test]
fn ret_jumps_back_to_correct_place() {
    let mut gb = Gameboy::new(vec![0xC9, 0x34, 0x12]);
    gb.set_register_16(RegisterLabel16::StackPointer, 0x01);
    let _ = gb.step_once();
    assert_eq!(gb.get_register_16(RegisterLabel16::ProgramCounter), 0x1234);
    assert_eq!(gb.get_register_16(RegisterLabel16::StackPointer), 0x03);
}
