use gbemu::debug::instrumentation::get_registers;
use gbemu::debug::registers_widget::{register_rows, RegistersWidget};
use gbemu::gameboy::cpu::CPU;
use gbemu::gameboy::debug::{Instruction, Registers};
use gbemu::gameboy::endian::le_to_u16;
use gbemu::gameboy::flags_register::{read_flag, write_flag, Flags};
use gbemu::gameboy::opcodes::cb_opcodes::cb_code_to_opcode;
use gbemu::gameboy::opcode_library::can_decode;
use gbemu::gameboy::opcodes::decode_instruction;
use gbemu::gameboy::opcodes::opcodes::code_to_opcode;
use gbemu::gameboy::{Gameboy, RegisterLabel16, RegisterLabel8, MEMORY_SIZE};

fn text(s: &str) -> String {
    s.to_string()
}

#[test]
fn register_pairs_are_made_of_their_halves() {
    let mut gb = Gameboy::new(vec![]);
    gb.set_register_16(RegisterLabel16::BC, 0x1234);
    assert_eq!(gb.get_register_8(RegisterLabel8::B), 0x12);
    assert_eq!(gb.get_register_8(RegisterLabel8::C), 0x34);
    gb.set_register_8(RegisterLabel8::A, 0xAB);
    gb.set_register_8(RegisterLabel8::F, 0xCD);
    assert_eq!(gb.get_register_16(RegisterLabel16::AF), 0xABCD);
    gb.set_register_16(RegisterLabel16::HL, 0xBEEF);
    assert_eq!(gb.get_register_16(RegisterLabel16::HL), 0xBEEF);
    assert_eq!(gb.get_register_8(RegisterLabel8::H), 0xBE);
    assert_eq!(gb.get_register_8(RegisterLabel8::L), 0xEF);
    // Other registers are left alone.
    assert_eq!(gb.get_register_16(RegisterLabel16::BC), 0x1234);
    assert_eq!(gb.get_register_16(RegisterLabel16::DE), 0);
}

#[test]
fn a_new_gameboy_has_all_registers_zero() {
    let gb = Gameboy::new(vec![1, 2, 3]);
    for r in [
        RegisterLabel16::AF,
        RegisterLabel16::BC,
        RegisterLabel16::DE,
        RegisterLabel16::HL,
        RegisterLabel16::StackPointer,
        RegisterLabel16::ProgramCounter,
    ] {
        assert_eq!(gb.get_register_16(r), 0);
    }
}

#[test]
fn flags_live_in_the_top_bits_of_f() {
    let mut gb = Gameboy::new(vec![]);
    gb.set_flag(Flags::Z, true);
    assert_eq!(gb.get_register_8(RegisterLabel8::F), 0x80);
    assert!(gb.get_flag(Flags::Z));
    gb.set_flag(Flags::C, true);
    assert_eq!(gb.get_register_8(RegisterLabel8::F), 0x90);
    gb.set_flag(Flags::N, true);
    gb.set_flag(Flags::H, true);
    assert_eq!(gb.get_register_8(RegisterLabel8::F), 0xF0);
    gb.set_flag(Flags::Z, false);
    assert_eq!(gb.get_register_8(RegisterLabel8::F), 0x70);
    assert!(!gb.get_flag(Flags::Z));
    assert!(gb.get_flag(Flags::N));
    assert!(gb.get_flag(Flags::H));
    assert!(gb.get_flag(Flags::C));
}

#[test]
fn flag_functions_on_a_cpu() {
    let mut cpu = CPU::new();
    write_flag(&mut cpu, Flags::H, true);
    assert_eq!(cpu.read_8_bits(RegisterLabel8::F), 0x20);
    assert!(read_flag(&cpu, Flags::H));
    assert!(!read_flag(&cpu, Flags::C));
    write_flag(&mut cpu, Flags::H, false);
    assert_eq!(cpu.read_8_bits(RegisterLabel8::F), 0);
}

#[test]
fn cpu_reads_what_it_wrote() {
    let mut cpu = CPU::new();
    cpu.write_16_bits(RegisterLabel16::DE, 0x0102);
    assert_eq!(cpu.read_8_bits(RegisterLabel8::D), 1);
    assert_eq!(cpu.read_8_bits(RegisterLabel8::E), 2);
    cpu.write_8_bits(RegisterLabel8::E, 0xFF);
    assert_eq!(cpu.read_16_bits(RegisterLabel16::DE), 0x01FF);
    cpu.write_16_bits(RegisterLabel16::StackPointer, 0xFFFE);
    assert_eq!(cpu.read_16_bits(RegisterLabel16::StackPointer), 0xFFFE);
    assert_eq!(cpu.read_16_bits(RegisterLabel16::ProgramCounter), 0);
}

#[test]
fn memory_holds_the_program_then_zeros() {
    let mut gb = Gameboy::new(vec![1, 2, 3]);
    assert_eq!(gb.get_memory_at(0), 1);
    assert_eq!(gb.get_memory_at(2), 3);
    assert_eq!(gb.get_memory_at(3), 0);
    assert_eq!(gb.get_memory_at((MEMORY_SIZE - 1) as u16), 0);
    gb.set_memory_at(0x100, 7);
    assert_eq!(gb.get_memory_at(0x100), 7);
    assert_eq!(gb.get_memory_at(0x101), 0);
    assert_eq!(gb.get_memory_at(0), 1);
}

#[test]
fn memory_can_be_filled_to_the_end() {
    let data = vec![0xAA; MEMORY_SIZE];
    let gb = Gameboy::new(data);
    assert_eq!(gb.get_memory_at(0), 0xAA);
    assert_eq!(gb.get_memory_at(0xFFFE), 0xAA);
}

#[test]
fn bootloader_is_loaded_at_address_zero() {
    let gb = Gameboy::new_with_bootloader();
    assert_eq!(gb.get_memory_at(0x00), 0x31);
    assert_eq!(gb.get_memory_at(0x01), 0xFE);
    assert_eq!(gb.get_memory_at(0xA8), 0xCE);
    assert_eq!(gb.get_memory_at(0xFF), 0x50);
    assert_eq!(gb.get_memory_at(0x100), 0x00);
    assert_eq!(gb.get_register_16(RegisterLabel16::ProgramCounter), 0);
}

#[test]
fn bootloader_first_instructions() {
    let mut gb = Gameboy::new_with_bootloader();

    // LD SP, 0xFFFE
    assert_eq!(gb.step_once(), 12);
    assert_eq!(gb.get_register_16(RegisterLabel16::StackPointer), 0xFFFE);
    assert_eq!(gb.get_register_16(RegisterLabel16::ProgramCounter), 3);

    // XOR A
    gb.set_register_8(RegisterLabel8::A, 0x5A);
    gb.set_register_8(RegisterLabel8::F, 0xF0);
    assert_eq!(gb.step_once(), 4);
    assert_eq!(gb.get_register_8(RegisterLabel8::A), 0);
    assert_eq!(gb.get_register_8(RegisterLabel8::F), 0);
    assert_eq!(gb.get_register_16(RegisterLabel16::ProgramCounter), 4);

    // LD HL, 0x9FFF
    assert_eq!(gb.step_once(), 12);
    assert_eq!(gb.get_register_16(RegisterLabel16::HL), 0x9FFF);

    // LD (HL-), A
    gb.set_memory_at(0x9FFF, 0x77);
    assert_eq!(gb.step_once(), 8);
    assert_eq!(gb.get_memory_at(0x9FFF), 0);
    assert_eq!(gb.get_register_16(RegisterLabel16::HL), 0x9FFE);
    assert_eq!(gb.get_register_16(RegisterLabel16::ProgramCounter), 8);

    // BIT 7, H: H is 0x9F, bit 7 is set, so Z is cleared
    assert_eq!(gb.step_once(), 12);
    assert!(!gb.get_flag(Flags::Z));
    assert!(!gb.get_flag(Flags::N));
    assert!(gb.get_flag(Flags::H));
    assert_eq!(gb.get_register_16(RegisterLabel16::ProgramCounter), 10);

    // JR NZ, -5: taken, back to the LD (HL-), A at 0x07
    assert_eq!(gb.step_once(), 12);
    assert_eq!(gb.get_register_16(RegisterLabel16::ProgramCounter), 0x07);
}

#[test]
fn tick_runs_until_the_budget_is_exceeded() {
    let mut gb = Gameboy::new_with_bootloader();
    // 12 + 4 + 12 = 28 cycles do not exceed 30; the fourth instruction does.
    gb.tick(30);
    assert_eq!(gb.get_register_16(RegisterLabel16::ProgramCounter), 8);
    assert_eq!(gb.get_register_16(RegisterLabel16::HL), 0x9FFE);
}

#[test]
fn tick_runs_at_least_one_instruction() {
    let mut gb = Gameboy::new(vec![0x00, 0x00]);
    gb.tick(0);
    assert_eq!(gb.get_register_16(RegisterLabel16::ProgramCounter), 1);
}

#[test]
fn bit_7_sets_zero_when_the_bit_is_clear() {
    let mut gb = Gameboy::new(vec![0xCB, 0x7C]);
    gb.set_register_8(RegisterLabel8::H, 0x7F);
    gb.set_flag(Flags::C, true);
    assert_eq!(gb.step_once(), 12);
    assert!(gb.get_flag(Flags::Z));
    assert!(gb.get_flag(Flags::H));
    assert!(gb.get_flag(Flags::C));
    assert_eq!(gb.get_register_16(RegisterLabel16::ProgramCounter), 2);
}

#[test]
fn jump_not_taken_when_zero_is_set() {
    let mut gb = Gameboy::new(vec![0x20, 0xFB]);
    gb.set_flag(Flags::Z, true);
    assert_eq!(gb.step_once(), 8);
    assert_eq!(gb.get_register_16(RegisterLabel16::ProgramCounter), 2);
}

#[test]
fn jump_wraps_round_the_address_space() {
    let mut gb = Gameboy::new(vec![0x20, 0x80]);
    assert_eq!(gb.step_once(), 12);
    assert_eq!(gb.get_register_16(RegisterLabel16::ProgramCounter), 0xFF82);
}

#[test]
fn inc_sets_half_carry_at_0x10() {
    let mut gb = Gameboy::new(vec![0x0C]);
    gb.set_register_8(RegisterLabel8::C, 0x0F);
    gb.set_flag(Flags::N, true);
    assert_eq!(gb.step_once(), 4);
    assert_eq!(gb.get_register_8(RegisterLabel8::C), 0x10);
    assert!(gb.get_flag(Flags::H));
    assert!(!gb.get_flag(Flags::N));
    assert!(!gb.get_flag(Flags::Z));
}

#[test]
fn inc_wraps_and_sets_zero() {
    let mut gb = Gameboy::new(vec![0x0C]);
    gb.set_register_8(RegisterLabel8::C, 0xFF);
    assert_eq!(gb.step_once(), 4);
    assert_eq!(gb.get_register_8(RegisterLabel8::C), 0);
    assert!(gb.get_flag(Flags::Z));
    assert!(!gb.get_flag(Flags::H));
}

#[test]
fn inc_leaves_zero_alone_without_overflow() {
    let mut gb = Gameboy::new(vec![0x0C]);
    gb.set_flag(Flags::Z, true);
    gb.set_register_8(RegisterLabel8::C, 0x01);
    gb.step_once();
    assert_eq!(gb.get_register_8(RegisterLabel8::C), 2);
    assert!(gb.get_flag(Flags::Z));
}

#[test]
fn loads_through_the_high_page() {
    let mut gb = Gameboy::new(vec![0xE2, 0xE0, 0x05]);
    gb.set_register_8(RegisterLabel8::C, 0x10);
    gb.set_register_8(RegisterLabel8::A, 0x42);
    assert_eq!(gb.step_once(), 8);
    assert_eq!(gb.get_memory_at(0xFF10), 0x42);
    assert_eq!(gb.step_once(), 12);
    assert_eq!(gb.get_memory_at(0xFF05), 0x42);
    assert_eq!(gb.get_register_16(RegisterLabel16::ProgramCounter), 3);
}

#[test]
fn loads_through_register_pairs() {
    // LD A, (DE); LD (HL), A; LD C, 0x33; LD A, 0x99; LD DE, 0x0100
    let mut gb = Gameboy::new(vec![0x1A, 0x77, 0x0E, 0x33, 0x3E, 0x99, 0x11, 0x00, 0x01]);
    gb.set_register_16(RegisterLabel16::DE, 0x0200);
    gb.set_memory_at(0x0200, 9);
    gb.set_register_16(RegisterLabel16::HL, 0x0300);
    assert_eq!(gb.step_once(), 8);
    assert_eq!(gb.get_register_8(RegisterLabel8::A), 9);
    assert_eq!(gb.step_once(), 8);
    assert_eq!(gb.get_memory_at(0x0300), 9);
    assert_eq!(gb.get_register_16(RegisterLabel16::HL), 0x0300);
    assert_eq!(gb.step_once(), 4);
    assert_eq!(gb.get_register_8(RegisterLabel8::C), 0x33);
    assert_eq!(gb.step_once(), 4);
    assert_eq!(gb.get_register_8(RegisterLabel8::A), 0x99);
    assert_eq!(gb.step_once(), 12);
    assert_eq!(gb.get_register_16(RegisterLabel16::DE), 0x0100);
    assert_eq!(gb.get_register_16(RegisterLabel16::ProgramCounter), 9);
}

#[test]
fn nop_takes_4_cycles() {
    let mut gb = Gameboy::new(vec![0x00]);
    assert_eq!(gb.step_once(), 4);
    assert_eq!(gb.get_register_16(RegisterLabel16::ProgramCounter), 1);
}

#[test]
fn run_on_a_cpu_and_memory() {
    let program = vec![0x31, 0x34, 0x12];
    let op = decode_instruction(0, &program).unwrap();
    let mut cpu = CPU::new();
    let mut memory = vec![0u8; 4];
    assert_eq!(op.run(&mut cpu, &mut memory), 12);
    assert_eq!(cpu.read_16_bits(RegisterLabel16::StackPointer), 0x1234);
    assert_eq!(cpu.read_16_bits(RegisterLabel16::ProgramCounter), 3);
}

#[test]
fn instruction_sizes() {
    let cases: Vec<(Vec<u8>, u16)> = vec![
        (vec![0x00], 1),
        (vec![0x0C], 1),
        (vec![0x0E, 0x01], 2),
        (vec![0x11, 0x01, 0x02], 3),
        (vec![0x1A], 1),
        (vec![0x20, 0x01], 2),
        (vec![0x21, 0x01, 0x02], 3),
        (vec![0x31, 0x01, 0x02], 3),
        (vec![0x32], 1),
        (vec![0x3E, 0x01], 2),
        (vec![0x77], 1),
        (vec![0xAF], 1),
        (vec![0xC9], 1),
        (vec![0xCB, 0x7C], 2),
        (vec![0xE0, 0x01], 2),
        (vec![0xE2], 1),
    ];
    for (program, size) in cases {
        let op = decode_instruction(0, &program).unwrap();
        assert_eq!(op.size(), size);
    }
}

#[test]
fn unknown_opcode_is_an_error() {
    let err = decode_instruction(0, &[0xFF]).err().unwrap();
    assert_eq!(err, text("Unknown command 0xFF at address: 0x0"));
    let err = decode_instruction(0x1A, &vec![0xD3; 0x20]).err().unwrap();
    assert_eq!(err, text("Unknown command 0xD3 at address: 0x1A"));
}

#[test]
fn unknown_cb_opcode_is_an_error() {
    let err = decode_instruction(0, &[0xCB, 0x11]).err().unwrap();
    assert_eq!(err, text("Unknown command 0xCB 0x11"));
}

#[test]
fn decoded_instructions_as_text() {
    let cases: Vec<(Vec<u8>, &str)> = vec![
        (vec![0x00], "NOP "),
        (vec![0x31, 0xFE, 0xFF], "LD16 StackPointer 0xFFFE"),
        (vec![0x11, 0x04, 0x01], "LD16 DE 0x104"),
        (vec![0x20, 0xFB], "JR NotZero -5"),
        (vec![0x20, 0x05], "JR NotZero 5"),
        (vec![0xE0, 0x47], "LD8 0xFF71 A"),
        (vec![0xCB, 0x7C], "BIT 7 H"),
        (vec![0x3E, 0x80], "LD8 A 0x80"),
        (vec![0x32], "LD8 HL A"),
        (vec![0x1A], "LD8 A DE"),
        (vec![0xE2], "LD8 C A"),
        (vec![0x0C], "INC C"),
        (vec![0xAF], "XOR A"),
        (vec![0xC9], "RET "),
    ];
    for (program, expected) in cases {
        let op = decode_instruction(0, &program).unwrap();
        assert_eq!(op.to_string(), text(expected));
    }
}

#[test]
fn mnemonics_of_opcodes() {
    assert_eq!(code_to_opcode(0x00, 0, &[0x00]), Ok("NOP"));
    assert_eq!(code_to_opcode(0x31, 0, &[0x31]), Ok("LD16 SP d16"));
    assert_eq!(code_to_opcode(0xCD, 0, &[0xCD]), Ok("CALL a16"));
    assert_eq!(code_to_opcode(0xC5, 0, &[0xC5]), Ok("PUSH BC"));
    assert_eq!(code_to_opcode(0xCB, 0, &[0xCB, 0x7C]), Ok("BIT 7 H"));
}

#[test]
fn mnemonic_errors() {
    assert_eq!(
        code_to_opcode(0xD3, 0x10, &[]),
        Err(text("Unknown command 0xD3 at address: 0x10"))
    );
    assert_eq!(
        code_to_opcode(0xCB, 1, &[0x00, 0xCB, 0x00]),
        Err(text("Unknown command 0xCB 0x0"))
    );
}

#[test]
fn cb_mnemonics() {
    assert_eq!(cb_code_to_opcode(0x7C), Ok("BIT 7 H"));
    assert_eq!(cb_code_to_opcode(0xFF), Err(text("Unknown command 0xCB 0xFF")));
}

#[test]
fn little_endian_words() {
    assert_eq!(le_to_u16(&[0x34, 0x12]), 0x1234);
    assert_eq!(le_to_u16(&[0xFF, 0x00, 0x77]), 0x00FF);
}

fn snapshot() -> Registers {
    let mut registers = Registers::new();
    registers.insert(text("A"), text("0x9"));
    registers.insert(text("AF"), text("0x100"));
    registers.insert(text("B"), text("0x2"));
    // A second value for a name replaces the first.
    registers.insert(text("A"), text("0x1"));
    registers
}

#[test]
fn register_values_by_name() {
    let registers = snapshot();
    assert_eq!(registers.get_register_val(&text("B")), text("0x2"));
    assert_eq!(registers.get_register_val(&text("A")), text("0x1"));
    assert_eq!(registers.get_register_val(&text("Z")), text("Invalid register"));
}

#[test]
fn an_empty_snapshot_has_no_registers() {
    let registers = Registers::new();
    assert_eq!(registers.get_register_val(&text("A")), text("Invalid register"));
}

#[test]
fn register_rows_for_display() {
    let rows = register_rows(&snapshot());
    assert_eq!(rows.len(), 17);
    assert_eq!(rows[0], text("----------------"));
    assert_eq!(rows[1], text("Register : Value"));
    assert_eq!(rows[2], text("----------------"));
    assert_eq!(rows[3], text("A        : 0x1"));
    assert_eq!(rows[5], text("AF       : 0x100"));
    assert_eq!(rows[6], text("B        : 0x2"));
    assert_eq!(rows[4], text("F        : Invalid register"));
    assert_eq!(rows[16], text("SP       : Invalid register"));
}

#[test]
fn instruction_getters() {
    let instruction = Instruction { address: 0x1234, opcode: text("NOP") };
    assert_eq!(instruction.get_address(), 0x1234);
    assert_eq!(instruction.get_opcode(), text("NOP"));
}

#[test]
fn widget_prints_the_registers_of_its_gameboy() {
    let mut gb = Gameboy::new(vec![]);
    gb.set_register_16(RegisterLabel16::HL, 0x4242);
    gb.set_register_8(RegisterLabel8::A, 0x0F);
    gb.set_register_16(RegisterLabel16::StackPointer, 0xFFFE);
    let widget = RegistersWidget::new(&gb);
    let rows = widget.print();
    assert_eq!(rows.len(), 17);
    assert_eq!(rows[1], text("Register : Value"));
    assert_eq!(rows[3], text("A        : 0xF"));
    assert_eq!(rows[4], text("F        : 0x0"));
    assert_eq!(rows[5], text("AF       : 0xF00"));
    assert_eq!(rows[12], text("H        : 0x42"));
    assert_eq!(rows[14], text("HL       : 0x4242"));
    assert_eq!(rows[15], text("PC       : 0x0"));
    assert_eq!(rows[16], text("SP       : 0xFFFE"));
}

#[test]
fn snapshot_of_a_gameboy() {
    let mut gb = Gameboy::new(vec![]);
    gb.set_register_16(RegisterLabel16::BC, 0xBEEF);
    let registers = get_registers(&gb);
    assert_eq!(registers.get_register_val(&text("B")), text("0xBE"));
    assert_eq!(registers.get_register_val(&text("C")), text("0xEF"));
    assert_eq!(registers.get_register_val(&text("BC")), text("0xBEEF"));
    assert_eq!(registers.get_register_val(&text("DE")), text("0x0"));
    assert_eq!(registers.get_register_val(&text("Q")), text("Invalid register"));
}

#[test]
fn numbers_as_text() {
    let cases: Vec<(Vec<u8>, &str)> = vec![
        (vec![0x20, 0x80], "JR NotZero -128"),
        (vec![0x20, 0x7F], "JR NotZero 127"),
        (vec![0x20, 0x00], "JR NotZero 0"),
        (vec![0xE0, 0xFF], "LD8 0xFF255 A"),
        (vec![0xE0, 0x00], "LD8 0xFF0 A"),
        (vec![0x11, 0x00, 0x00], "LD16 DE 0x0"),
        (vec![0x31, 0xFF, 0xFF], "LD16 StackPointer 0xFFFF"),
        (vec![0x3E, 0x0A], "LD8 A 0xA"),
    ];
    for (program, expected) in cases {
        let op = decode_instruction(0, &program).unwrap();
        assert_eq!(op.to_string(), text(expected));
    }
}

#[test]
fn rows_pad_names_to_eight_characters() {
    let mut registers = Registers::new();
    registers.insert(text("A"), text("x"));
    let rows = register_rows(&registers);
    assert_eq!(rows[1], text("Register : Value"));
    assert_eq!(rows[3], text("A        : x"));
}

#[test]
fn tick_stops_before_an_unknown_opcode() {
    let mut gb = Gameboy::new(vec![0x00, 0xFF]);
    assert!(!gb.tick(100));
    assert_eq!(gb.get_register_16(RegisterLabel16::ProgramCounter), 1);
}

#[test]
fn tick_reports_a_completed_run() {
    let mut gb = Gameboy::new(vec![0x00, 0x00, 0x00]);
    assert!(gb.tick(5));
    assert_eq!(gb.get_register_16(RegisterLabel16::ProgramCounter), 2);
}

#[test]
fn can_step_checks_the_next_instruction() {
    let mut gb = Gameboy::new(vec![0x00, 0xFF, 0x32]);
    assert!(gb.can_step());
    gb.set_register_16(RegisterLabel16::ProgramCounter, 1);
    assert!(!gb.can_step());
    // LD (HL-), A with HL at zero would decrement HL below zero.
    gb.set_register_16(RegisterLabel16::ProgramCounter, 2);
    assert!(!gb.can_step());
    gb.set_register_16(RegisterLabel16::HL, 1);
    assert!(gb.can_step());
    // RET with the stack pointer at the last byte of memory.
    let mut ret = Gameboy::new(vec![0xC9]);
    ret.set_register_16(RegisterLabel16::StackPointer, 0xFFFE);
    assert!(!ret.can_step());
    ret.set_register_16(RegisterLabel16::StackPointer, 0xFFFD);
    assert!(ret.can_step());
}

#[test]
fn can_decode_checks_operand_bytes() {
    assert!(can_decode(0, &[0x31, 0x00, 0x00]));
    assert!(!can_decode(0, &[0x31, 0x00]));
    assert!(!can_decode(1, &[0x00]));
    assert!(can_decode(0, &[0xFF]));
    assert!(!can_decode(0, &[0xCB]));
}

#[test]
fn can_run_checks_memory_accesses() {
    let op = decode_instruction(0, &[0xE2]).unwrap();
    let mut cpu = CPU::new();
    cpu.write_8_bits(RegisterLabel8::C, 0x10);
    assert!(op.can_run(&cpu, &vec![0u8; 0xFF11]));
    assert!(!op.can_run(&cpu, &vec![0u8; 0xFF10]));
}

#[test]
fn tick_ends_where_steps_end() {
    let mut ticked = Gameboy::new_with_bootloader();
    let mut stepped = Gameboy::new_with_bootloader();
    assert!(ticked.tick(40));
    // 12 + 4 + 12 + 8 = 36 cycles do not exceed 40; the fifth step (BIT, 12) does.
    let mut total = 0;
    let mut count = 0;
    while total <= 40 {
        total += stepped.step_once();
        count += 1;
    }
    assert_eq!(count, 5);
    for r in [
        RegisterLabel16::AF,
        RegisterLabel16::BC,
        RegisterLabel16::DE,
        RegisterLabel16::HL,
        RegisterLabel16::StackPointer,
        RegisterLabel16::ProgramCounter,
    ] {
        assert_eq!(ticked.get_register_16(r), stepped.get_register_16(r));
    }
    assert_eq!(ticked.get_memory_at(0x9FFF), stepped.get_memory_at(0x9FFF));
}
