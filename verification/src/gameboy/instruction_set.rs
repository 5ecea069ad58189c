use vstd::prelude::*;

use super::cpu::{pair_value, CPU};
use super::flags_register::{flag_of, with_flag, Flags};
use super::messages::{alt_hex, dec_text, unknown_cb_command_text, unknown_command_text};
use super::register::{RegisterLabel16, RegisterLabel8};

verus! {

/// The kinds of instruction the decoder knows.
#[derive(Clone, Copy, Debug, PartialEq, Eq, Structural)]
pub enum Catagory {
    NOP,
    LD16,
    LD8,
    XOR,
    BIT,
    JR,
    INC,
    RET,
}

/// The condition of a relative jump.
#[derive(Clone, Copy, Debug, PartialEq, Eq, Structural)]
pub enum JumpCondition {
    NotZero,
}

/// An operand of an instruction.
#[derive(Clone, Copy, Debug, PartialEq, Eq, Structural)]
pub enum Argument {
    Register8Constant(RegisterLabel8),
    Register16Constant(RegisterLabel16),
    RegisterIndirectDec(RegisterLabel16),
    RegisterIndirect(RegisterLabel16),
    HighOffsetRegister(RegisterLabel8),
    HighOffsetConstant(u8),
    LargeValue(u16),
    SmallValue(u8),
    JumpDistance(i8),
    Bit(u8),
    JumpArgument(JumpCondition),
}

/// The CPU registers together with the memory they address.
pub struct Machine {
    pub cpu: CPU,
    pub memory: Seq<u8>,
}

/// The machine with these registers and this memory.
pub open spec fn machine(cpu: CPU, memory: Seq<u8>) -> Machine {
    Machine { cpu, memory }
}

// ---------------------------------------------------------------------------
// Instruction size
// ---------------------------------------------------------------------------

/// How many bytes an operand takes in the instruction stream.
pub open spec fn arg_size(arg: Argument) -> nat {
    match arg {
        Argument::HighOffsetConstant(_) => 1,
        Argument::LargeValue(_) => 2,
        Argument::SmallValue(_) => 1,
        Argument::JumpDistance(_) => 1,
        Argument::Bit(_) => 1,
        _ => 0,
    }
}

/// The bytes taken by a list of operands.
pub open spec fn args_size(args: Seq<Argument>) -> nat
    decreases args.len(),
{
    if args.len() == 0 {
        0
    } else {
        args_size(args.drop_last()) + arg_size(args.last())
    }
}

/// The size of an instruction: its opcode byte and its operands.
pub open spec fn op_size(args: Seq<Argument>) -> nat {
    args_size(args) + 1
}

/// Each operand takes at most two bytes.
pub proof fn lemma_args_size_bound(args: Seq<Argument>)
    ensures
        args_size(args) <= 2 * args.len(),
    decreases args.len(),
{
    if args.len() > 0 {
        lemma_args_size_bound(args.drop_last());
    }
}

// ---------------------------------------------------------------------------
// Which operand lists an instruction may have
// ---------------------------------------------------------------------------

/// The operands an 8-bit load may read from.
pub open spec fn is_ld8_source(arg: Argument) -> bool {
    ||| arg is Register8Constant
    ||| arg is RegisterIndirect
    ||| arg is SmallValue
}

/// The operands an 8-bit load may write to.
pub open spec fn is_ld8_destination(arg: Argument) -> bool {
    ||| arg is RegisterIndirectDec
    ||| arg is RegisterIndirect
    ||| arg is HighOffsetConstant
    ||| arg is Register8Constant
    ||| arg is HighOffsetRegister
}

/// The operand lists each kind of instruction takes.
pub open spec fn well_formed_op(catagory: Catagory, args: Seq<Argument>) -> bool {
    match catagory {
        Catagory::NOP => args.len() == 0,
        Catagory::RET => args.len() == 0,
        Catagory::LD16 => args.len() == 2 && args[0] is Register16Constant && args[1] is LargeValue,
        Catagory::LD8 => args.len() == 2 && is_ld8_destination(args[0]) && is_ld8_source(args[1]),
        Catagory::XOR => args.len() == 1 && args[0] is Register8Constant,
        Catagory::BIT => args.len() == 2 && (args[0] matches Argument::Bit(b) && b < 8)
            && args[1] is Register8Constant,
        Catagory::JR => args.len() == 2 && args[0] is JumpArgument && args[1] is JumpDistance,
        Catagory::INC => args.len() == 1 && args[0] is Register8Constant,
    }
}

// ---------------------------------------------------------------------------
// Decoding
// ---------------------------------------------------------------------------

/// A byte read as a two's-complement signed value.
pub open spec fn signed_byte(b: u8) -> i8 {
    if b < 128 {
        b as i8
    } else {
        (b as int - 256) as i8
    }
}

/// The instruction at `pc`: its kind and operands, or `None` where the
/// opcode (or the byte after the 0xCB prefix) is not known.
pub open spec fn decoded(code: Seq<u8>, pc: u16) -> Option<(Catagory, Seq<Argument>)> {
    let b1 = code[pc + 1];
    let b2 = code[pc + 2];
    match code[pc as int] {
        0x00u8 => Some((Catagory::NOP, seq![])),
        0x0Cu8 => Some((Catagory::INC, seq![Argument::Register8Constant(RegisterLabel8::C)])),
        0x0Eu8 => Some(
            (
                Catagory::LD8,
                seq![Argument::Register8Constant(RegisterLabel8::C), Argument::SmallValue(b1)],
            ),
        ),
        0x11u8 => Some(
            (
                Catagory::LD16,
                seq![
                    Argument::Register16Constant(RegisterLabel16::DE),
                    Argument::LargeValue(pair_value(b2, b1)),
                ],
            ),
        ),
        0x1Au8 => Some(
            (
                Catagory::LD8,
                seq![
                    Argument::Register8Constant(RegisterLabel8::A),
                    Argument::RegisterIndirect(RegisterLabel16::DE),
                ],
            ),
        ),
        0x20u8 => Some(
            (
                Catagory::JR,
                seq![
                    Argument::JumpArgument(JumpCondition::NotZero),
                    Argument::JumpDistance(signed_byte(b1)),
                ],
            ),
        ),
        0x21u8 => Some(
            (
                Catagory::LD16,
                seq![
                    Argument::Register16Constant(RegisterLabel16::HL),
                    Argument::LargeValue(pair_value(b2, b1)),
                ],
            ),
        ),
        0x31u8 => Some(
            (
                Catagory::LD16,
                seq![
                    Argument::Register16Constant(RegisterLabel16::StackPointer),
                    Argument::LargeValue(pair_value(b2, b1)),
                ],
            ),
        ),
        0x32u8 => Some(
            (
                Catagory::LD8,
                seq![
                    Argument::RegisterIndirectDec(RegisterLabel16::HL),
                    Argument::Register8Constant(RegisterLabel8::A),
                ],
            ),
        ),
        0x3Eu8 => Some(
            (
                Catagory::LD8,
                seq![Argument::Register8Constant(RegisterLabel8::A), Argument::SmallValue(b1)],
            ),
        ),
        0x77u8 => Some(
            (
                Catagory::LD8,
                seq![
                    Argument::RegisterIndirect(RegisterLabel16::HL),
                    Argument::Register8Constant(RegisterLabel8::A),
                ],
            ),
        ),
        0xAFu8 => Some((Catagory::XOR, seq![Argument::Register8Constant(RegisterLabel8::A)])),
        0xC9u8 => Some((Catagory::RET, seq![])),
        0xCBu8 => if b1 == 0x7Cu8 {
            Some(
                (
                    Catagory::BIT,
                    seq![Argument::Bit(7), Argument::Register8Constant(RegisterLabel8::H)],
                ),
            )
        } else {
            None
        },
        0xE0u8 => Some(
            (
                Catagory::LD8,
                seq![
                    Argument::HighOffsetConstant(b1),
                    Argument::Register8Constant(RegisterLabel8::A),
                ],
            ),
        ),
        0xE2u8 => Some(
            (
                Catagory::LD8,
                seq![
                    Argument::HighOffsetRegister(RegisterLabel8::C),
                    Argument::Register8Constant(RegisterLabel8::A),
                ],
            ),
        ),
        _ => None,
    }
}

/// The error text of a failed decode at `pc`.
pub open spec fn decode_error_text(code: Seq<u8>, pc: u16) -> Seq<char> {
    if code[pc as int] == 0xCBu8 {
        unknown_cb_command_text(code[pc + 1])
    } else {
        unknown_command_text(code[pc as int], pc)
    }
}

/// How many bytes after an opcode byte the decoder reads: one for an 8-bit
/// operand or the byte after the 0xCB prefix, two for a 16-bit operand.
pub open spec fn operand_bytes(code: u8) -> nat {
    match code {
        0x0Eu8 | 0x20u8 | 0x3Eu8 | 0xCBu8 | 0xE0u8 => 1,
        0x11u8 | 0x21u8 | 0x31u8 => 2,
        _ => 0,
    }
}

/// Decoding at `pc` reads only bytes that are there: the opcode byte and
/// the bytes after it that `operand_bytes` counts. Where the decoder
/// computes an operand's address in 16 bits (the 8-bit immediates and the
/// end of a 16-bit immediate), that sum does not overflow.
pub open spec fn decode_in_bounds(code: Seq<u8>, pc: u16) -> bool {
    &&& pc < code.len()
    &&& pc + operand_bytes(code[pc as int]) < code.len()
    &&& match code[pc as int] {
        0x0Eu8 | 0x20u8 | 0x3Eu8 => pc + 1 <= 0xFFFF,
        0x11u8 | 0x21u8 | 0x31u8 => pc + 3 <= 0xFFFF,
        _ => true,
    }
}

/// The size of a decoded instruction is the number of bytes the decoder
/// read for it: the opcode byte and its operand bytes.
pub proof fn lemma_decoded_size(code: Seq<u8>, pc: u16)
    ensures
        decoded(code, pc) matches Some(op) ==> op_size(op.1) == 1 + operand_bytes(code[pc as int]),
{
    reveal_with_fuel(args_size, 3);
}

/// Every decoded instruction has the operand list its kind takes.
pub proof fn lemma_decoded_well_formed(code: Seq<u8>, pc: u16)
    ensures
        decoded(code, pc) matches Some(op) ==> well_formed_op(op.0, op.1),
{
}

// ---------------------------------------------------------------------------
// Execution
// ---------------------------------------------------------------------------

/// The target of a relative jump of `distance` from `pc`, wrapping round
/// the 16-bit address space.
pub open spec fn jump_target(pc: u16, distance: i8) -> u16 {
    ((pc as int + distance as int) % 65536) as u16
}

/// The value an 8-bit load reads, and the extra cycles the read takes.
pub open spec fn ld8_source_value(src: Argument, cpu: CPU, memory: Seq<u8>) -> (u8, nat) {
    match src {
        Argument::Register8Constant(r) => (cpu.reg8(r), 0),
        Argument::RegisterIndirect(r) => (memory[cpu.reg16(r) as int], 4),
        Argument::SmallValue(v) => (v, 0),
        _ => (0, 0),
    }
}

/// The machine after an 8-bit load stores `val`, and the extra cycles the
/// store takes. `(HL-)` stores through HL and then decrements HL.
pub open spec fn ld8_store(dest: Argument, val: u8, cpu: CPU, memory: Seq<u8>) -> (Machine, nat) {
    match dest {
        Argument::RegisterIndirectDec(r) => (
            machine(
                cpu.with_reg16(r, (cpu.reg16(r) - 1) as u16),
                memory.update(cpu.reg16(r) as int, val),
            ),
            4,
        ),
        Argument::RegisterIndirect(r) => (machine(cpu, memory.update(cpu.reg16(r) as int, val)), 4),
        Argument::HighOffsetConstant(o) => (machine(cpu, memory.update(0xFF00 + o, val)), 8),
        Argument::Register8Constant(r) => (machine(cpu.with_reg8(r, val), memory), 0),
        Argument::HighOffsetRegister(r) => (
            machine(cpu, memory.update(0xFF00 + cpu.reg8(r), val)),
            4,
        ),
        _ => (machine(cpu, memory), 0),
    }
}

/// The value BIT computes for the zero flag: the register XOR the tested
/// bit, shifted down by the bit's index, compared with one.
pub open spec fn bit_test(bit: u8, value: u8) -> bool {
    ((1u8 << bit) ^ value) >> bit == 1u8
}

/// The register file after INC of a register holding `value`: Z is set when
/// the increment wraps to zero (and otherwise left alone), N is cleared, H is
/// set when the result is 0x10 (and otherwise left alone), then the register
/// takes the incremented value, wrapping at 256.
pub open spec fn inc_result(cpu: CPU, r: RegisterLabel8) -> CPU {
    let value = cpu.reg8(r);
    let new_val = ((value as int + 1) % 256) as u8;
    let c1 = if value == 255 { with_flag(cpu, Flags::Z, true) } else { cpu };
    let c2 = with_flag(c1, Flags::N, false);
    let c3 = if new_val == 0x10u8 { with_flag(c2, Flags::H, true) } else { c2 };
    c3.with_reg8(r, new_val)
}

/// The program counter moved past an instruction with operands `args`.
pub open spec fn advanced(cpu: CPU, args: Seq<Argument>) -> CPU {
    cpu.with_reg16(RegisterLabel16::ProgramCounter, (cpu.pc + op_size(args)) as u16)
}

/// The machine after executing an instruction, and the cycles it takes.
/// The program counter first moves past the instruction; a jump or a return
/// then sets it.
pub open spec fn execute(op: (Catagory, Seq<Argument>), m: Machine) -> (Machine, nat) {
    let args = op.1;
    let c = advanced(m.cpu, args);
    let mem = m.memory;
    match op.0 {
        Catagory::NOP => (machine(c, mem), 4),
        Catagory::LD16 => match (args[0], args[1]) {
            (Argument::Register16Constant(r), Argument::LargeValue(v)) => (
                machine(c.with_reg16(r, v), mem),
                12,
            ),
            _ => (machine(c, mem), 12),
        },
        Catagory::LD8 => {
            let (val, read_cycles) = ld8_source_value(args[1], c, mem);
            let (after, store_cycles) = ld8_store(args[0], val, c, mem);
            (after, read_cycles + store_cycles + 4)
        },
        Catagory::XOR => match args[0] {
            Argument::Register8Constant(r) => (
                machine(
                    c.with_reg8(RegisterLabel8::A, c.a ^ c.reg8(r)).with_reg8(RegisterLabel8::F, 0),
                    mem,
                ),
                4,
            ),
            _ => (machine(c, mem), 4),
        },
        Catagory::BIT => match (args[0], args[1]) {
            (Argument::Bit(b), Argument::Register8Constant(r)) => (
                machine(
                    with_flag(
                        with_flag(with_flag(c, Flags::Z, bit_test(b, c.reg8(r))), Flags::N, false),
                        Flags::H,
                        true,
                    ),
                    mem,
                ),
                12,
            ),
            _ => (machine(c, mem), 12),
        },
        Catagory::JR => match args[1] {
            Argument::JumpDistance(d) => if !flag_of(c, Flags::Z) {
                (
                    machine(
                        c.with_reg16(RegisterLabel16::ProgramCounter, jump_target(c.pc, d)),
                        mem,
                    ),
                    12,
                )
            } else {
                (machine(c, mem), 8)
            },
            _ => (machine(c, mem), 8),
        },
        Catagory::INC => match args[0] {
            Argument::Register8Constant(r) => (machine(inc_result(c, r), mem), 4),
            _ => (machine(c, mem), 4),
        },
        Catagory::RET => (
            machine(
                c.with_reg16(
                    RegisterLabel16::ProgramCounter,
                    pair_value(mem[c.sp + 1], mem[c.sp as int]),
                ).with_reg16(RegisterLabel16::StackPointer, (c.sp + 2) as u16),
                mem,
            ),
            16,
        ),
    }
}

/// Executing the instruction touches only memory that is there and makes no
/// 16-bit register overflow: the program counter moved past the instruction,
/// an address an 8-bit load reads or writes, HL before `(HL-)` decrements it,
/// and the two stack bytes RET pops.
pub open spec fn execute_is_safe(op: (Catagory, Seq<Argument>), m: Machine) -> bool {
    let args = op.1;
    let c = advanced(m.cpu, args);
    let len = m.memory.len();
    &&& m.cpu.pc + op_size(args) <= 0xFFFF
    &&& match op.0 {
        Catagory::LD8 => {
            &&& (args[1] matches Argument::RegisterIndirect(r) ==> c.reg16(r) < len)
            &&& match args[0] {
                Argument::RegisterIndirectDec(r) => 1 <= c.reg16(r) < len,
                Argument::RegisterIndirect(r) => c.reg16(r) < len,
                Argument::HighOffsetConstant(o) => 0xFF00 + o < len,
                Argument::HighOffsetRegister(r) => 0xFF00 + c.reg8(r) < len,
                _ => true,
            }
        },
        Catagory::RET => c.sp + 1 < len && c.sp + 2 <= 0xFFFF,
        _ => true,
    }
}

/// Every instruction takes at least four cycles.
pub proof fn lemma_execute_takes_cycles(op: (Catagory, Seq<Argument>), m: Machine)
    ensures
        execute(op, m).1 >= 4,
{
}

/// An instruction that executes safely keeps the size of memory.
pub proof fn lemma_execute_keeps_memory_size(op: (Catagory, Seq<Argument>), m: Machine)
    requires
        execute_is_safe(op, m),
    ensures
        execute(op, m).0.memory.len() == m.memory.len(),
{
}

/// The program counter moves past each decoded instruction, except where a
/// relative jump is taken (it then moves by the jump distance from the next
/// instruction) or a return pops it from the stack.
pub proof fn lemma_pc_after_execute(m: Machine)
    requires
        decoded(m.memory, m.cpu.pc) is Some,
        execute_is_safe(decoded(m.memory, m.cpu.pc).unwrap(), m),
    ensures
        ({
            let op = decoded(m.memory, m.cpu.pc).unwrap();
            let next_pc = (m.cpu.pc + op_size(op.1)) as u16;
            let after = execute(op, m).0.cpu;
            &&& op.0 != Catagory::JR && op.0 != Catagory::RET ==> after.pc == next_pc
            &&& op.0 == Catagory::JR && flag_of(m.cpu, Flags::Z) ==> after.pc == next_pc
            &&& op.0 == Catagory::JR && !flag_of(m.cpu, Flags::Z) ==> after.pc == jump_target(
                next_pc,
                signed_byte(m.memory[m.cpu.pc + 1]),
            )
            &&& op.0 == Catagory::RET ==> after.pc == pair_value(
                m.memory[m.cpu.sp + 1],
                m.memory[m.cpu.sp as int],
            ) && after.sp == m.cpu.sp + 2
        }),
{
}

/// XOR A clears A and every flag, and leaves the other registers but the
/// program counter as they were.
pub proof fn lemma_xor_a_clears(m: Machine)
    ensures
        ({
            let op = (Catagory::XOR, seq![Argument::Register8Constant(RegisterLabel8::A)]);
            let after = execute(op, m).0.cpu;
            &&& after.a == 0
            &&& after.f == 0
            &&& after.b == m.cpu.b && after.c == m.cpu.c && after.d == m.cpu.d
            &&& after.e == m.cpu.e && after.h == m.cpu.h && after.l == m.cpu.l
            &&& after.sp == m.cpu.sp
            &&& execute(op, m).0.memory == m.memory
        }),
{
    let a = m.cpu.a;
    assert(a ^ a == 0u8) by (bit_vector);
}

/// BIT 7 sets the zero flag exactly where bit 7 of the register is clear.
pub proof fn lemma_bit7_tests_top_bit(value: u8)
    ensures
        bit_test(7, value) == (value & 0x80u8 == 0u8),
{
    assert((((1u8 << 7u8) ^ value) >> 7u8 == 1u8) == (value & 0x80u8 == 0u8)) by (bit_vector);
}

// ---------------------------------------------------------------------------
// Text
// ---------------------------------------------------------------------------

/// The name of an 8-bit register.
pub open spec fn reg8_name(r: RegisterLabel8) -> Seq<char> {
    match r {
        RegisterLabel8::A => "A"@,
        RegisterLabel8::F => "F"@,
        RegisterLabel8::B => "B"@,
        RegisterLabel8::C => "C"@,
        RegisterLabel8::D => "D"@,
        RegisterLabel8::E => "E"@,
        RegisterLabel8::H => "H"@,
        RegisterLabel8::L => "L"@,
    }
}

/// The name of a 16-bit register.
pub open spec fn reg16_name(r: RegisterLabel16) -> Seq<char> {
    match r {
        RegisterLabel16::AF => "AF"@,
        RegisterLabel16::BC => "BC"@,
        RegisterLabel16::DE => "DE"@,
        RegisterLabel16::HL => "HL"@,
        RegisterLabel16::StackPointer => "StackPointer"@,
        RegisterLabel16::ProgramCounter => "ProgramCounter"@,
    }
}

/// The name of a kind of instruction.
pub open spec fn catagory_name(c: Catagory) -> Seq<char> {
    match c {
        Catagory::NOP => "NOP"@,
        Catagory::LD16 => "LD16"@,
        Catagory::LD8 => "LD8"@,
        Catagory::XOR => "XOR"@,
        Catagory::BIT => "BIT"@,
        Catagory::JR => "JR"@,
        Catagory::INC => "INC"@,
        Catagory::RET => "RET"@,
    }
}

/// How an operand is written: a register by its name, a high-page constant
/// as `0xFF` followed by its offset in decimal, an immediate value in
/// hexadecimal, a jump distance or a bit index in decimal, and the jump
/// condition by its name.
pub open spec fn arg_text(arg: Argument) -> Seq<char> {
    match arg {
        Argument::Register8Constant(r) => reg8_name(r),
        Argument::Register16Constant(r) => reg16_name(r),
        Argument::RegisterIndirectDec(r) => reg16_name(r),
        Argument::RegisterIndirect(r) => reg16_name(r),
        Argument::HighOffsetRegister(r) => reg8_name(r),
        Argument::HighOffsetConstant(v) => "0xFF"@ + dec_text(v as int),
        Argument::LargeValue(v) => alt_hex(v as nat),
        Argument::SmallValue(v) => alt_hex(v as nat),
        Argument::JumpDistance(v) => dec_text(v as int),
        Argument::Bit(v) => dec_text(v as int),
        Argument::JumpArgument(JumpCondition::NotZero) => "NotZero"@,
    }
}

/// The operands written one after another, separated by single spaces.
pub open spec fn args_text(args: Seq<Argument>) -> Seq<char>
    decreases args.len(),
{
    if args.len() == 0 {
        Seq::empty()
    } else if args.len() == 1 {
        arg_text(args[0])
    } else {
        args_text(args.drop_last()) + " "@ + arg_text(args.last())
    }
}

/// An instruction written out: the name of its kind, a space, and its
/// operands.
pub open spec fn opcode_text(op: (Catagory, Seq<Argument>)) -> Seq<char> {
    catagory_name(op.0) + " "@ + args_text(op.1)
}

} // verus!
