use vstd::prelude::*;

use super::cpu::{join_bytes, CPU};
use super::endian::le_to_u16;
use super::flags_register::{read_flag, write_flag, Flags};
use super::instruction_set::{
    arg_text, args_size, args_text, catagory_name, decode_error_text, decode_in_bounds, decoded,
    execute, execute_is_safe, jump_target, lemma_args_size_bound, machine, op_size,
    operand_bytes, opcode_text, reg16_name, reg8_name, signed_byte, well_formed_op, Argument,
    Catagory, JumpCondition,
};
use super::messages::{
    decimal_text, hex_text, unknown_argument_message, unknown_cb_command_message,
    unknown_command_message,
};
use super::mnemonic::{
    arg_of, arg_reads_in_bounds, catagory_of, lemma_parse_args_error_stays, lemma_split_nonempty,
    lemma_text_00, lemma_text_0e, lemma_text_11, lemma_text_1a, lemma_text_20, lemma_text_21,
    lemma_text_31, lemma_text_32, lemma_text_3e, lemma_text_77, lemma_text_af, lemma_text_cb,
    lemma_text_e0, lemma_text_e2, parse_args, parse_op, split_on_space,
};
use super::register::{RegisterLabel16, RegisterLabel8};

verus! {

/// A decoded instruction: its kind and its operands.
pub struct OpCode {
    catagory: Catagory,
    args: Vec<Argument>,
}

impl View for OpCode {
    type V = (Catagory, Seq<Argument>);

    closed spec fn view(&self) -> (Catagory, Seq<Argument>) {
        (self.catagory, self.args@)
    }
}

impl OpCode {
    #[verifier::type_invariant]
    spec fn inv(self) -> bool {
        well_formed_op(self.catagory, self.args@)
    }

    fn new(catagory: Catagory, args: Vec<Argument>) -> (op: OpCode)
        requires
            well_formed_op(catagory, args@),
        ensures
            op@ == (catagory, args@),
    {
        OpCode { catagory, args }
    }

    /// The number of bytes the instruction takes: one for the opcode and
    /// one or two for each operand that is read from the instruction stream.
    pub fn size(&self) -> (n: u16)
        ensures
            n == op_size(self@.1),
            n <= 5,
        no_unwind
    {
        proof {
            use_type_invariant(self);
            lemma_args_size_bound(self.args@);
        }
        let mut total: u16 = 0;
        let mut i: usize = 0;
        while i < self.args.len()
            invariant
                i <= self.args@.len(),
                self.args@.len() <= 2,
                total == args_size(self.args@.take(i as int)),
                total <= 2 * i,
            decreases self.args@.len() - i,
        {
            proof {
                assert(self.args@.take(i + 1).drop_last() =~= self.args@.take(i as int));
            }
            let n: u16 = match self.args[i] {
                Argument::Register8Constant(_) => 0,
                Argument::Register16Constant(_) => 0,
                Argument::RegisterIndirect(_) => 0,
                Argument::RegisterIndirectDec(_) => 0,
                Argument::HighOffsetRegister(_) => 0,
                Argument::HighOffsetConstant(_) => 1,
                Argument::JumpArgument(_) => 0,
                Argument::LargeValue(_) => 2,
                Argument::SmallValue(_) => 1,
                Argument::JumpDistance(_) => 1,
                Argument::Bit(_) => 1,
            };
            total = total + n;
            i = i + 1;
        }
        proof {
            assert(self.args@.take(i as int) =~= self.args@);
        }
        total + 1
    }

    /// Executes the instruction on `cpu` and `memory` and returns the cycles
    /// it takes; the machine afterwards and the cycles are those `execute`
    /// gives.
    pub fn run(&self, cpu: &mut CPU, memory: &mut Vec<u8>) -> (cycles: u32)
        requires
            execute_is_safe(self@, machine(*old(cpu), old(memory)@)),
        ensures
            machine(*final(cpu), final(memory)@) == execute(self@, machine(*old(cpu), old(memory)@)).0,
            cycles == execute(self@, machine(*old(cpu), old(memory)@)).1,
        no_unwind
    {
        proof {
            use_type_invariant(self);
        }
        // Move the program counter past the instruction; jumps set it again.
        let program_counter = cpu.read_16_bits(RegisterLabel16::ProgramCounter);
        let size = self.size();
        cpu.write_16_bits(RegisterLabel16::ProgramCounter, program_counter + size);

        let mut cycles: u32 = 0;
        match self.catagory {
            Catagory::LD16 => {
                match (self.args[0], self.args[1]) {
                    (Argument::Register16Constant(register), Argument::LargeValue(val)) => {
                        cpu.write_16_bits(register, val);
                    },
                    _ => {},
                }
                cycles = cycles + 12;
            },
            Catagory::LD8 => {
                let source: u8 = match self.args[1] {
                    Argument::Register8Constant(register) => cpu.read_8_bits(register),
                    Argument::RegisterIndirect(register) => {
                        cycles = cycles + 4;
                        memory[cpu.read_16_bits(register) as usize]
                    },
                    Argument::SmallValue(val) => val,
                    _ => 0,
                };
                match self.args[0] {
                    Argument::RegisterIndirectDec(register) => {
                        cycles = cycles + 4;
                        let address = cpu.read_16_bits(register);
                        memory[address as usize] = source;
                    },
                    Argument::RegisterIndirect(register) => {
                        let address = cpu.read_16_bits(register);
                        memory[address as usize] = source;
                        cycles = cycles + 4;
                    },
                    Argument::HighOffsetConstant(offset) => {
                        let address: usize = 0xFF00usize + (offset as usize);
                        memory[address] = source;
                        cycles = cycles + 8;
                    },
                    Argument::Register8Constant(register) => {
                        cpu.write_8_bits(register, source);
                    },
                    Argument::HighOffsetRegister(register) => {
                        cycles = cycles + 4;
                        let offset = cpu.read_8_bits(register) as u16;
                        memory[(0xFF00u16 + offset) as usize] = source;
                    },
                    _ => {},
                }
                cycles = cycles + 4;
                match self.args[0] {
                    Argument::RegisterIndirectDec(register) => {
                        let new_val = cpu.read_16_bits(register) - 1;
                        cpu.write_16_bits(register, new_val);
                    },
                    _ => {},
                }
            },
            Catagory::NOP => {
                cycles = cycles + 4;
            },
            Catagory::XOR => {
                match self.args[0] {
                    Argument::Register8Constant(register) => {
                        let new_val = cpu.read_8_bits(RegisterLabel8::A) ^ cpu.read_8_bits(
                            register,
                        );
                        cpu.write_8_bits(RegisterLabel8::A, new_val);
                        cpu.write_8_bits(RegisterLabel8::F, 0);
                    },
                    _ => {},
                }
                cycles = cycles + 4;
            },
            Catagory::BIT => {
                match (self.args[0], self.args[1]) {
                    (Argument::Bit(bit), Argument::Register8Constant(register)) => {
                        let value = cpu.read_8_bits(register);
                        let result = ((1u8 << bit) ^ value) >> bit == 1u8;
                        write_flag(cpu, Flags::Z, result);
                        write_flag(cpu, Flags::N, false);
                        write_flag(cpu, Flags::H, true);
                    },
                    _ => {},
                }
                cycles = cycles + 12;
            },
            Catagory::JR => {
                cycles = cycles + 8;
                let taken = match self.args[0] {
                    Argument::JumpArgument(JumpCondition::NotZero) => !read_flag(cpu, Flags::Z),
                    _ => false,
                };
                if taken {
                    match self.args[1] {
                        Argument::JumpDistance(distance) => {
                            let program_counter = cpu.read_16_bits(RegisterLabel16::ProgramCounter);
                            cpu.write_16_bits(
                                RegisterLabel16::ProgramCounter,
                                relative_target(program_counter, distance),
                            );
                            cycles = cycles + 4;
                        },
                        _ => {},
                    }
                }
            },
            Catagory::INC => {
                match self.args[0] {
                    Argument::Register8Constant(reg) => {
                        let reg_value = cpu.read_8_bits(reg);
                        let overflow = reg_value == 255;
                        let new_val: u8 = if overflow {
                            0
                        } else {
                            reg_value + 1
                        };
                        if overflow {
                            write_flag(cpu, Flags::Z, true);
                        }
                        write_flag(cpu, Flags::N, false);
                        if new_val == 0x10 {
                            write_flag(cpu, Flags::H, true);
                        }
                        cpu.write_8_bits(reg, new_val);
                        cycles = cycles + 4;
                    },
                    _ => {},
                }
            },
            Catagory::RET => {
                let stack_pointer = cpu.read_16_bits(RegisterLabel16::StackPointer);
                let low = memory[stack_pointer as usize];
                let high = memory[stack_pointer as usize + 1];
                cpu.write_16_bits(RegisterLabel16::ProgramCounter, join_bytes(high, low));
                cpu.write_16_bits(RegisterLabel16::StackPointer, stack_pointer + 2);
                cycles = cycles + 16;
            },
        }
        cycles
    }
}

fn reg8_str(r: RegisterLabel8) -> (s: &'static str)
    ensures
        s@ == reg8_name(r),
{
    match r {
        RegisterLabel8::A => "A",
        RegisterLabel8::F => "F",
        RegisterLabel8::B => "B",
        RegisterLabel8::C => "C",
        RegisterLabel8::D => "D",
        RegisterLabel8::E => "E",
        RegisterLabel8::H => "H",
        RegisterLabel8::L => "L",
    }
}

fn reg16_str(r: RegisterLabel16) -> (s: &'static str)
    ensures
        s@ == reg16_name(r),
{
    match r {
        RegisterLabel16::AF => "AF",
        RegisterLabel16::BC => "BC",
        RegisterLabel16::DE => "DE",
        RegisterLabel16::HL => "HL",
        RegisterLabel16::StackPointer => "StackPointer",
        RegisterLabel16::ProgramCounter => "ProgramCounter",
    }
}

fn catagory_str(c: Catagory) -> (s: &'static str)
    ensures
        s@ == catagory_name(c),
{
    match c {
        Catagory::NOP => "NOP",
        Catagory::LD16 => "LD16",
        Catagory::LD8 => "LD8",
        Catagory::XOR => "XOR",
        Catagory::BIT => "BIT",
        Catagory::JR => "JR",
        Catagory::INC => "INC",
        Catagory::RET => "RET",
    }
}

fn arg_string(arg: Argument) -> (s: String)
    ensures
        s@ == arg_text(arg),
{
    match arg {
        Argument::Register8Constant(r) => String::from_str(reg8_str(r)),
        Argument::Register16Constant(r) => String::from_str(reg16_str(r)),
        Argument::RegisterIndirectDec(r) => String::from_str(reg16_str(r)),
        Argument::RegisterIndirect(r) => String::from_str(reg16_str(r)),
        Argument::HighOffsetRegister(r) => String::from_str(reg8_str(r)),
        Argument::HighOffsetConstant(v) => {
            let mut s = String::from_str("0xFF");
            let digits = decimal_text(v as i16);
            s.append(digits.as_str());
            s
        },
        Argument::LargeValue(v) => hex_text(v),
        Argument::SmallValue(v) => hex_text(v as u16),
        Argument::JumpDistance(v) => decimal_text(v as i16),
        Argument::Bit(v) => decimal_text(v as i16),
        Argument::JumpArgument(JumpCondition::NotZero) => String::from_str("NotZero"),
    }
}

impl OpCode {
    /// The instruction written out as `opcode_text` gives.
    pub fn to_string(&self) -> (s: String)
        ensures
            s@ == opcode_text(self@),
    {
        let mut args = String::new();
        let mut i: usize = 0;
        while i < self.args.len()
            invariant
                i <= self.args@.len(),
                args@ == args_text(self.args@.take(i as int)),
            decreases self.args@.len() - i,
        {
            proof {
                assert(self.args@.take(i + 1).drop_last() =~= self.args@.take(i as int));
                assert(self.args@.take(i + 1).last() == self.args@[i as int]);
            }
            let text = arg_string(self.args[i]);
            if i > 0 {
                args.append(" ");
            }
            args.append(text.as_str());
            i = i + 1;
        }
        proof {
            assert(self.args@.take(i as int) =~= self.args@);
        }
        let mut s = String::from_str(catagory_str(self.catagory));
        s.append(" ");
        s.append(args.as_str());
        s
    }

    /// Whether the instruction executes safely on `cpu` and `memory`, as
    /// `execute_is_safe` says.
    pub fn can_run(&self, cpu: &CPU, memory: &Vec<u8>) -> (safe: bool)
        ensures
            safe == execute_is_safe(self@, machine(*cpu, memory@)),
    {
        proof {
            use_type_invariant(self);
        }
        let size = self.size();
        if cpu.pc as u32 + size as u32 > 0xFFFF {
            return false;
        }
        let mut c = *cpu;
        c.write_16_bits(RegisterLabel16::ProgramCounter, cpu.pc + size);
        let len = memory.len();
        match self.catagory {
            Catagory::LD8 => {
                let source_ok = match self.args[1] {
                    Argument::RegisterIndirect(r) => (c.read_16_bits(r) as usize) < len,
                    _ => true,
                };
                let dest_ok = match self.args[0] {
                    Argument::RegisterIndirectDec(r) => {
                        let a = c.read_16_bits(r);
                        1 <= a && (a as usize) < len
                    },
                    Argument::RegisterIndirect(r) => (c.read_16_bits(r) as usize) < len,
                    Argument::HighOffsetConstant(o) => 0xFF00usize + (o as usize) < len,
                    Argument::HighOffsetRegister(r) => 0xFF00usize + (c.read_8_bits(r) as usize)
                        < len,
                    _ => true,
                };
                source_ok && dest_ok
            },
            Catagory::RET => (c.sp as usize) + 1 < len && (c.sp as u32) + 2 <= 0xFFFF,
            _ => true,
        }
    }
}

/// The address `distance` bytes from `pc`, wrapping round the 16-bit space.
fn relative_target(pc: u16, distance: i8) -> (target: u16)
    ensures
        target == jump_target(pc, distance),
    no_unwind
{
    let t: i32 = pc as i32 + distance as i32;
    if t < 0 {
        (t + 65536) as u16
    } else if t > 65535 {
        (t - 65536) as u16
    } else {
        t as u16
    }
}

/// The bytes `arr[index..index + size]`.
fn get_slice(arr: &[u8], index: u16, size: u16) -> (s: &[u8])
    requires
        index + size <= 0xFFFF,
        index + size <= arr@.len(),
    ensures
        s@ == arr@.subrange(index as int, index + size),
{
    let start = index as usize;
    let end = (index + size) as usize;
    &arr[start..end]
}

fn signed(b: u8) -> (d: i8)
    ensures
        d == signed_byte(b),
{
    if b < 128 {
        b as i8
    } else {
        (b as i16 - 256) as i8
    }
}

fn operand_count(code: u8) -> (n: usize)
    ensures
        n == operand_bytes(code),
{
    match code {
        0x0E | 0x20 | 0x3E | 0xCB | 0xE0 => 1,
        0x11 | 0x21 | 0x31 => 2,
        _ => 0,
    }
}

/// Whether decoding at `program_counter` reads only bytes that are there,
/// as `decode_in_bounds` says.
pub fn can_decode(program_counter: u16, program_code: &[u8]) -> (ok: bool)
    ensures
        ok == decode_in_bounds(program_code@, program_counter),
{
    let pc = program_counter as usize;
    if pc >= program_code.len() {
        return false;
    }
    let code = program_code[pc];
    if pc + operand_count(code) >= program_code.len() {
        return false;
    }
    match code {
        0x0E | 0x20 | 0x3E => pc + 1 <= 0xFFFF,
        0x11 | 0x21 | 0x31 => pc + 3 <= 0xFFFF,
        _ => true,
    }
}

/// Whether two strings hold the same characters.
fn str_eq(a: &str, b: &str) -> (eq: bool)
    ensures
        eq == (a@ == b@),
{
    let n = a.unicode_len();
    if n != b.unicode_len() {
        return false;
    }
    let mut i: usize = 0;
    while i < n
        invariant
            n == a@.len(),
            n == b@.len(),
            i <= n,
            forall|k: int| 0 <= k < i ==> a@[k] == b@[k],
        decreases n - i,
    {
        if a.get_char(i) != b.get_char(i) {
            return false;
        }
        i = i + 1;
    }
    proof {
        assert(a@ =~= b@);
    }
    true
}

/// The pieces of `text` between single spaces.
fn split_words<'t>(text: &'t str) -> (words: Vec<&'t str>)
    ensures
        words@.len() == split_on_space(text@).len(),
        forall|i: int| 0 <= i < words@.len() ==> #[trigger] words@[i]@ == split_on_space(text@)[i],
{
    let n = text.unicode_len();
    let mut words: Vec<&str> = Vec::new();
    let mut start: usize = 0;
    let mut i: usize = 0;
    while i < n
        invariant
            n == text@.len(),
            start <= i <= n,
            words@.len() + 1 == split_on_space(text@.take(i as int)).len(),
            forall|k: int|
                0 <= k < words@.len() ==> #[trigger] words@[k]@ == split_on_space(
                    text@.take(i as int),
                )[k],
            split_on_space(text@.take(i as int)).last() == text@.subrange(start as int, i as int),
        decreases n - i,
    {
        proof {
            assert(text@.take(i + 1).drop_last() =~= text@.take(i as int));
            assert(text@.take(i + 1).last() == text@[i as int]);
        }
        if text.get_char(i) == ' ' {
            words.push(text.substring_char(start, i));
            start = i + 1;
            proof {
                assert(text@.subrange(start as int, i + 1) =~= Seq::<char>::empty());
            }
        } else {
            proof {
                assert(text@.subrange(start as int, i + 1) =~= text@.subrange(
                    start as int,
                    i as int,
                ).push(text@[i as int]));
            }
        }
        i = i + 1;
    }
    words.push(text.substring_char(start, n));
    proof {
        assert(text@.take(n as int) =~= text@);
    }
    words
}

/// The kind of instruction a name stands for; a name that is not known
/// stands for NOP.
fn catagory_from_str(cat: &str) -> (c: Catagory)
    ensures
        c == catagory_of(cat@),
{
    if str_eq(cat, "NOP") {
        Catagory::NOP
    } else if str_eq(cat, "LD16") {
        Catagory::LD16
    } else if str_eq(cat, "LD8") {
        Catagory::LD8
    } else if str_eq(cat, "XOR") {
        Catagory::XOR
    } else if str_eq(cat, "BIT") {
        Catagory::BIT
    } else if str_eq(cat, "JR") {
        Catagory::JR
    } else {
        Catagory::NOP
    }
}

/// The operand a name stands for in the instruction at `program_counter`;
/// an error naming it where it is not known.
fn arg_from_str(arg: &str, program_counter: u16, program_code: &[u8]) -> (r: Result<
    Argument,
    String,
>)
    requires
        arg_reads_in_bounds(arg@, program_code@, program_counter),
    ensures
        match r {
            Ok(a) => arg_of(arg@, program_code@, program_counter) == Some(a),
            Err(msg) => arg_of(arg@, program_code@, program_counter) is None && msg@
                == "Unknown argument: "@ + arg@,
        },
{
    if str_eq(arg, "DE") {
        Ok(Argument::Register16Constant(RegisterLabel16::DE))
    } else if str_eq(arg, "HL") {
        Ok(Argument::Register16Constant(RegisterLabel16::HL))
    } else if str_eq(arg, "SP") {
        Ok(Argument::Register16Constant(RegisterLabel16::StackPointer))
    } else if str_eq(arg, "(HL-)") {
        Ok(Argument::RegisterIndirectDec(RegisterLabel16::HL))
    } else if str_eq(arg, "A") {
        Ok(Argument::Register8Constant(RegisterLabel8::A))
    } else if str_eq(arg, "C") {
        Ok(Argument::Register8Constant(RegisterLabel8::C))
    } else if str_eq(arg, "H") {
        Ok(Argument::Register8Constant(RegisterLabel8::H))
    } else if str_eq(arg, "(C)") {
        Ok(Argument::HighOffsetRegister(RegisterLabel8::C))
    } else if str_eq(arg, "(DE)") {
        Ok(Argument::RegisterIndirect(RegisterLabel16::DE))
    } else if str_eq(arg, "(HL)") {
        Ok(Argument::RegisterIndirect(RegisterLabel16::HL))
    } else if str_eq(arg, "(a8)") {
        Ok(Argument::HighOffsetConstant(program_code[program_counter as usize + 1]))
    } else if str_eq(arg, "d16") {
        Ok(Argument::LargeValue(le_to_u16(get_slice(program_code, program_counter + 1, 2))))
    } else if str_eq(arg, "d8") {
        Ok(Argument::SmallValue(program_code[(program_counter + 1) as usize]))
    } else if str_eq(arg, "NZ") {
        Ok(Argument::JumpArgument(JumpCondition::NotZero))
    } else if str_eq(arg, "r8") {
        Ok(Argument::JumpDistance(signed(program_code[(program_counter + 1) as usize])))
    } else if str_eq(arg, "7") {
        Ok(Argument::Bit(7))
    } else {
        Err(unknown_argument_message(arg))
    }
}

/// The instruction a mnemonic text stands for, its operands read from the
/// bytes after `program_counter`.
fn opcode(text: &str, program_counter: u16, program_code: &[u8]) -> (r: Result<OpCode, String>)
    requires
        forall|i: int|
            1 <= i < split_on_space(text@).len() ==> arg_reads_in_bounds(
                #[trigger] split_on_space(text@)[i],
                program_code@,
                program_counter,
            ),
        parse_op(text@, program_code@, program_counter) matches Ok(op) ==> well_formed_op(
            op.0,
            op.1,
        ),
    ensures
        match r {
            Ok(op) => parse_op(text@, program_code@, program_counter) == Ok::<
                (Catagory, Seq<Argument>),
                Seq<char>,
            >(op@),
            Err(msg) => parse_op(text@, program_code@, program_counter) == Err::<
                (Catagory, Seq<Argument>),
                Seq<char>,
            >(msg@),
        },
{
    let parts = split_words(text);
    proof {
        lemma_split_nonempty(text@);
    }
    let ghost words = split_on_space(text@);
    let ghost names = words.drop_first();
    let catagory = catagory_from_str(parts[0]);
    let mut clean_args: Vec<Argument> = Vec::new();
    let mut i: usize = 1;
    while i < parts.len()
        invariant
            1 <= i <= parts@.len(),
            words == split_on_space(text@),
            parts@.len() == words.len(),
            names == words.drop_first(),
            forall|k: int| 0 <= k < parts@.len() ==> #[trigger] parts@[k]@ == words[k],
            forall|k: int|
                1 <= k < words.len() ==> arg_reads_in_bounds(
                    #[trigger] words[k],
                    program_code@,
                    program_counter,
                ),
            parse_args(names.take(i - 1), program_code@, program_counter) == Ok::<
                Seq<Argument>,
                Seq<char>,
            >(clean_args@),
        decreases parts@.len() - i,
    {
        proof {
            assert(names.take(i as int).drop_last() =~= names.take(i - 1));
            assert(names.take(i as int).last() == words[i as int]);
        }
        match arg_from_str(parts[i], program_counter, program_code) {
            Ok(arg) => {
                clean_args.push(arg);
            },
            Err(e) => {
                proof {
                    assert(parse_args(names.take(i as int), program_code@, program_counter)
                        == Err::<Seq<Argument>, Seq<char>>(e@));
                    lemma_parse_args_error_stays(names, i as int, program_code@, program_counter);
                }
                return Err(e);
            },
        }
        i = i + 1;
    }
    proof {
        assert(names.take(i - 1) =~= names);
    }
    Ok(OpCode::new(catagory, clean_args))
}

/// Decodes the instruction at `program_counter`. It fails, with the text
/// `decode_error_text` gives, exactly where the opcode, or the byte after a
/// 0xCB prefix, is not known.
pub fn decode_instruction(program_counter: u16, program_code: &[u8]) -> (r: Result<OpCode, String>)
    requires
        decode_in_bounds(program_code@, program_counter),
    ensures
        match r {
            Ok(op) => decoded(program_code@, program_counter) == Some(op@),
            Err(msg) => decoded(program_code@, program_counter) is None && msg@ == decode_error_text(
                program_code@,
                program_counter,
            ),
        },
{
    let pc = program_counter as usize;
    let code = program_code[pc];
    match code {
        0x00 => {
            proof {
                lemma_text_00(program_code@, program_counter);
            }
            opcode("NOP", program_counter, program_code)
        },
        0x0C => Ok(OpCode::new(Catagory::INC, vec![Argument::Register8Constant(RegisterLabel8::C)])),
        0x0E => {
            proof {
                lemma_text_0e(program_code@, program_counter);
            }
            opcode("LD8 C d8", program_counter, program_code)
        },
        0x11 => {
            proof {
                lemma_text_11(program_code@, program_counter);
            }
            opcode("LD16 DE d16", program_counter, program_code)
        },
        0x1A => {
            proof {
                lemma_text_1a(program_code@, program_counter);
            }
            opcode("LD8 A (DE)", program_counter, program_code)
        },
        0x20 => {
            proof {
                lemma_text_20(program_code@, program_counter);
            }
            opcode("JR NZ r8", program_counter, program_code)
        },
        0x21 => {
            proof {
                lemma_text_21(program_code@, program_counter);
            }
            opcode("LD16 HL d16", program_counter, program_code)
        },
        0x31 => {
            proof {
                lemma_text_31(program_code@, program_counter);
            }
            opcode("LD16 SP d16", program_counter, program_code)
        },
        0x32 => {
            proof {
                lemma_text_32(program_code@, program_counter);
            }
            opcode("LD8 (HL-) A", program_counter, program_code)
        },
        0x3E => {
            proof {
                lemma_text_3e(program_code@, program_counter);
            }
            opcode("LD8 A d8", program_counter, program_code)
        },
        0x77 => {
            proof {
                lemma_text_77(program_code@, program_counter);
            }
            opcode("LD8 (HL) A", program_counter, program_code)
        },
        0xAF => {
            proof {
                lemma_text_af(program_code@, program_counter);
            }
            opcode("XOR A", program_counter, program_code)
        },
        0xC9 => Ok(OpCode::new(Catagory::RET, vec![])),
        0xCB => {
            // 0xCB is a prefix: the next byte names the actual instruction.
            let cb_instruction = program_code[pc + 1];
            match cb_instruction {
                0x7C => {
                    proof {
                        lemma_text_cb(program_code@, program_counter);
                    }
                    opcode("BIT 7 H", program_counter, program_code)
                },
                _ => Err(unknown_cb_command_message(cb_instruction)),
            }
        },
        0xE0 => {
            proof {
                lemma_text_e0(program_code@, program_counter);
            }
            opcode("LD8 (a8) A", program_counter, program_code)
        },
        0xE2 => {
            proof {
                lemma_text_e2(program_code@, program_counter);
            }
            opcode("LD8 (C) A", program_counter, program_code)
        },
        _ => Err(unknown_command_message(code, program_counter)),
    }
}

} // verus!

