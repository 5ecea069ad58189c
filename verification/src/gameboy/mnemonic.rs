use vstd::prelude::*;

use super::cpu::pair_value;
use super::instruction_set::{
    decode_in_bounds, decoded, lemma_decoded_well_formed, signed_byte, well_formed_op, Argument,
    Catagory, JumpCondition,
};
use super::register::{RegisterLabel16, RegisterLabel8};

verus! {

/// The pieces of `s` between single spaces, as `str::split(' ')` gives
/// them: there is always at least one, and two spaces in a row give an
/// empty piece.
pub open spec fn split_on_space(s: Seq<char>) -> Seq<Seq<char>>
    decreases s.len(),
{
    if s.len() == 0 {
        seq![Seq::empty()]
    } else {
        let rest = split_on_space(s.drop_last());
        if s.last() == ' ' {
            rest.push(Seq::empty())
        } else {
            rest.update(rest.len() - 1, rest.last().push(s.last()))
        }
    }
}

pub(crate) proof fn lemma_split_nonempty(s: Seq<char>)
    ensures
        split_on_space(s).len() >= 1,
    decreases s.len(),
{
    if s.len() > 0 {
        lemma_split_nonempty(s.drop_last());
    }
}

/// The kind of instruction a name stands for; a name that is not known
/// stands for NOP.
pub open spec fn catagory_of(name: Seq<char>) -> Catagory {
    if name == "NOP"@ {
        Catagory::NOP
    } else if name == "LD16"@ {
        Catagory::LD16
    } else if name == "LD8"@ {
        Catagory::LD8
    } else if name == "XOR"@ {
        Catagory::XOR
    } else if name == "BIT"@ {
        Catagory::BIT
    } else if name == "JR"@ {
        Catagory::JR
    } else {
        Catagory::NOP
    }
}

/// The operand a name stands for in the instruction at `pc`: a register,
/// an indirection through a register, an immediate read from the bytes
/// after the opcode (`(a8)`, `d8` and `r8` from the next byte, `d16`
/// little-endian from the next two), the jump condition `NZ` or the bit
/// index `7`; `None` for a name that is not known.
pub open spec fn arg_of(name: Seq<char>, code: Seq<u8>, pc: u16) -> Option<Argument> {
    if name == "DE"@ {
        Some(Argument::Register16Constant(RegisterLabel16::DE))
    } else if name == "HL"@ {
        Some(Argument::Register16Constant(RegisterLabel16::HL))
    } else if name == "SP"@ {
        Some(Argument::Register16Constant(RegisterLabel16::StackPointer))
    } else if name == "(HL-)"@ {
        Some(Argument::RegisterIndirectDec(RegisterLabel16::HL))
    } else if name == "A"@ {
        Some(Argument::Register8Constant(RegisterLabel8::A))
    } else if name == "C"@ {
        Some(Argument::Register8Constant(RegisterLabel8::C))
    } else if name == "H"@ {
        Some(Argument::Register8Constant(RegisterLabel8::H))
    } else if name == "(C)"@ {
        Some(Argument::HighOffsetRegister(RegisterLabel8::C))
    } else if name == "(DE)"@ {
        Some(Argument::RegisterIndirect(RegisterLabel16::DE))
    } else if name == "(HL)"@ {
        Some(Argument::RegisterIndirect(RegisterLabel16::HL))
    } else if name == "(a8)"@ {
        Some(Argument::HighOffsetConstant(code[pc + 1]))
    } else if name == "d16"@ {
        Some(Argument::LargeValue(pair_value(code[pc + 2], code[pc + 1])))
    } else if name == "d8"@ {
        Some(Argument::SmallValue(code[pc + 1]))
    } else if name == "NZ"@ {
        Some(Argument::JumpArgument(JumpCondition::NotZero))
    } else if name == "r8"@ {
        Some(Argument::JumpDistance(signed_byte(code[pc + 1])))
    } else if name == "7"@ {
        Some(Argument::Bit(7))
    } else {
        None
    }
}

/// Reading the operand a name stands for touches only bytes that are
/// there, and its address is computed without 16-bit overflow.
pub open spec fn arg_reads_in_bounds(name: Seq<char>, code: Seq<u8>, pc: u16) -> bool {
    if name == "(a8)"@ {
        pc + 1 < code.len()
    } else if name == "d16"@ {
        pc + 2 < code.len() && pc + 3 <= 0xFFFF
    } else if name == "d8"@ || name == "r8"@ {
        pc + 1 < code.len() && pc + 1 <= 0xFFFF
    } else {
        true
    }
}

/// The operands a list of names stands for, or the error text for the
/// first name that is not known.
pub open spec fn parse_args(names: Seq<Seq<char>>, code: Seq<u8>, pc: u16) -> Result<
    Seq<Argument>,
    Seq<char>,
>
    decreases names.len(),
{
    if names.len() == 0 {
        Ok(seq![])
    } else {
        match parse_args(names.drop_last(), code, pc) {
            Ok(prev) => match arg_of(names.last(), code, pc) {
                Some(arg) => Ok(prev.push(arg)),
                None => Err("Unknown argument: "@ + names.last()),
            },
            Err(e) => Err(e),
        }
    }
}

/// The instruction a mnemonic text stands for: the kind its first word
/// names and the operands the other words name.
pub open spec fn parse_op(text: Seq<char>, code: Seq<u8>, pc: u16) -> Result<
    (Catagory, Seq<Argument>),
    Seq<char>,
> {
    let words = split_on_space(text);
    match parse_args(words.drop_first(), code, pc) {
        Ok(args) => Ok((catagory_of(words[0]), args)),
        Err(e) => Err(e),
    }
}

/// Once a prefix of the names fails to parse, the whole list fails with
/// the same error.
pub(crate) proof fn lemma_parse_args_error_stays(names: Seq<Seq<char>>, k: int, code: Seq<u8>, pc: u16)
    requires
        0 <= k <= names.len(),
        parse_args(names.take(k), code, pc) is Err,
    ensures
        parse_args(names, code, pc) == parse_args(names.take(k), code, pc),
    decreases names.len() - k,
{
    if k < names.len() {
        assert(names.take(k + 1).drop_last() =~= names.take(k));
        lemma_parse_args_error_stays(names, k + 1, code, pc);
    } else {
        assert(names.take(k) =~= names);
    }
}

/// Decoding by a mnemonic text is safe and gives the instruction `decoded`
/// describes: each operand name reads only bytes that are there, and the
/// text parses to the decoded instruction.
pub open spec fn text_decodes(text: Seq<char>, code: Seq<u8>, pc: u16) -> bool {
    &&& forall|i: int|
        1 <= i < split_on_space(text).len() ==> arg_reads_in_bounds(
            #[trigger] split_on_space(text)[i],
            code,
            pc,
        )
    &&& decoded(code, pc) is Some
    &&& parse_op(text, code, pc) == Ok::<(Catagory, Seq<Argument>), Seq<char>>(
        decoded(code, pc).unwrap(),
    )
    &&& well_formed_op(decoded(code, pc).unwrap().0, decoded(code, pc).unwrap().1)
}

/// The characters of the instruction and operand names.
pub(crate) proof fn lemma_name_texts()
    ensures
        "NOP"@.len() == 3 && "NOP"@[0] == 'N' && "NOP"@[1] == 'O' && "NOP"@[2] == 'P',
        "LD16"@.len() == 4 && "LD16"@[0] == 'L' && "LD16"@[1] == 'D' && "LD16"@[2] == '1' && "LD16"@[3] == '6',
        "LD8"@.len() == 3 && "LD8"@[0] == 'L' && "LD8"@[1] == 'D' && "LD8"@[2] == '8',
        "XOR"@.len() == 3 && "XOR"@[0] == 'X' && "XOR"@[1] == 'O' && "XOR"@[2] == 'R',
        "BIT"@.len() == 3 && "BIT"@[0] == 'B' && "BIT"@[1] == 'I' && "BIT"@[2] == 'T',
        "JR"@.len() == 2 && "JR"@[0] == 'J' && "JR"@[1] == 'R',
        "DE"@.len() == 2 && "DE"@[0] == 'D' && "DE"@[1] == 'E',
        "HL"@.len() == 2 && "HL"@[0] == 'H' && "HL"@[1] == 'L',
        "SP"@.len() == 2 && "SP"@[0] == 'S' && "SP"@[1] == 'P',
        "(HL-)"@.len() == 5 && "(HL-)"@[0] == '(' && "(HL-)"@[1] == 'H' && "(HL-)"@[2] == 'L' && "(HL-)"@[3] == '-' && "(HL-)"@[4] == ')',
        "A"@.len() == 1 && "A"@[0] == 'A',
        "C"@.len() == 1 && "C"@[0] == 'C',
        "H"@.len() == 1 && "H"@[0] == 'H',
        "(C)"@.len() == 3 && "(C)"@[0] == '(' && "(C)"@[1] == 'C' && "(C)"@[2] == ')',
        "(DE)"@.len() == 4 && "(DE)"@[0] == '(' && "(DE)"@[1] == 'D' && "(DE)"@[2] == 'E' && "(DE)"@[3] == ')',
        "(HL)"@.len() == 4 && "(HL)"@[0] == '(' && "(HL)"@[1] == 'H' && "(HL)"@[2] == 'L' && "(HL)"@[3] == ')',
        "(a8)"@.len() == 4 && "(a8)"@[0] == '(' && "(a8)"@[1] == 'a' && "(a8)"@[2] == '8' && "(a8)"@[3] == ')',
        "d16"@.len() == 3 && "d16"@[0] == 'd' && "d16"@[1] == '1' && "d16"@[2] == '6',
        "d8"@.len() == 2 && "d8"@[0] == 'd' && "d8"@[1] == '8',
        "NZ"@.len() == 2 && "NZ"@[0] == 'N' && "NZ"@[1] == 'Z',
        "r8"@.len() == 2 && "r8"@[0] == 'r' && "r8"@[1] == '8',
        "7"@.len() == 1 && "7"@[0] == '7',
{
    reveal_strlit("NOP");
    reveal_strlit("LD16");
    reveal_strlit("LD8");
    reveal_strlit("XOR");
    reveal_strlit("BIT");
    reveal_strlit("JR");
    reveal_strlit("DE");
    reveal_strlit("HL");
    reveal_strlit("SP");
    reveal_strlit("(HL-)");
    reveal_strlit("A");
    reveal_strlit("C");
    reveal_strlit("H");
    reveal_strlit("(C)");
    reveal_strlit("(DE)");
    reveal_strlit("(HL)");
    reveal_strlit("(a8)");
    reveal_strlit("d16");
    reveal_strlit("d8");
    reveal_strlit("NZ");
    reveal_strlit("r8");
    reveal_strlit("7");
}

/// Names that each stand for a known operand parse to those operands.
proof fn lemma_parse_known_args(names: Seq<Seq<char>>, args: Seq<Argument>, code: Seq<u8>, pc: u16)
    requires
        names.len() == args.len(),
        forall|k: int| 0 <= k < names.len() ==> arg_of(#[trigger] names[k], code, pc) == Some(args[k]),
    ensures
        parse_args(names, code, pc) == Ok::<Seq<Argument>, Seq<char>>(args),
    decreases names.len(),
{
    if names.len() > 0 {
        lemma_parse_known_args(names.drop_last(), args.drop_last(), code, pc);
        assert(names.last() == names[names.len() - 1]);
        assert(args.drop_last().push(args.last()) =~= args);
    } else {
        assert(args =~= Seq::<Argument>::empty());
    }
}

/// A text whose words name the decoded instruction's kind and, one by one,
/// its operands, each read in bounds, decodes as `decoded` says.
proof fn lemma_words_decode(text: Seq<char>, code: Seq<u8>, pc: u16)
    requires
        decoded(code, pc) is Some,
        split_on_space(text).len() == decoded(code, pc).unwrap().1.len() + 1,
        catagory_of(split_on_space(text)[0]) == decoded(code, pc).unwrap().0,
        forall|k: int|
            0 <= k < decoded(code, pc).unwrap().1.len() ==> arg_of(
                #[trigger] split_on_space(text)[k + 1],
                code,
                pc,
            ) == Some(decoded(code, pc).unwrap().1[k]) && arg_reads_in_bounds(
                split_on_space(text)[k + 1],
                code,
                pc,
            ),
    ensures
        text_decodes(text, code, pc),
{
    lemma_decoded_well_formed(code, pc);
    let words = split_on_space(text);
    let names = words.drop_first();
    let args = decoded(code, pc).unwrap().1;
    assert forall|k: int| 0 <= k < names.len() implies arg_of(#[trigger] names[k], code, pc) == Some(args[k]) by {
        assert(names[k] == words[k + 1]);
    }
    lemma_parse_known_args(names, args, code, pc);
    assert forall|i: int| 1 <= i < words.len() implies arg_reads_in_bounds(#[trigger] words[i], code, pc) by {
        assert(words[(i - 1) + 1] == words[i]);
    }
}

/// The mnemonic text the decoder uses for opcode 0x00 decodes as `decoded` says.
pub(crate) proof fn lemma_text_00(code: Seq<u8>, pc: u16)
    requires
        code[pc as int] == 0x00u8,
        decode_in_bounds(code, pc),
    ensures
        text_decodes("NOP"@, code, pc),
{
    lemma_name_texts();
    reveal_strlit("NOP");
    assert("NOP"@ =~= seq!['N', 'O', 'P']);
    reveal_with_fuel(split_on_space, 4);
    assert(split_on_space("NOP"@) =~~= seq!["NOP"@]);
    lemma_words_decode("NOP"@, code, pc);
}

/// The mnemonic text the decoder uses for opcode 0x0E decodes as `decoded` says.
pub(crate) proof fn lemma_text_0e(code: Seq<u8>, pc: u16)
    requires
        code[pc as int] == 0x0Eu8,
        decode_in_bounds(code, pc),
    ensures
        text_decodes("LD8 C d8"@, code, pc),
{
    lemma_name_texts();
    reveal_strlit("LD8 C d8");
    assert("LD8 C d8"@ =~= seq!['L', 'D', '8', ' ', 'C', ' ', 'd', '8']);
    reveal_with_fuel(split_on_space, 9);
    assert(split_on_space("LD8 C d8"@) =~~= seq!["LD8"@, "C"@, "d8"@]);
    lemma_words_decode("LD8 C d8"@, code, pc);
}

/// The mnemonic text the decoder uses for opcode 0x11 decodes as `decoded` says.
pub(crate) proof fn lemma_text_11(code: Seq<u8>, pc: u16)
    requires
        code[pc as int] == 0x11u8,
        decode_in_bounds(code, pc),
    ensures
        text_decodes("LD16 DE d16"@, code, pc),
{
    lemma_name_texts();
    reveal_strlit("LD16 DE d16");
    assert("LD16 DE d16"@ =~= seq!['L', 'D', '1', '6', ' ', 'D', 'E', ' ', 'd', '1', '6']);
    reveal_with_fuel(split_on_space, 12);
    assert(split_on_space("LD16 DE d16"@) =~~= seq!["LD16"@, "DE"@, "d16"@]);
    lemma_words_decode("LD16 DE d16"@, code, pc);
}

/// The mnemonic text the decoder uses for opcode 0x1A decodes as `decoded` says.
pub(crate) proof fn lemma_text_1a(code: Seq<u8>, pc: u16)
    requires
        code[pc as int] == 0x1Au8,
        decode_in_bounds(code, pc),
    ensures
        text_decodes("LD8 A (DE)"@, code, pc),
{
    lemma_name_texts();
    reveal_strlit("LD8 A (DE)");
    assert("LD8 A (DE)"@ =~= seq!['L', 'D', '8', ' ', 'A', ' ', '(', 'D', 'E', ')']);
    reveal_with_fuel(split_on_space, 11);
    assert(split_on_space("LD8 A (DE)"@) =~~= seq!["LD8"@, "A"@, "(DE)"@]);
    lemma_words_decode("LD8 A (DE)"@, code, pc);
}

/// The mnemonic text the decoder uses for opcode 0x20 decodes as `decoded` says.
pub(crate) proof fn lemma_text_20(code: Seq<u8>, pc: u16)
    requires
        code[pc as int] == 0x20u8,
        decode_in_bounds(code, pc),
    ensures
        text_decodes("JR NZ r8"@, code, pc),
{
    lemma_name_texts();
    reveal_strlit("JR NZ r8");
    assert("JR NZ r8"@ =~= seq!['J', 'R', ' ', 'N', 'Z', ' ', 'r', '8']);
    reveal_with_fuel(split_on_space, 9);
    assert(split_on_space("JR NZ r8"@) =~~= seq!["JR"@, "NZ"@, "r8"@]);
    lemma_words_decode("JR NZ r8"@, code, pc);
}

/// The mnemonic text the decoder uses for opcode 0x21 decodes as `decoded` says.
pub(crate) proof fn lemma_text_21(code: Seq<u8>, pc: u16)
    requires
        code[pc as int] == 0x21u8,
        decode_in_bounds(code, pc),
    ensures
        text_decodes("LD16 HL d16"@, code, pc),
{
    lemma_name_texts();
    reveal_strlit("LD16 HL d16");
    assert("LD16 HL d16"@ =~= seq!['L', 'D', '1', '6', ' ', 'H', 'L', ' ', 'd', '1', '6']);
    reveal_with_fuel(split_on_space, 12);
    assert(split_on_space("LD16 HL d16"@) =~~= seq!["LD16"@, "HL"@, "d16"@]);
    lemma_words_decode("LD16 HL d16"@, code, pc);
}

/// The mnemonic text the decoder uses for opcode 0x31 decodes as `decoded` says.
pub(crate) proof fn lemma_text_31(code: Seq<u8>, pc: u16)
    requires
        code[pc as int] == 0x31u8,
        decode_in_bounds(code, pc),
    ensures
        text_decodes("LD16 SP d16"@, code, pc),
{
    lemma_name_texts();
    reveal_strlit("LD16 SP d16");
    assert("LD16 SP d16"@ =~= seq!['L', 'D', '1', '6', ' ', 'S', 'P', ' ', 'd', '1', '6']);
    reveal_with_fuel(split_on_space, 12);
    assert(split_on_space("LD16 SP d16"@) =~~= seq!["LD16"@, "SP"@, "d16"@]);
    lemma_words_decode("LD16 SP d16"@, code, pc);
}

/// The mnemonic text the decoder uses for opcode 0x32 decodes as `decoded` says.
pub(crate) proof fn lemma_text_32(code: Seq<u8>, pc: u16)
    requires
        code[pc as int] == 0x32u8,
        decode_in_bounds(code, pc),
    ensures
        text_decodes("LD8 (HL-) A"@, code, pc),
{
    lemma_name_texts();
    reveal_strlit("LD8 (HL-) A");
    assert("LD8 (HL-) A"@ =~= seq!['L', 'D', '8', ' ', '(', 'H', 'L', '-', ')', ' ', 'A']);
    reveal_with_fuel(split_on_space, 12);
    assert(split_on_space("LD8 (HL-) A"@) =~~= seq!["LD8"@, "(HL-)"@, "A"@]);
    lemma_words_decode("LD8 (HL-) A"@, code, pc);
}

/// The mnemonic text the decoder uses for opcode 0x3E decodes as `decoded` says.
pub(crate) proof fn lemma_text_3e(code: Seq<u8>, pc: u16)
    requires
        code[pc as int] == 0x3Eu8,
        decode_in_bounds(code, pc),
    ensures
        text_decodes("LD8 A d8"@, code, pc),
{
    lemma_name_texts();
    reveal_strlit("LD8 A d8");
    assert("LD8 A d8"@ =~= seq!['L', 'D', '8', ' ', 'A', ' ', 'd', '8']);
    reveal_with_fuel(split_on_space, 9);
    assert(split_on_space("LD8 A d8"@) =~~= seq!["LD8"@, "A"@, "d8"@]);
    lemma_words_decode("LD8 A d8"@, code, pc);
}

/// The mnemonic text the decoder uses for opcode 0x77 decodes as `decoded` says.
pub(crate) proof fn lemma_text_77(code: Seq<u8>, pc: u16)
    requires
        code[pc as int] == 0x77u8,
        decode_in_bounds(code, pc),
    ensures
        text_decodes("LD8 (HL) A"@, code, pc),
{
    lemma_name_texts();
    reveal_strlit("LD8 (HL) A");
    assert("LD8 (HL) A"@ =~= seq!['L', 'D', '8', ' ', '(', 'H', 'L', ')', ' ', 'A']);
    reveal_with_fuel(split_on_space, 11);
    assert(split_on_space("LD8 (HL) A"@) =~~= seq!["LD8"@, "(HL)"@, "A"@]);
    lemma_words_decode("LD8 (HL) A"@, code, pc);
}

/// The mnemonic text the decoder uses for opcode 0xAF decodes as `decoded` says.
pub(crate) proof fn lemma_text_af(code: Seq<u8>, pc: u16)
    requires
        code[pc as int] == 0xAFu8,
        decode_in_bounds(code, pc),
    ensures
        text_decodes("XOR A"@, code, pc),
{
    lemma_name_texts();
    reveal_strlit("XOR A");
    assert("XOR A"@ =~= seq!['X', 'O', 'R', ' ', 'A']);
    reveal_with_fuel(split_on_space, 6);
    assert(split_on_space("XOR A"@) =~~= seq!["XOR"@, "A"@]);
    lemma_words_decode("XOR A"@, code, pc);
}

/// The mnemonic text the decoder uses for opcode 0xCB decodes as `decoded` says.
pub(crate) proof fn lemma_text_cb(code: Seq<u8>, pc: u16)
    requires
        code[pc as int] == 0xCBu8,
        code[pc + 1] == 0x7Cu8,
        decode_in_bounds(code, pc),
    ensures
        text_decodes("BIT 7 H"@, code, pc),
{
    lemma_name_texts();
    reveal_strlit("BIT 7 H");
    assert("BIT 7 H"@ =~= seq!['B', 'I', 'T', ' ', '7', ' ', 'H']);
    reveal_with_fuel(split_on_space, 8);
    assert(split_on_space("BIT 7 H"@) =~~= seq!["BIT"@, "7"@, "H"@]);
    lemma_words_decode("BIT 7 H"@, code, pc);
}

/// The mnemonic text the decoder uses for opcode 0xE0 decodes as `decoded` says.
pub(crate) proof fn lemma_text_e0(code: Seq<u8>, pc: u16)
    requires
        code[pc as int] == 0xE0u8,
        decode_in_bounds(code, pc),
    ensures
        text_decodes("LD8 (a8) A"@, code, pc),
{
    lemma_name_texts();
    reveal_strlit("LD8 (a8) A");
    assert("LD8 (a8) A"@ =~= seq!['L', 'D', '8', ' ', '(', 'a', '8', ')', ' ', 'A']);
    reveal_with_fuel(split_on_space, 11);
    assert(split_on_space("LD8 (a8) A"@) =~~= seq!["LD8"@, "(a8)"@, "A"@]);
    lemma_words_decode("LD8 (a8) A"@, code, pc);
}

/// The mnemonic text the decoder uses for opcode 0xE2 decodes as `decoded` says.
pub(crate) proof fn lemma_text_e2(code: Seq<u8>, pc: u16)
    requires
        code[pc as int] == 0xE2u8,
        decode_in_bounds(code, pc),
    ensures
        text_decodes("LD8 (C) A"@, code, pc),
{
    lemma_name_texts();
    reveal_strlit("LD8 (C) A");
    assert("LD8 (C) A"@ =~= seq!['L', 'D', '8', ' ', '(', 'C', ')', ' ', 'A']);
    reveal_with_fuel(split_on_space, 10);
    assert(split_on_space("LD8 (C) A"@) =~~= seq!["LD8"@, "(C)"@, "A"@]);
    lemma_words_decode("LD8 (C) A"@, code, pc);
}

} // verus!
