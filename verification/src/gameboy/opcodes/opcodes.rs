use vstd::prelude::*;

use super::cb_opcodes::{cb_code_to_opcode, cb_mnemonic};
use crate::gameboy::instruction_set::{decode_in_bounds, decoded, Argument, Catagory};
use crate::gameboy::mnemonic::{
    lemma_text_00, lemma_text_0e, lemma_text_11, lemma_text_1a, lemma_text_20, lemma_text_21,
    lemma_text_31, lemma_text_32, lemma_text_3e, lemma_text_77, lemma_text_af, lemma_text_cb,
    lemma_text_e0, lemma_text_e2, parse_op,
};
use crate::gameboy::messages::{
    unknown_cb_command_text, unknown_command_message, unknown_command_text,
};

verus! {

/// The mnemonic of an opcode byte that is not the 0xCB prefix, where the
/// byte is known.
pub open spec fn plain_mnemonic(code: u8) -> Option<Seq<char>> {
    match code {
        0x00u8 => Some("NOP"@),
        0x05u8 => Some("DEC B"@),
        0x06u8 => Some("LD8 B d8"@),
        0x0Cu8 => Some("INC C"@),
        0x0Eu8 => Some("LD8 C d8"@),
        0x11u8 => Some("LD16 DE d16"@),
        0x17u8 => Some("RLA"@),
        0x1Au8 => Some("LD8 A (DE)"@),
        0x20u8 => Some("JR NZ r8"@),
        0x21u8 => Some("LD16 HL d16"@),
        0x22u8 => Some("LD8 (HL+) A"@),
        0x23u8 => Some("INC HL"@),
        0x31u8 => Some("LD16 SP d16"@),
        0x32u8 => Some("LD8 (HL-) A"@),
        0x3Eu8 => Some("LD8 A d8"@),
        0x4Fu8 => Some("LD8 C A"@),
        0x77u8 => Some("LD8 (HL) A"@),
        0xAFu8 => Some("XOR A"@),
        0xC1u8 => Some("POP BC"@),
        0xC5u8 => Some("PUSH BC"@),
        0xCDu8 => Some("CALL a16"@),
        0xE0u8 => Some("LD8 (a8) A"@),
        0xE2u8 => Some("LD8 (C) A"@),
        _ => None,
    }
}

/// The mnemonic of the instruction with opcode `code`; after the 0xCB prefix
/// it is that of the byte `next` that follows.
pub open spec fn mnemonic(code: u8, next: u8) -> Option<Seq<char>> {
    if code == 0xCBu8 {
        cb_mnemonic(next)
    } else {
        plain_mnemonic(code)
    }
}

/// The error text for an instruction whose mnemonic is not known.
pub open spec fn mnemonic_error_text(code: u8, next: u8, program_counter: u16) -> Seq<char> {
    if code == 0xCBu8 {
        unknown_cb_command_text(next)
    } else {
        unknown_command_text(code, program_counter)
    }
}

/// The mnemonic of the instruction with opcode `code` at `program_counter`.
/// After the 0xCB prefix the byte at `program_counter + 1` names the
/// instruction. Fails, with the text `mnemonic_error_text` gives, exactly
/// where the instruction is not known.
pub fn code_to_opcode(code: u8, program_counter: u16, program_code: &[u8]) -> (r: Result<&str, String>)
    requires
        code == 0xCB ==> program_counter + 1 < program_code@.len(),
    ensures
        match r {
            Ok(name) => mnemonic(code, program_code@[program_counter + 1]) == Some(name@),
            Err(msg) => mnemonic(code, program_code@[program_counter + 1]) is None
                && msg@ == mnemonic_error_text(code, program_code@[program_counter + 1], program_counter),
        },
{
    match code {
        0x00 => Ok("NOP"),
        0x05 => Ok("DEC B"),
        0x06 => Ok("LD8 B d8"),
        0x0C => Ok("INC C"),
        0x0E => Ok("LD8 C d8"),
        0x11 => Ok("LD16 DE d16"),
        0x17 => Ok("RLA"),
        0x1A => Ok("LD8 A (DE)"),
        0x20 => Ok("JR NZ r8"),
        0x21 => Ok("LD16 HL d16"),
        0x22 => Ok("LD8 (HL+) A"),
        0x23 => Ok("INC HL"),
        0x31 => Ok("LD16 SP d16"),
        0x32 => Ok("LD8 (HL-) A"),
        0x3E => Ok("LD8 A d8"),
        0x4F => Ok("LD8 C A"),
        0x77 => Ok("LD8 (HL) A"),
        0xAF => Ok("XOR A"),
        0xC1 => Ok("POP BC"),
        0xC5 => Ok("PUSH BC"),
        0xCB => {
            // 0xCB is a prefix: the next byte names the actual instruction.
            let cb_instruction = program_code[program_counter as usize + 1];
            cb_code_to_opcode(cb_instruction)
        },
        0xCD => Ok("CALL a16"),
        0xE0 => Ok("LD8 (a8) A"),
        0xE2 => Ok("LD8 (C) A"),
        _ => Err(unknown_command_message(code, program_counter)),
    }
}

/// The characters of every mnemonic text.
proof fn lemma_mnemonic_texts()
    ensures
        "NOP"@.len() == 3 && "NOP"@[0] == 'N' && "NOP"@[1] == 'O' && "NOP"@[2] == 'P',
        "DEC B"@.len() == 5 && "DEC B"@[0] == 'D' && "DEC B"@[1] == 'E' && "DEC B"@[2] == 'C' && "DEC B"@[3] == ' ' && "DEC B"@[4] == 'B',
        "LD8 B d8"@.len() == 8 && "LD8 B d8"@[0] == 'L' && "LD8 B d8"@[1] == 'D' && "LD8 B d8"@[2] == '8' && "LD8 B d8"@[3] == ' ' && "LD8 B d8"@[4] == 'B' && "LD8 B d8"@[5] == ' ' && "LD8 B d8"@[6] == 'd' && "LD8 B d8"@[7] == '8',
        "INC C"@.len() == 5 && "INC C"@[0] == 'I' && "INC C"@[1] == 'N' && "INC C"@[2] == 'C' && "INC C"@[3] == ' ' && "INC C"@[4] == 'C',
        "LD8 C d8"@.len() == 8 && "LD8 C d8"@[0] == 'L' && "LD8 C d8"@[1] == 'D' && "LD8 C d8"@[2] == '8' && "LD8 C d8"@[3] == ' ' && "LD8 C d8"@[4] == 'C' && "LD8 C d8"@[5] == ' ' && "LD8 C d8"@[6] == 'd' && "LD8 C d8"@[7] == '8',
        "LD16 DE d16"@.len() == 11 && "LD16 DE d16"@[0] == 'L' && "LD16 DE d16"@[1] == 'D' && "LD16 DE d16"@[2] == '1' && "LD16 DE d16"@[3] == '6' && "LD16 DE d16"@[4] == ' ' && "LD16 DE d16"@[5] == 'D' && "LD16 DE d16"@[6] == 'E' && "LD16 DE d16"@[7] == ' ' && "LD16 DE d16"@[8] == 'd' && "LD16 DE d16"@[9] == '1' && "LD16 DE d16"@[10] == '6',
        "RLA"@.len() == 3 && "RLA"@[0] == 'R' && "RLA"@[1] == 'L' && "RLA"@[2] == 'A',
        "LD8 A (DE)"@.len() == 10 && "LD8 A (DE)"@[0] == 'L' && "LD8 A (DE)"@[1] == 'D' && "LD8 A (DE)"@[2] == '8' && "LD8 A (DE)"@[3] == ' ' && "LD8 A (DE)"@[4] == 'A' && "LD8 A (DE)"@[5] == ' ' && "LD8 A (DE)"@[6] == '(' && "LD8 A (DE)"@[7] == 'D' && "LD8 A (DE)"@[8] == 'E' && "LD8 A (DE)"@[9] == ')',
        "JR NZ r8"@.len() == 8 && "JR NZ r8"@[0] == 'J' && "JR NZ r8"@[1] == 'R' && "JR NZ r8"@[2] == ' ' && "JR NZ r8"@[3] == 'N' && "JR NZ r8"@[4] == 'Z' && "JR NZ r8"@[5] == ' ' && "JR NZ r8"@[6] == 'r' && "JR NZ r8"@[7] == '8',
        "LD16 HL d16"@.len() == 11 && "LD16 HL d16"@[0] == 'L' && "LD16 HL d16"@[1] == 'D' && "LD16 HL d16"@[2] == '1' && "LD16 HL d16"@[3] == '6' && "LD16 HL d16"@[4] == ' ' && "LD16 HL d16"@[5] == 'H' && "LD16 HL d16"@[6] == 'L' && "LD16 HL d16"@[7] == ' ' && "LD16 HL d16"@[8] == 'd' && "LD16 HL d16"@[9] == '1' && "LD16 HL d16"@[10] == '6',
        "LD8 (HL+) A"@.len() == 11 && "LD8 (HL+) A"@[0] == 'L' && "LD8 (HL+) A"@[1] == 'D' && "LD8 (HL+) A"@[2] == '8' && "LD8 (HL+) A"@[3] == ' ' && "LD8 (HL+) A"@[4] == '(' && "LD8 (HL+) A"@[5] == 'H' && "LD8 (HL+) A"@[6] == 'L' && "LD8 (HL+) A"@[7] == '+' && "LD8 (HL+) A"@[8] == ')' && "LD8 (HL+) A"@[9] == ' ' && "LD8 (HL+) A"@[10] == 'A',
        "INC HL"@.len() == 6 && "INC HL"@[0] == 'I' && "INC HL"@[1] == 'N' && "INC HL"@[2] == 'C' && "INC HL"@[3] == ' ' && "INC HL"@[4] == 'H' && "INC HL"@[5] == 'L',
        "LD16 SP d16"@.len() == 11 && "LD16 SP d16"@[0] == 'L' && "LD16 SP d16"@[1] == 'D' && "LD16 SP d16"@[2] == '1' && "LD16 SP d16"@[3] == '6' && "LD16 SP d16"@[4] == ' ' && "LD16 SP d16"@[5] == 'S' && "LD16 SP d16"@[6] == 'P' && "LD16 SP d16"@[7] == ' ' && "LD16 SP d16"@[8] == 'd' && "LD16 SP d16"@[9] == '1' && "LD16 SP d16"@[10] == '6',
        "LD8 (HL-) A"@.len() == 11 && "LD8 (HL-) A"@[0] == 'L' && "LD8 (HL-) A"@[1] == 'D' && "LD8 (HL-) A"@[2] == '8' && "LD8 (HL-) A"@[3] == ' ' && "LD8 (HL-) A"@[4] == '(' && "LD8 (HL-) A"@[5] == 'H' && "LD8 (HL-) A"@[6] == 'L' && "LD8 (HL-) A"@[7] == '-' && "LD8 (HL-) A"@[8] == ')' && "LD8 (HL-) A"@[9] == ' ' && "LD8 (HL-) A"@[10] == 'A',
        "LD8 A d8"@.len() == 8 && "LD8 A d8"@[0] == 'L' && "LD8 A d8"@[1] == 'D' && "LD8 A d8"@[2] == '8' && "LD8 A d8"@[3] == ' ' && "LD8 A d8"@[4] == 'A' && "LD8 A d8"@[5] == ' ' && "LD8 A d8"@[6] == 'd' && "LD8 A d8"@[7] == '8',
        "LD8 C A"@.len() == 7 && "LD8 C A"@[0] == 'L' && "LD8 C A"@[1] == 'D' && "LD8 C A"@[2] == '8' && "LD8 C A"@[3] == ' ' && "LD8 C A"@[4] == 'C' && "LD8 C A"@[5] == ' ' && "LD8 C A"@[6] == 'A',
        "LD8 (HL) A"@.len() == 10 && "LD8 (HL) A"@[0] == 'L' && "LD8 (HL) A"@[1] == 'D' && "LD8 (HL) A"@[2] == '8' && "LD8 (HL) A"@[3] == ' ' && "LD8 (HL) A"@[4] == '(' && "LD8 (HL) A"@[5] == 'H' && "LD8 (HL) A"@[6] == 'L' && "LD8 (HL) A"@[7] == ')' && "LD8 (HL) A"@[8] == ' ' && "LD8 (HL) A"@[9] == 'A',
        "XOR A"@.len() == 5 && "XOR A"@[0] == 'X' && "XOR A"@[1] == 'O' && "XOR A"@[2] == 'R' && "XOR A"@[3] == ' ' && "XOR A"@[4] == 'A',
        "POP BC"@.len() == 6 && "POP BC"@[0] == 'P' && "POP BC"@[1] == 'O' && "POP BC"@[2] == 'P' && "POP BC"@[3] == ' ' && "POP BC"@[4] == 'B' && "POP BC"@[5] == 'C',
        "PUSH BC"@.len() == 7 && "PUSH BC"@[0] == 'P' && "PUSH BC"@[1] == 'U' && "PUSH BC"@[2] == 'S' && "PUSH BC"@[3] == 'H' && "PUSH BC"@[4] == ' ' && "PUSH BC"@[5] == 'B' && "PUSH BC"@[6] == 'C',
        "CALL a16"@.len() == 8 && "CALL a16"@[0] == 'C' && "CALL a16"@[1] == 'A' && "CALL a16"@[2] == 'L' && "CALL a16"@[3] == 'L' && "CALL a16"@[4] == ' ' && "CALL a16"@[5] == 'a' && "CALL a16"@[6] == '1' && "CALL a16"@[7] == '6',
        "LD8 (a8) A"@.len() == 10 && "LD8 (a8) A"@[0] == 'L' && "LD8 (a8) A"@[1] == 'D' && "LD8 (a8) A"@[2] == '8' && "LD8 (a8) A"@[3] == ' ' && "LD8 (a8) A"@[4] == '(' && "LD8 (a8) A"@[5] == 'a' && "LD8 (a8) A"@[6] == '8' && "LD8 (a8) A"@[7] == ')' && "LD8 (a8) A"@[8] == ' ' && "LD8 (a8) A"@[9] == 'A',
        "LD8 (C) A"@.len() == 9 && "LD8 (C) A"@[0] == 'L' && "LD8 (C) A"@[1] == 'D' && "LD8 (C) A"@[2] == '8' && "LD8 (C) A"@[3] == ' ' && "LD8 (C) A"@[4] == '(' && "LD8 (C) A"@[5] == 'C' && "LD8 (C) A"@[6] == ')' && "LD8 (C) A"@[7] == ' ' && "LD8 (C) A"@[8] == 'A',
{
    reveal_strlit("NOP");
    reveal_strlit("DEC B");
    reveal_strlit("LD8 B d8");
    reveal_strlit("INC C");
    reveal_strlit("LD8 C d8");
    reveal_strlit("LD16 DE d16");
    reveal_strlit("RLA");
    reveal_strlit("LD8 A (DE)");
    reveal_strlit("JR NZ r8");
    reveal_strlit("LD16 HL d16");
    reveal_strlit("LD8 (HL+) A");
    reveal_strlit("INC HL");
    reveal_strlit("LD16 SP d16");
    reveal_strlit("LD8 (HL-) A");
    reveal_strlit("LD8 A d8");
    reveal_strlit("LD8 C A");
    reveal_strlit("LD8 (HL) A");
    reveal_strlit("XOR A");
    reveal_strlit("POP BC");
    reveal_strlit("PUSH BC");
    reveal_strlit("CALL a16");
    reveal_strlit("LD8 (a8) A");
    reveal_strlit("LD8 (C) A");
}

/// Distinct opcode bytes have distinct mnemonics: a mnemonic names one
/// opcode.
pub proof fn lemma_mnemonics_distinct(a: u8, b: u8)
    requires
        plain_mnemonic(a) is Some,
        plain_mnemonic(b) is Some,
        a != b,
    ensures
        plain_mnemonic(a) != plain_mnemonic(b),
{
    lemma_mnemonic_texts();
}

/// The mnemonic of an instruction the decoder runs names that instruction:
/// read as mnemonic text, it gives the kind and operands the decoder
/// decodes. (RET has no mnemonic, and INC C's name is one the text reader
/// does not know, so the decoder builds INC C directly.)
pub proof fn lemma_mnemonic_names_decoded(code: Seq<u8>, pc: u16)
    requires
        decode_in_bounds(code, pc),
        decoded(code, pc) is Some,
        code[pc as int] != 0xC9u8,
        code[pc as int] != 0x0Cu8,
    ensures
        parse_op(mnemonic(code[pc as int], code[pc + 1]).unwrap(), code, pc) == Ok::<
            (Catagory, Seq<Argument>),
            Seq<char>,
        >(decoded(code, pc).unwrap()),
{
    let c = code[pc as int];
    if false {    } else if c == 0x00u8 {
        lemma_text_00(code, pc);
    } else if c == 0x0Eu8 {
        lemma_text_0e(code, pc);
    } else if c == 0x11u8 {
        lemma_text_11(code, pc);
    } else if c == 0x1Au8 {
        lemma_text_1a(code, pc);
    } else if c == 0x20u8 {
        lemma_text_20(code, pc);
    } else if c == 0x21u8 {
        lemma_text_21(code, pc);
    } else if c == 0x31u8 {
        lemma_text_31(code, pc);
    } else if c == 0x32u8 {
        lemma_text_32(code, pc);
    } else if c == 0x3Eu8 {
        lemma_text_3e(code, pc);
    } else if c == 0x77u8 {
        lemma_text_77(code, pc);
    } else if c == 0xAFu8 {
        lemma_text_af(code, pc);
    } else if c == 0xCBu8 {
        lemma_text_cb(code, pc);
    } else if c == 0xE0u8 {
        lemma_text_e0(code, pc);
    } else if c == 0xE2u8 {
        lemma_text_e2(code, pc);
    }
}

/// Every instruction the decoder knows has a mnemonic, RET (0xC9) aside:
/// the mnemonic table has no entry for it.
pub proof fn lemma_decoded_has_mnemonic(code: Seq<u8>, pc: u16)
    requires
        decoded(code, pc) is Some,
        code[pc as int] != 0xC9u8,
    ensures
        mnemonic(code[pc as int], code[pc + 1]) is Some,
{
}

} // verus!
