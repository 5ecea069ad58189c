use vstd::prelude::*;

use crate::debug::registers_widget::register_order;
use crate::gameboy::debug::{lookup, Registers};
use crate::gameboy::instruction_set::{reg16_name, reg8_name, Machine};
use crate::gameboy::messages::{alt_hex, hex_text};
use crate::gameboy::{Gameboy, RegisterLabel16, RegisterLabel8};

verus! {

/// The text a register snapshot gives a register's value: its value in
/// hexadecimal as `{:#X}` writes it, for each name of `register_order`.
pub open spec fn register_text(m: Machine, name: Seq<char>) -> Seq<char> {
    let value: u16 = if name == "A"@ {
        m.cpu.reg8(RegisterLabel8::A) as u16
    } else if name == "F"@ {
        m.cpu.reg8(RegisterLabel8::F) as u16
    } else if name == "B"@ {
        m.cpu.reg8(RegisterLabel8::B) as u16
    } else if name == "C"@ {
        m.cpu.reg8(RegisterLabel8::C) as u16
    } else if name == "D"@ {
        m.cpu.reg8(RegisterLabel8::D) as u16
    } else if name == "E"@ {
        m.cpu.reg8(RegisterLabel8::E) as u16
    } else if name == "H"@ {
        m.cpu.reg8(RegisterLabel8::H) as u16
    } else if name == "L"@ {
        m.cpu.reg8(RegisterLabel8::L) as u16
    } else if name == "AF"@ {
        m.cpu.reg16(RegisterLabel16::AF)
    } else if name == "BC"@ {
        m.cpu.reg16(RegisterLabel16::BC)
    } else if name == "DE"@ {
        m.cpu.reg16(RegisterLabel16::DE)
    } else if name == "HL"@ {
        m.cpu.reg16(RegisterLabel16::HL)
    } else if name == "PC"@ {
        m.cpu.reg16(RegisterLabel16::ProgramCounter)
    } else {
        m.cpu.reg16(RegisterLabel16::StackPointer)
    };
    alt_hex(value as nat)
}

proof fn lemma_register_names()
    ensures
        "A"@.len() == 1 && "A"@[0] == 'A',
        "F"@.len() == 1 && "F"@[0] == 'F',
        "B"@.len() == 1 && "B"@[0] == 'B',
        "C"@.len() == 1 && "C"@[0] == 'C',
        "D"@.len() == 1 && "D"@[0] == 'D',
        "E"@.len() == 1 && "E"@[0] == 'E',
        "H"@.len() == 1 && "H"@[0] == 'H',
        "L"@.len() == 1 && "L"@[0] == 'L',
        "AF"@.len() == 2 && "AF"@[0] == 'A' && "AF"@[1] == 'F',
        "BC"@.len() == 2 && "BC"@[0] == 'B' && "BC"@[1] == 'C',
        "DE"@.len() == 2 && "DE"@[0] == 'D' && "DE"@[1] == 'E',
        "HL"@.len() == 2 && "HL"@[0] == 'H' && "HL"@[1] == 'L',
        "PC"@.len() == 2 && "PC"@[0] == 'P' && "PC"@[1] == 'C',
        "SP"@.len() == 2 && "SP"@[0] == 'S' && "SP"@[1] == 'P',
{
    reveal_strlit("A");
    reveal_strlit("F");
    reveal_strlit("B");
    reveal_strlit("C");
    reveal_strlit("D");
    reveal_strlit("E");
    reveal_strlit("H");
    reveal_strlit("L");
    reveal_strlit("AF");
    reveal_strlit("BC");
    reveal_strlit("DE");
    reveal_strlit("HL");
    reveal_strlit("PC");
    reveal_strlit("SP");
}

/// Each register's name gives that register's value: an 8-bit register's
/// name (as instructions write it) its 8-bit value, a pair's name the pair's
/// 16-bit value, and `PC` and `SP` the program counter and stack pointer.
pub proof fn lemma_register_text_names(m: Machine)
    ensures
        forall|r: RegisterLabel8|
            #[trigger] register_text(m, reg8_name(r)) == alt_hex(m.cpu.reg8(r) as nat),
        register_text(m, reg16_name(RegisterLabel16::AF)) == alt_hex(
            m.cpu.reg16(RegisterLabel16::AF) as nat,
        ),
        register_text(m, reg16_name(RegisterLabel16::BC)) == alt_hex(
            m.cpu.reg16(RegisterLabel16::BC) as nat,
        ),
        register_text(m, reg16_name(RegisterLabel16::DE)) == alt_hex(
            m.cpu.reg16(RegisterLabel16::DE) as nat,
        ),
        register_text(m, reg16_name(RegisterLabel16::HL)) == alt_hex(
            m.cpu.reg16(RegisterLabel16::HL) as nat,
        ),
        register_text(m, "PC"@) == alt_hex(m.cpu.pc as nat),
        register_text(m, "SP"@) == alt_hex(m.cpu.sp as nat),
{
    lemma_register_names();
}

/// A snapshot of every register of `gb`: each of `snapshot_names` gives the
/// register's value in hexadecimal.
pub fn get_registers(gb: &Gameboy) -> (registers: Registers)
    ensures
        forall|i: int|
            0 <= i < register_order().len() ==> lookup(registers.entries(), #[trigger] register_order()[i])
                == Some(register_text(gb@, register_order()[i])),
{
    proof {
        lemma_register_names();
    }
    let mut registers = Registers::new();
    registers.insert(String::from_str("A"), hex_text(gb.get_register_8(RegisterLabel8::A) as u16));
    registers.insert(String::from_str("F"), hex_text(gb.get_register_8(RegisterLabel8::F) as u16));
    registers.insert(String::from_str("B"), hex_text(gb.get_register_8(RegisterLabel8::B) as u16));
    registers.insert(String::from_str("C"), hex_text(gb.get_register_8(RegisterLabel8::C) as u16));
    registers.insert(String::from_str("D"), hex_text(gb.get_register_8(RegisterLabel8::D) as u16));
    registers.insert(String::from_str("E"), hex_text(gb.get_register_8(RegisterLabel8::E) as u16));
    registers.insert(String::from_str("H"), hex_text(gb.get_register_8(RegisterLabel8::H) as u16));
    registers.insert(String::from_str("L"), hex_text(gb.get_register_8(RegisterLabel8::L) as u16));
    registers.insert(String::from_str("AF"), hex_text(gb.get_register_16(RegisterLabel16::AF)));
    registers.insert(String::from_str("BC"), hex_text(gb.get_register_16(RegisterLabel16::BC)));
    registers.insert(String::from_str("DE"), hex_text(gb.get_register_16(RegisterLabel16::DE)));
    registers.insert(String::from_str("HL"), hex_text(gb.get_register_16(RegisterLabel16::HL)));
    registers.insert(
        String::from_str("PC"),
        hex_text(gb.get_register_16(RegisterLabel16::ProgramCounter)),
    );
    registers.insert(
        String::from_str("SP"),
        hex_text(gb.get_register_16(RegisterLabel16::StackPointer)),
    );
    registers
}

} // verus!
