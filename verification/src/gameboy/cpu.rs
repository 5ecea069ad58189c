use vstd::prelude::*;

use super::register::{RegisterLabel16, RegisterLabel8};

verus! {

/// The 16-bit value of a register pair whose high byte is `hi` and low byte is `lo`.
pub open spec fn pair_value(hi: u8, lo: u8) -> u16 {
    (hi as int * 256 + lo as int) as u16
}

/// The high byte of a 16-bit value.
pub open spec fn high_byte(v: u16) -> u8 {
    (v as int / 256) as u8
}

/// The low byte of a 16-bit value.
pub open spec fn low_byte(v: u16) -> u8 {
    (v as int % 256) as u8
}

/// The register file of the CPU. The 16-bit pairs AF, BC, DE and HL are
/// not stored on their own: each is made of two 8-bit registers, the first
/// named one being the high byte.
#[derive(Clone, Copy, Debug, PartialEq, Eq, Structural)]
pub struct CPU {
    pub a: u8,
    pub f: u8,
    pub b: u8,
    pub c: u8,
    pub d: u8,
    pub e: u8,
    pub h: u8,
    pub l: u8,
    pub sp: u16,
    pub pc: u16,
}

impl CPU {
    /// The value of an 8-bit register.
    pub open spec fn reg8(self, r: RegisterLabel8) -> u8 {
        match r {
            RegisterLabel8::A => self.a,
            RegisterLabel8::F => self.f,
            RegisterLabel8::B => self.b,
            RegisterLabel8::C => self.c,
            RegisterLabel8::D => self.d,
            RegisterLabel8::E => self.e,
            RegisterLabel8::H => self.h,
            RegisterLabel8::L => self.l,
        }
    }

    /// The value of a 16-bit register.
    pub open spec fn reg16(self, r: RegisterLabel16) -> u16 {
        match r {
            RegisterLabel16::AF => pair_value(self.a, self.f),
            RegisterLabel16::BC => pair_value(self.b, self.c),
            RegisterLabel16::DE => pair_value(self.d, self.e),
            RegisterLabel16::HL => pair_value(self.h, self.l),
            RegisterLabel16::StackPointer => self.sp,
            RegisterLabel16::ProgramCounter => self.pc,
        }
    }

    /// The register file with the 8-bit register `r` set to `v`.
    pub open spec fn with_reg8(self, r: RegisterLabel8, v: u8) -> CPU {
        match r {
            RegisterLabel8::A => CPU { a: v, ..self },
            RegisterLabel8::F => CPU { f: v, ..self },
            RegisterLabel8::B => CPU { b: v, ..self },
            RegisterLabel8::C => CPU { c: v, ..self },
            RegisterLabel8::D => CPU { d: v, ..self },
            RegisterLabel8::E => CPU { e: v, ..self },
            RegisterLabel8::H => CPU { h: v, ..self },
            RegisterLabel8::L => CPU { l: v, ..self },
        }
    }

    /// The register file with the 16-bit register `r` set to `v`: for a
    /// pair, the high byte goes to the first register and the low byte to
    /// the second.
    pub open spec fn with_reg16(self, r: RegisterLabel16, v: u16) -> CPU {
        match r {
            RegisterLabel16::AF => CPU { a: high_byte(v), f: low_byte(v), ..self },
            RegisterLabel16::BC => CPU { b: high_byte(v), c: low_byte(v), ..self },
            RegisterLabel16::DE => CPU { d: high_byte(v), e: low_byte(v), ..self },
            RegisterLabel16::HL => CPU { h: high_byte(v), l: low_byte(v), ..self },
            RegisterLabel16::StackPointer => CPU { sp: v, ..self },
            RegisterLabel16::ProgramCounter => CPU { pc: v, ..self },
        }
    }

    /// The register file with every register at zero.
    pub open spec fn zeroed() -> CPU {
        CPU { a: 0, f: 0, b: 0, c: 0, d: 0, e: 0, h: 0, l: 0, sp: 0, pc: 0 }
    }

    /// A CPU whose registers are all zero.
    pub fn new() -> (cpu: CPU)
        ensures
            cpu == CPU::zeroed(),
    {
        CPU { a: 0, f: 0, b: 0, c: 0, d: 0, e: 0, h: 0, l: 0, sp: 0, pc: 0 }
    }

    /// Reads an 8-bit register.
    pub fn read_8_bits(&self, register: RegisterLabel8) -> (v: u8)
        ensures
            v == self.reg8(register),
        no_unwind
    {
        match register {
            RegisterLabel8::A => self.a,
            RegisterLabel8::F => self.f,
            RegisterLabel8::B => self.b,
            RegisterLabel8::C => self.c,
            RegisterLabel8::D => self.d,
            RegisterLabel8::E => self.e,
            RegisterLabel8::H => self.h,
            RegisterLabel8::L => self.l,
        }
    }

    /// Reads a 16-bit register; a pair reads as its high register times 256
    /// plus its low register.
    pub fn read_16_bits(&self, register: RegisterLabel16) -> (v: u16)
        ensures
            v == self.reg16(register),
        no_unwind
    {
        match register {
            RegisterLabel16::AF => join_bytes(self.a, self.f),
            RegisterLabel16::BC => join_bytes(self.b, self.c),
            RegisterLabel16::DE => join_bytes(self.d, self.e),
            RegisterLabel16::HL => join_bytes(self.h, self.l),
            RegisterLabel16::StackPointer => self.sp,
            RegisterLabel16::ProgramCounter => self.pc,
        }
    }

    /// Writes an 8-bit register and leaves every other register as it was.
    pub fn write_8_bits(&mut self, register: RegisterLabel8, value: u8)
        ensures
            *final(self) == old(self).with_reg8(register, value),
        no_unwind
    {
        match register {
            RegisterLabel8::A => self.a = value,
            RegisterLabel8::F => self.f = value,
            RegisterLabel8::B => self.b = value,
            RegisterLabel8::C => self.c = value,
            RegisterLabel8::D => self.d = value,
            RegisterLabel8::E => self.e = value,
            RegisterLabel8::H => self.h = value,
            RegisterLabel8::L => self.l = value,
        }
    }

    /// Writes a 16-bit register and leaves every other register as it was.
    pub fn write_16_bits(&mut self, register: RegisterLabel16, value: u16)
        ensures
            *final(self) == old(self).with_reg16(register, value),
        no_unwind
    {
        let hi: u8 = (value / 256) as u8;
        let lo: u8 = (value % 256) as u8;
        match register {
            RegisterLabel16::AF => {
                self.a = hi;
                self.f = lo;
            },
            RegisterLabel16::BC => {
                self.b = hi;
                self.c = lo;
            },
            RegisterLabel16::DE => {
                self.d = hi;
                self.e = lo;
            },
            RegisterLabel16::HL => {
                self.h = hi;
                self.l = lo;
            },
            RegisterLabel16::StackPointer => self.sp = value,
            RegisterLabel16::ProgramCounter => self.pc = value,
        }
    }
}

/// The 16-bit value made of a high and a low byte.
pub fn join_bytes(hi: u8, lo: u8) -> (v: u16)
    ensures
        v == pair_value(hi, lo),
    no_unwind
{
    (hi as u16) * 256 + (lo as u16)
}

/// What an 8-bit write puts in a register is what a read of that register
/// gives back, and every other 8-bit register keeps its value.
pub proof fn lemma_reg8_write_read(cpu: CPU, r: RegisterLabel8, v: u8, other: RegisterLabel8)
    ensures
        cpu.with_reg8(r, v).reg8(r) == v,
        other != r ==> cpu.with_reg8(r, v).reg8(other) == cpu.reg8(other),
        cpu.with_reg8(r, v).sp == cpu.sp,
        cpu.with_reg8(r, v).pc == cpu.pc,
{
}

/// What a 16-bit write puts in a register is what a 16-bit read of that
/// register gives back.
pub proof fn lemma_reg16_write_read(cpu: CPU, r: RegisterLabel16, v: u16)
    ensures
        cpu.with_reg16(r, v).reg16(r) == v,
{
}

/// A 16-bit pair is made of its two 8-bit halves: writing the pair writes
/// the high byte to its first register and the low byte to its second, and
/// writing an 8-bit register changes the pairs that hold it and no other
/// 16-bit register.
pub proof fn lemma_pair_halves(cpu: CPU, v: u16)
    ensures
        cpu.with_reg16(RegisterLabel16::BC, v).reg8(RegisterLabel8::B) == high_byte(v),
        cpu.with_reg16(RegisterLabel16::BC, v).reg8(RegisterLabel8::C) == low_byte(v),
        cpu.with_reg16(RegisterLabel16::DE, v).reg8(RegisterLabel8::D) == high_byte(v),
        cpu.with_reg16(RegisterLabel16::DE, v).reg8(RegisterLabel8::E) == low_byte(v),
        cpu.with_reg16(RegisterLabel16::HL, v).reg8(RegisterLabel8::H) == high_byte(v),
        cpu.with_reg16(RegisterLabel16::HL, v).reg8(RegisterLabel8::L) == low_byte(v),
        cpu.with_reg16(RegisterLabel16::AF, v).reg8(RegisterLabel8::A) == high_byte(v),
        cpu.with_reg16(RegisterLabel16::AF, v).reg8(RegisterLabel8::F) == low_byte(v),
        pair_value(high_byte(v), low_byte(v)) == v,
{
}

} // verus!
