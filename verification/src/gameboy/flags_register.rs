use vstd::prelude::*;

use super::cpu::CPU;
use super::register::RegisterLabel8;

verus! {

/// The four flags kept in the F register: zero, subtract, half carry and
/// carry.
#[derive(Clone, Copy, Debug, PartialEq, Eq, Structural)]
pub enum Flags {
    Z,
    N,
    H,
    C,
}

/// The bit of the F register that holds a flag: Z is bit 7, N bit 6, H bit 5
/// and C bit 4.
pub open spec fn flag_mask(flag: Flags) -> u8 {
    match flag {
        Flags::Z => 0x80u8,
        Flags::N => 0x40u8,
        Flags::H => 0x20u8,
        Flags::C => 0x10u8,
    }
}

/// Whether `flag` is set in the register file.
pub open spec fn flag_of(cpu: CPU, flag: Flags) -> bool {
    cpu.f & flag_mask(flag) != 0
}

/// The register file with `flag` set (`set`) or cleared, every other bit of
/// F and every other register unchanged.
pub open spec fn with_flag(cpu: CPU, flag: Flags, set: bool) -> CPU {
    if set {
        cpu.with_reg8(RegisterLabel8::F, cpu.f | flag_mask(flag))
    } else {
        cpu.with_reg8(RegisterLabel8::F, cpu.f & !flag_mask(flag))
    }
}

fn mask_of(flag: Flags) -> (m: u8)
    ensures
        m == flag_mask(flag),
    no_unwind
{
    match flag {
        Flags::Z => 0x80,
        Flags::N => 0x40,
        Flags::H => 0x20,
        Flags::C => 0x10,
    }
}

/// Reads a flag from the F register.
pub fn read_flag(cpu: &CPU, flag: Flags) -> (set: bool)
    ensures
        set == flag_of(*cpu, flag),
    no_unwind
{
    let f = cpu.read_8_bits(RegisterLabel8::F);
    f & mask_of(flag) != 0
}

/// Sets or clears a flag in the F register.
pub fn write_flag(cpu: &mut CPU, flag: Flags, set: bool)
    ensures
        *final(cpu) == with_flag(*old(cpu), flag, set),
    no_unwind
{
    let f = cpu.read_8_bits(RegisterLabel8::F);
    let m = mask_of(flag);
    if set {
        cpu.write_8_bits(RegisterLabel8::F, f | m);
    } else {
        cpu.write_8_bits(RegisterLabel8::F, f & !m);
    }
}

proof fn lemma_bits(f: u8)
    ensures
        (f | 0x80u8) & 0x80u8 != 0,
        (f & !0x80u8) & 0x80u8 == 0,
        (f | 0x40u8) & 0x40u8 != 0,
        (f & !0x40u8) & 0x40u8 == 0,
        (f | 0x20u8) & 0x20u8 != 0,
        (f & !0x20u8) & 0x20u8 == 0,
        (f | 0x10u8) & 0x10u8 != 0,
        (f & !0x10u8) & 0x10u8 == 0,
{
    assert((f | 0x80u8) & 0x80u8 != 0) by (bit_vector);
    assert((f & !0x80u8) & 0x80u8 == 0) by (bit_vector);
    assert((f | 0x40u8) & 0x40u8 != 0) by (bit_vector);
    assert((f & !0x40u8) & 0x40u8 == 0) by (bit_vector);
    assert((f | 0x20u8) & 0x20u8 != 0) by (bit_vector);
    assert((f & !0x20u8) & 0x20u8 == 0) by (bit_vector);
    assert((f | 0x10u8) & 0x10u8 != 0) by (bit_vector);
    assert((f & !0x10u8) & 0x10u8 == 0) by (bit_vector);
}

proof fn lemma_other_bit(f: u8, m: u8, k: u8)
    requires
        m == 0x80u8 || m == 0x40u8 || m == 0x20u8 || m == 0x10u8,
        k == 0x80u8 || k == 0x40u8 || k == 0x20u8 || k == 0x10u8,
        m != k,
    ensures
        ((f | m) & k != 0) == (f & k != 0),
        ((f & !m) & k != 0) == (f & k != 0),
{
    assert(((f | m) & k != 0) == (f & k != 0)) by (bit_vector)
        requires
            m == 0x80u8 || m == 0x40u8 || m == 0x20u8 || m == 0x10u8,
            k == 0x80u8 || k == 0x40u8 || k == 0x20u8 || k == 0x10u8,
            m != k,
    ;
    assert(((f & !m) & k != 0) == (f & k != 0)) by (bit_vector)
        requires
            m == 0x80u8 || m == 0x40u8 || m == 0x20u8 || m == 0x10u8,
            k == 0x80u8 || k == 0x40u8 || k == 0x20u8 || k == 0x10u8,
            m != k,
    ;
}

/// A flag reads back as it was last written; writing one flag leaves every
/// other flag, and every register but F, as it was.
pub proof fn lemma_flag_write_read(cpu: CPU, flag: Flags, set: bool, other: Flags)
    ensures
        flag_of(with_flag(cpu, flag, set), flag) == set,
        other != flag ==> flag_of(with_flag(cpu, flag, set), other) == flag_of(cpu, other),
        with_flag(cpu, flag, set).a == cpu.a,
        with_flag(cpu, flag, set).b == cpu.b,
        with_flag(cpu, flag, set).c == cpu.c,
        with_flag(cpu, flag, set).d == cpu.d,
        with_flag(cpu, flag, set).e == cpu.e,
        with_flag(cpu, flag, set).h == cpu.h,
        with_flag(cpu, flag, set).l == cpu.l,
        with_flag(cpu, flag, set).sp == cpu.sp,
        with_flag(cpu, flag, set).pc == cpu.pc,
{
    lemma_bits(cpu.f);
    if other != flag {
        lemma_other_bit(cpu.f, flag_mask(flag), flag_mask(other));
    }
}

} // verus!
