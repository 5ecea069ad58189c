use vstd::prelude::*;

use super::instruction_set::{args_size, Machine};
use super::{step, step_is_safe};

verus! {

// What one step does for each opcode the decoder knows, stated in terms of
// the registers and memory before and after, in plain arithmetic.

/// The byte at `address` of a machine's memory.
pub open spec fn byte_at(m: Machine, address: int) -> int {
    m.memory[address] as int
}

/// The little-endian 16-bit word at `address`.
pub open spec fn word_at(m: Machine, address: int) -> int {
    byte_at(m, address) + 256 * byte_at(m, address + 1)
}

/// HL as a number: H times 256 plus L.
pub open spec fn hl_of(m: Machine) -> int {
    m.cpu.h as int * 256 + m.cpu.l as int
}

/// The 8-bit registers other than the ones an instruction names keep their
/// values: `a`, `f`, `b`, `c`, `d`, `e`, `h`, `l` say which may change.
pub open spec fn kept_except(
    before: Machine,
    after: Machine,
    a: bool,
    f: bool,
    b: bool,
    c: bool,
    d: bool,
    e: bool,
    h: bool,
    l: bool,
) -> bool {
    &&& (!a ==> after.cpu.a == before.cpu.a)
    &&& (!f ==> after.cpu.f == before.cpu.f)
    &&& (!b ==> after.cpu.b == before.cpu.b)
    &&& (!c ==> after.cpu.c == before.cpu.c)
    &&& (!d ==> after.cpu.d == before.cpu.d)
    &&& (!e ==> after.cpu.e == before.cpu.e)
    &&& (!h ==> after.cpu.h == before.cpu.h)
    &&& (!l ==> after.cpu.l == before.cpu.l)
}

/// LD (HL-), A stores A at the address in HL, then HL is one less as a
/// 16-bit number (a borrow from L reaches H); it is one byte long and takes
/// 8 cycles.
pub proof fn lemma_ld_hl_dec_a(m: Machine)
    requires
        step_is_safe(m),
        m.memory[m.cpu.pc as int] == 0x32u8,
    ensures
        ({
            let (n, cycles) = step(m);
            &&& hl_of(n) == hl_of(m) - 1
            &&& n.memory == m.memory.update(hl_of(m), m.cpu.a)
            &&& n.cpu.pc == m.cpu.pc + 1
            &&& n.cpu.sp == m.cpu.sp
            &&& kept_except(m, n, false, false, false, false, false, false, true, true)
            &&& cycles == 8
        }),
{
    reveal_with_fuel(args_size, 3);
}

/// LD (HL), A stores A at the address in HL, leaving HL as it was.
pub proof fn lemma_ld_hl_a(m: Machine)
    requires
        step_is_safe(m),
        m.memory[m.cpu.pc as int] == 0x77u8,
    ensures
        ({
            let (n, cycles) = step(m);
            &&& n.memory == m.memory.update(hl_of(m), m.cpu.a)
            &&& n.cpu.pc == m.cpu.pc + 1
            &&& n.cpu.sp == m.cpu.sp
            &&& kept_except(m, n, false, false, false, false, false, false, false, false)
            &&& cycles == 8
        }),
{
    reveal_with_fuel(args_size, 3);
}

/// LD A, (DE) loads A from the address in DE.
pub proof fn lemma_ld_a_de(m: Machine)
    requires
        step_is_safe(m),
        m.memory[m.cpu.pc as int] == 0x1Au8,
    ensures
        ({
            let (n, cycles) = step(m);
            &&& n.cpu.a as int == byte_at(m, m.cpu.d as int * 256 + m.cpu.e as int)
            &&& n.memory == m.memory
            &&& n.cpu.pc == m.cpu.pc + 1
            &&& n.cpu.sp == m.cpu.sp
            &&& kept_except(m, n, true, false, false, false, false, false, false, false)
            &&& cycles == 8
        }),
{
    reveal_with_fuel(args_size, 3);
}

/// LD C, d8 and LD A, d8 load the byte after the opcode; they are two bytes
/// long and take 4 cycles.
pub proof fn lemma_ld_r_d8(m: Machine)
    requires
        step_is_safe(m),
        m.memory[m.cpu.pc as int] == 0x0Eu8 || m.memory[m.cpu.pc as int] == 0x3Eu8,
    ensures
        ({
            let (n, cycles) = step(m);
            let loads_c = m.memory[m.cpu.pc as int] == 0x0Eu8;
            &&& loads_c ==> n.cpu.c as int == byte_at(m, m.cpu.pc + 1)
            &&& !loads_c ==> n.cpu.a as int == byte_at(m, m.cpu.pc + 1)
            &&& n.memory == m.memory
            &&& n.cpu.pc == m.cpu.pc + 2
            &&& n.cpu.sp == m.cpu.sp
            &&& kept_except(m, n, !loads_c, false, false, loads_c, false, false, false, false)
            &&& cycles == 4
        }),
{
    reveal_with_fuel(args_size, 3);
}

/// LD DE, d16, LD HL, d16 and LD SP, d16 load the little-endian word after
/// the opcode; they are three bytes long and take 12 cycles.
pub proof fn lemma_ld_rr_d16(m: Machine)
    requires
        step_is_safe(m),
        m.memory[m.cpu.pc as int] == 0x11u8 || m.memory[m.cpu.pc as int] == 0x21u8
            || m.memory[m.cpu.pc as int] == 0x31u8,
    ensures
        ({
            let (n, cycles) = step(m);
            let code = m.memory[m.cpu.pc as int];
            let w = word_at(m, m.cpu.pc + 1);
            &&& code == 0x11u8 ==> n.cpu.d as int * 256 + n.cpu.e as int == w && kept_except(
                m,
                n,
                false,
                false,
                false,
                false,
                true,
                true,
                false,
                false,
            ) && n.cpu.sp == m.cpu.sp
            &&& code == 0x21u8 ==> hl_of(n) == w && kept_except(
                m,
                n,
                false,
                false,
                false,
                false,
                false,
                false,
                true,
                true,
            ) && n.cpu.sp == m.cpu.sp
            &&& code == 0x31u8 ==> n.cpu.sp as int == w && kept_except(
                m,
                n,
                false,
                false,
                false,
                false,
                false,
                false,
                false,
                false,
            )
            &&& n.memory == m.memory
            &&& n.cpu.pc == m.cpu.pc + 3
            &&& cycles == 12
        }),
{
    reveal_with_fuel(args_size, 3);
}

/// LD (a8), A stores A at 0xFF00 plus the byte after the opcode; LD (C), A
/// stores it at 0xFF00 plus C.
pub proof fn lemma_ld_high_a(m: Machine)
    requires
        step_is_safe(m),
        m.memory[m.cpu.pc as int] == 0xE0u8 || m.memory[m.cpu.pc as int] == 0xE2u8,
    ensures
        ({
            let (n, cycles) = step(m);
            let constant = m.memory[m.cpu.pc as int] == 0xE0u8;
            &&& constant ==> n.memory == m.memory.update(0xFF00 + byte_at(m, m.cpu.pc + 1), m.cpu.a)
                && n.cpu.pc == m.cpu.pc + 2 && cycles == 12
            &&& !constant ==> n.memory == m.memory.update(0xFF00 + m.cpu.c as int, m.cpu.a)
                && n.cpu.pc == m.cpu.pc + 1 && cycles == 8
            &&& n.cpu.sp == m.cpu.sp
            &&& kept_except(m, n, false, false, false, false, false, false, false, false)
        }),
{
    reveal_with_fuel(args_size, 3);
}

/// NOP changes nothing but the program counter, which moves one byte.
pub proof fn lemma_nop(m: Machine)
    requires
        step_is_safe(m),
        m.memory[m.cpu.pc as int] == 0x00u8,
    ensures
        ({
            let (n, cycles) = step(m);
            &&& n.memory == m.memory
            &&& n.cpu.pc == m.cpu.pc + 1
            &&& n.cpu.sp == m.cpu.sp
            &&& kept_except(m, n, false, false, false, false, false, false, false, false)
            &&& cycles == 4
        }),
{
    reveal_with_fuel(args_size, 3);
}

/// XOR A clears A and the flags.
pub proof fn lemma_xor_a(m: Machine)
    requires
        step_is_safe(m),
        m.memory[m.cpu.pc as int] == 0xAFu8,
    ensures
        ({
            let (n, cycles) = step(m);
            &&& n.cpu.a == 0
            &&& n.cpu.f == 0
            &&& n.memory == m.memory
            &&& n.cpu.pc == m.cpu.pc + 1
            &&& n.cpu.sp == m.cpu.sp
            &&& kept_except(m, n, true, true, false, false, false, false, false, false)
            &&& cycles == 4
        }),
{
    reveal_with_fuel(args_size, 3);
    let a = m.cpu.a;
    assert(a ^ a == 0u8) by (bit_vector);
}

/// INC C adds one to C, wrapping at 256; it sets the zero flag (bit 7 of F)
/// when C wraps to zero and the half-carry flag (bit 5) when C becomes 0x10,
/// leaving each alone otherwise; it clears the subtract flag (bit 6) and
/// leaves the carry flag (bit 4) and the low bits of F.
pub proof fn lemma_inc_c(m: Machine)
    requires
        step_is_safe(m),
        m.memory[m.cpu.pc as int] == 0x0Cu8,
    ensures
        ({
            let (n, cycles) = step(m);
            let old_f = m.cpu.f;
            let new_f = n.cpu.f;
            &&& n.cpu.c as int == (m.cpu.c as int + 1) % 256
            &&& (new_f & 0x80u8 != 0) == (m.cpu.c == 255 || old_f & 0x80u8 != 0)
            &&& new_f & 0x40u8 == 0
            &&& (new_f & 0x20u8 != 0) == (m.cpu.c == 0x0F || old_f & 0x20u8 != 0)
            &&& new_f & 0x1Fu8 == old_f & 0x1Fu8
            &&& n.memory == m.memory
            &&& n.cpu.pc == m.cpu.pc + 1
            &&& n.cpu.sp == m.cpu.sp
            &&& kept_except(m, n, false, true, false, true, false, false, false, false)
            &&& cycles == 4
        }),
{
    reveal_with_fuel(args_size, 3);
    let f = m.cpu.f;
    let z = m.cpu.c == 255;
    let hc = m.cpu.c == 0x0F;
    let f1 = if z { f | 0x80u8 } else { f };
    let f2 = f1 & !0x40u8;
    let f3 = if hc { f2 | 0x20u8 } else { f2 };
    assert(f3 & 0x80u8 != 0 <==> (z || f & 0x80u8 != 0)) by (bit_vector)
        requires
            f1 == if z { f | 0x80u8 } else { f },
            f2 == f1 & !0x40u8,
            f3 == if hc { f2 | 0x20u8 } else { f2 },
    ;
    assert(f3 & 0x40u8 == 0) by (bit_vector)
        requires
            f2 == f1 & !0x40u8,
            f3 == if hc { f2 | 0x20u8 } else { f2 },
    ;
    assert(f3 & 0x20u8 != 0 <==> (hc || f & 0x20u8 != 0)) by (bit_vector)
        requires
            f1 == if z { f | 0x80u8 } else { f },
            f2 == f1 & !0x40u8,
            f3 == if hc { f2 | 0x20u8 } else { f2 },
    ;
    assert(f3 & 0x1Fu8 == f & 0x1Fu8) by (bit_vector)
        requires
            f1 == if z { f | 0x80u8 } else { f },
            f2 == f1 & !0x40u8,
            f3 == if hc { f2 | 0x20u8 } else { f2 },
    ;
}

/// BIT 7, H sets the zero flag exactly where bit 7 of H is clear, clears the
/// subtract flag, sets the half-carry flag and leaves the carry flag and the
/// low bits of F; it is two bytes long and takes 12 cycles.
pub proof fn lemma_bit_7_h(m: Machine)
    requires
        step_is_safe(m),
        m.memory[m.cpu.pc as int] == 0xCBu8,
        m.memory[m.cpu.pc + 1] == 0x7Cu8,
    ensures
        ({
            let (n, cycles) = step(m);
            let old_f = m.cpu.f;
            let new_f = n.cpu.f;
            &&& (new_f & 0x80u8 != 0) == (m.cpu.h < 128)
            &&& new_f & 0x40u8 == 0
            &&& new_f & 0x20u8 != 0
            &&& new_f & 0x1Fu8 == old_f & 0x1Fu8
            &&& n.memory == m.memory
            &&& n.cpu.pc == m.cpu.pc + 2
            &&& n.cpu.sp == m.cpu.sp
            &&& kept_except(m, n, false, true, false, false, false, false, false, false)
            &&& cycles == 12
        }),
{
    reveal_with_fuel(args_size, 3);
    let f = m.cpu.f;
    let h = m.cpu.h;
    let z = ((1u8 << 7u8) ^ h) >> 7u8 == 1u8;
    assert(z == (h < 128)) by (bit_vector)
        requires
            z == (((1u8 << 7u8) ^ h) >> 7u8 == 1u8),
    ;
    let f1 = if z { f | 0x80u8 } else { f & !0x80u8 };
    let f2 = f1 & !0x40u8;
    let f3 = f2 | 0x20u8;
    assert(f3 & 0x80u8 != 0 <==> z) by (bit_vector)
        requires
            f1 == if z { f | 0x80u8 } else { f & !0x80u8 },
            f2 == f1 & !0x40u8,
            f3 == f2 | 0x20u8,
    ;
    assert(f3 & 0x40u8 == 0 && f3 & 0x20u8 != 0 && f3 & 0x1Fu8 == f & 0x1Fu8) by (bit_vector)
        requires
            f1 == if z { f | 0x80u8 } else { f & !0x80u8 },
            f2 == f1 & !0x40u8,
            f3 == f2 | 0x20u8,
    ;
}

/// JR NZ, r8 is two bytes long. Where the zero flag (bit 7 of F) is set it
/// falls through in 8 cycles; otherwise it adds the byte after the opcode,
/// read as a signed number from -128 to 127, to the address of the next
/// instruction, wrapping round 16 bits, in 12 cycles.
pub proof fn lemma_jr_nz(m: Machine)
    requires
        step_is_safe(m),
        m.memory[m.cpu.pc as int] == 0x20u8,
    ensures
        ({
            let (n, cycles) = step(m);
            let d = byte_at(m, m.cpu.pc + 1);
            let distance = if d < 128 { d } else { d - 256 };
            let zero = m.cpu.f & 0x80u8 != 0;
            &&& zero ==> n.cpu.pc == m.cpu.pc + 2 && cycles == 8
            &&& !zero ==> n.cpu.pc as int == (m.cpu.pc + 2 + distance) % 65536 && cycles == 12
            &&& n.memory == m.memory
            &&& n.cpu.sp == m.cpu.sp
            &&& kept_except(m, n, false, false, false, false, false, false, false, false)
        }),
{
    reveal_with_fuel(args_size, 3);
}

/// RET pops the return address: the program counter becomes the
/// little-endian word at the stack pointer, and the stack pointer moves up
/// two; it takes 16 cycles.
pub proof fn lemma_ret(m: Machine)
    requires
        step_is_safe(m),
        m.memory[m.cpu.pc as int] == 0xC9u8,
    ensures
        ({
            let (n, cycles) = step(m);
            &&& n.cpu.pc as int == word_at(m, m.cpu.sp as int)
            &&& n.cpu.sp == m.cpu.sp + 2
            &&& n.memory == m.memory
            &&& kept_except(m, n, false, false, false, false, false, false, false, false)
            &&& cycles == 16
        }),
{
    reveal_with_fuel(args_size, 3);
}

} // verus!
