pub mod cpu;
pub mod debug;
pub mod endian;
pub mod flags_register;
pub mod instruction_set;
pub mod messages;
pub mod mnemonic;
pub mod opcode_laws;
pub mod opcode_library;
pub mod opcodes;
pub mod register;

use vstd::prelude::*;

use self::cpu::CPU;
use self::flags_register::{flag_of, read_flag, with_flag, write_flag, Flags};
use self::instruction_set::{
    decode_in_bounds, decoded, lemma_decoded_size, op_size, execute, execute_is_safe, lemma_execute_keeps_memory_size,
    lemma_execute_takes_cycles, machine, Machine,
};
use self::opcode_library::{can_decode, decode_instruction};
pub use self::register::{RegisterLabel16, RegisterLabel8};

verus! {

/// The number of bytes of memory a Game Boy is given.
pub const MEMORY_SIZE: usize = 0xFFFF;

/// The boot program that `new_with_bootloader` loads at address zero.
pub open spec fn boot_rom() -> Seq<u8> {
    seq![
        0x31u8, 0xFEu8, 0xFFu8, 0xAFu8, 0x21u8, 0xFFu8, 0x9Fu8, 0x32u8, 0xCBu8, 0x7Cu8, 0x20u8, 0xFBu8, 0x21u8, 0x26u8,
        0xFFu8, 0x0Eu8, 0x11u8, 0x3Eu8, 0x80u8, 0x32u8, 0xE2u8, 0x0Cu8, 0x3Eu8, 0xF3u8, 0xE2u8, 0x32u8, 0x3Eu8, 0x77u8,
        0x77u8, 0x3Eu8, 0xFCu8, 0xE0u8, 0x47u8, 0x11u8, 0x04u8, 0x01u8, 0x21u8, 0x10u8, 0x80u8, 0x1Au8, 0xCDu8, 0x95u8,
        0x00u8, 0xCDu8, 0x96u8, 0x00u8, 0x13u8, 0x7Bu8, 0xFEu8, 0x34u8, 0x20u8, 0xF3u8, 0x11u8, 0xD8u8, 0x00u8, 0x06u8,
        0x08u8, 0x1Au8, 0x13u8, 0x22u8, 0x23u8, 0x05u8, 0x20u8, 0xF9u8, 0x3Eu8, 0x19u8, 0xEAu8, 0x10u8, 0x99u8, 0x21u8,
        0x2Fu8, 0x99u8, 0x0Eu8, 0x0Cu8, 0x3Du8, 0x28u8, 0x08u8, 0x32u8, 0x0Du8, 0x20u8, 0xF9u8, 0x2Eu8, 0x0Fu8, 0x18u8,
        0xF3u8, 0x67u8, 0x3Eu8, 0x64u8, 0x57u8, 0xE0u8, 0x42u8, 0x3Eu8, 0x91u8, 0xE0u8, 0x40u8, 0x04u8, 0x1Eu8, 0x02u8,
        0x0Eu8, 0x0Cu8, 0xF0u8, 0x44u8, 0xFEu8, 0x90u8, 0x20u8, 0xFAu8, 0x0Du8, 0x20u8, 0xF7u8, 0x1Du8, 0x20u8, 0xF2u8,
        0x0Eu8, 0x13u8, 0x24u8, 0x7Cu8, 0x1Eu8, 0x83u8, 0xFEu8, 0x62u8, 0x28u8, 0x06u8, 0x1Eu8, 0xC1u8, 0xFEu8, 0x64u8,
        0x20u8, 0x06u8, 0x7Bu8, 0xE2u8, 0x0Cu8, 0x3Eu8, 0x87u8, 0xE2u8, 0xF0u8, 0x42u8, 0x90u8, 0xE0u8, 0x42u8, 0x15u8,
        0x20u8, 0xD2u8, 0x05u8, 0x20u8, 0x4Fu8, 0x16u8, 0x20u8, 0x18u8, 0xCBu8, 0x4Fu8, 0x06u8, 0x04u8, 0xC5u8, 0xCBu8,
        0x11u8, 0x17u8, 0xC1u8, 0xCBu8, 0x11u8, 0x17u8, 0x05u8, 0x20u8, 0xF5u8, 0x22u8, 0x23u8, 0x22u8, 0x23u8, 0xC9u8,
        0xCEu8, 0xEDu8, 0x66u8, 0x66u8, 0xCCu8, 0x0Du8, 0x00u8, 0x0Bu8, 0x03u8, 0x73u8, 0x00u8, 0x83u8, 0x00u8, 0x0Cu8,
        0x00u8, 0x0Du8, 0x00u8, 0x08u8, 0x11u8, 0x1Fu8, 0x88u8, 0x89u8, 0x00u8, 0x0Eu8, 0xDCu8, 0xCCu8, 0x6Eu8, 0xE6u8,
        0xDDu8, 0xDDu8, 0xD9u8, 0x99u8, 0xBBu8, 0xBBu8, 0x67u8, 0x63u8, 0x6Eu8, 0x0Eu8, 0xECu8, 0xCCu8, 0xDDu8, 0xDCu8,
        0x99u8, 0x9Fu8, 0xBBu8, 0xB9u8, 0x33u8, 0x3Eu8, 0x3Cu8, 0x42u8, 0xB9u8, 0xA5u8, 0xB9u8, 0xA5u8, 0x42u8, 0x3Cu8,
        0x21u8, 0x04u8, 0x01u8, 0x11u8, 0xA8u8, 0x00u8, 0x1Au8, 0x13u8, 0xBEu8, 0x20u8, 0xFEu8, 0x23u8, 0x7Du8, 0xFEu8,
        0x34u8, 0x20u8, 0xF5u8, 0x06u8, 0x19u8, 0x78u8, 0x86u8, 0x23u8, 0x05u8, 0x20u8, 0xFBu8, 0x86u8, 0x20u8, 0xFEu8,
        0x3Eu8, 0x01u8, 0xE0u8, 0x50u8,
    ]
}

/// The sum of the bytes.
pub open spec fn byte_sum(s: Seq<u8>) -> int
    decreases s.len(),
{
    if s.len() == 0 {
        0
    } else {
        byte_sum(s.drop_last()) + s.last()
    }
}

/// The sum of the running totals of the bytes: the sum of the first byte,
/// the first two, the first three, and so on up to all of them.
pub open spec fn running_sum(s: Seq<u8>) -> int
    decreases s.len(),
{
    if s.len() == 0 {
        0
    } else {
        running_sum(s.drop_last()) + byte_sum(s)
    }
}

proof fn lemma_sums_concat(a: Seq<u8>, b: Seq<u8>)
    ensures
        byte_sum(a + b) == byte_sum(a) + byte_sum(b),
        running_sum(a + b) == running_sum(a) + running_sum(b) + b.len() * byte_sum(a),
    decreases b.len(),
{
    if b.len() == 0 {
        assert(a + b =~= a);
    } else {
        lemma_sums_concat(a, b.drop_last());
        assert((a + b).drop_last() =~= a + b.drop_last());
        assert((a + b).last() == b.last());
        let n = b.len() as int;
        let t = byte_sum(a);
        assert(n * t == (n - 1) * t + t) by (nonlinear_arith);
    }
}

/// Bytes 0 to 15 of the boot program.
spec fn boot_chunk_0() -> Seq<u8> {
    seq![0x31u8, 0xFEu8, 0xFFu8, 0xAFu8, 0x21u8, 0xFFu8, 0x9Fu8, 0x32u8, 0xCBu8, 0x7Cu8, 0x20u8, 0xFBu8, 0x21u8, 0x26u8, 0xFFu8, 0x0Eu8]
}

proof fn lemma_boot_chunk_0()
    ensures
        boot_chunk_0().len() == 16,
        byte_sum(boot_chunk_0()) == 2180,
        running_sum(boot_chunk_0()) == 20389,
{
    reveal_with_fuel(byte_sum, 17);
    reveal_with_fuel(running_sum, 17);
}

/// Bytes 16 to 31 of the boot program.
spec fn boot_chunk_1() -> Seq<u8> {
    seq![0x11u8, 0x3Eu8, 0x80u8, 0x32u8, 0xE2u8, 0x0Cu8, 0x3Eu8, 0xF3u8, 0xE2u8, 0x32u8, 0x3Eu8, 0x77u8, 0x77u8, 0x3Eu8, 0xFCu8, 0xE0u8]
}

proof fn lemma_boot_chunk_1()
    ensures
        boot_chunk_1().len() == 16,
        byte_sum(boot_chunk_1()) == 1914,
        running_sum(boot_chunk_1()) == 13810,
{
    reveal_with_fuel(byte_sum, 17);
    reveal_with_fuel(running_sum, 17);
}

/// Bytes 32 to 47 of the boot program.
spec fn boot_chunk_2() -> Seq<u8> {
    seq![0x47u8, 0x11u8, 0x04u8, 0x01u8, 0x21u8, 0x10u8, 0x80u8, 0x1Au8, 0xCDu8, 0x95u8, 0x00u8, 0xCDu8, 0x96u8, 0x00u8, 0x13u8, 0x7Bu8]
}

proof fn lemma_boot_chunk_2()
    ensures
        boot_chunk_2().len() == 16,
        byte_sum(boot_chunk_2()) == 1147,
        running_sum(boot_chunk_2()) == 8015,
{
    reveal_with_fuel(byte_sum, 17);
    reveal_with_fuel(running_sum, 17);
}

/// Bytes 48 to 63 of the boot program.
spec fn boot_chunk_3() -> Seq<u8> {
    seq![0xFEu8, 0x34u8, 0x20u8, 0xF3u8, 0x11u8, 0xD8u8, 0x00u8, 0x06u8, 0x08u8, 0x1Au8, 0x13u8, 0x22u8, 0x23u8, 0x05u8, 0x20u8, 0xF9u8]
}

proof fn lemma_boot_chunk_3()
    ensures
        boot_chunk_3().len() == 16,
        byte_sum(boot_chunk_3()) == 1228,
        running_sum(boot_chunk_3()) == 12083,
{
    reveal_with_fuel(byte_sum, 17);
    reveal_with_fuel(running_sum, 17);
}

/// Bytes 64 to 79 of the boot program.
spec fn boot_chunk_4() -> Seq<u8> {
    seq![0x3Eu8, 0x19u8, 0xEAu8, 0x10u8, 0x99u8, 0x21u8, 0x2Fu8, 0x99u8, 0x0Eu8, 0x0Cu8, 0x3Du8, 0x28u8, 0x08u8, 0x32u8, 0x0Du8, 0x20u8]
}

proof fn lemma_boot_chunk_4()
    ensures
        boot_chunk_4().len() == 16,
        byte_sum(boot_chunk_4()) == 953,
        running_sum(boot_chunk_4()) == 9899,
{
    reveal_with_fuel(byte_sum, 17);
    reveal_with_fuel(running_sum, 17);
}

/// Bytes 80 to 95 of the boot program.
spec fn boot_chunk_5() -> Seq<u8> {
    seq![0xF9u8, 0x2Eu8, 0x0Fu8, 0x18u8, 0xF3u8, 0x67u8, 0x3Eu8, 0x64u8, 0x57u8, 0xE0u8, 0x42u8, 0x3Eu8, 0x91u8, 0xE0u8, 0x40u8, 0x04u8]
}

proof fn lemma_boot_chunk_5()
    ensures
        boot_chunk_5().len() == 16,
        byte_sum(boot_chunk_5()) == 1718,
        running_sum(boot_chunk_5()) == 15119,
{
    reveal_with_fuel(byte_sum, 17);
    reveal_with_fuel(running_sum, 17);
}

/// Bytes 96 to 111 of the boot program.
spec fn boot_chunk_6() -> Seq<u8> {
    seq![0x1Eu8, 0x02u8, 0x0Eu8, 0x0Cu8, 0xF0u8, 0x44u8, 0xFEu8, 0x90u8, 0x20u8, 0xFAu8, 0x0Du8, 0x20u8, 0xF7u8, 0x1Du8, 0x20u8, 0xF2u8]
}

proof fn lemma_boot_chunk_6()
    ensures
        boot_chunk_6().len() == 16,
        byte_sum(boot_chunk_6()) == 1641,
        running_sum(boot_chunk_6()) == 11951,
{
    reveal_with_fuel(byte_sum, 17);
    reveal_with_fuel(running_sum, 17);
}

/// Bytes 112 to 127 of the boot program.
spec fn boot_chunk_7() -> Seq<u8> {
    seq![0x0Eu8, 0x13u8, 0x24u8, 0x7Cu8, 0x1Eu8, 0x83u8, 0xFEu8, 0x62u8, 0x28u8, 0x06u8, 0x1Eu8, 0xC1u8, 0xFEu8, 0x64u8, 0x20u8, 0x06u8]
}

proof fn lemma_boot_chunk_7()
    ensures
        boot_chunk_7().len() == 16,
        byte_sum(boot_chunk_7()) == 1367,
        running_sum(boot_chunk_7()) == 10741,
{
    reveal_with_fuel(byte_sum, 17);
    reveal_with_fuel(running_sum, 17);
}

/// Bytes 128 to 143 of the boot program.
spec fn boot_chunk_8() -> Seq<u8> {
    seq![0x7Bu8, 0xE2u8, 0x0Cu8, 0x3Eu8, 0x87u8, 0xE2u8, 0xF0u8, 0x42u8, 0x90u8, 0xE0u8, 0x42u8, 0x15u8, 0x20u8, 0xD2u8, 0x05u8, 0x20u8]
}

proof fn lemma_boot_chunk_8()
    ensures
        boot_chunk_8().len() == 16,
        byte_sum(boot_chunk_8()) == 1824,
        running_sum(boot_chunk_8()) == 17453,
{
    reveal_with_fuel(byte_sum, 17);
    reveal_with_fuel(running_sum, 17);
}

/// Bytes 144 to 159 of the boot program.
spec fn boot_chunk_9() -> Seq<u8> {
    seq![0x4Fu8, 0x16u8, 0x20u8, 0x18u8, 0xCBu8, 0x4Fu8, 0x06u8, 0x04u8, 0xC5u8, 0xCBu8, 0x11u8, 0x17u8, 0xC1u8, 0xCBu8, 0x11u8, 0x17u8]
}

proof fn lemma_boot_chunk_9()
    ensures
        boot_chunk_9().len() == 16,
        byte_sum(boot_chunk_9()) == 1325,
        running_sum(boot_chunk_9()) == 10407,
{
    reveal_with_fuel(byte_sum, 17);
    reveal_with_fuel(running_sum, 17);
}

/// Bytes 160 to 175 of the boot program.
spec fn boot_chunk_10() -> Seq<u8> {
    seq![0x05u8, 0x20u8, 0xF5u8, 0x22u8, 0x23u8, 0x22u8, 0x23u8, 0xC9u8, 0xCEu8, 0xEDu8, 0x66u8, 0x66u8, 0xCCu8, 0x0Du8, 0x00u8, 0x0Bu8]
}

proof fn lemma_boot_chunk_10()
    ensures
        boot_chunk_10().len() == 16,
        byte_sum(boot_chunk_10()) == 1496,
        running_sum(boot_chunk_10()) == 12680,
{
    reveal_with_fuel(byte_sum, 17);
    reveal_with_fuel(running_sum, 17);
}

/// Bytes 176 to 191 of the boot program.
spec fn boot_chunk_11() -> Seq<u8> {
    seq![0x03u8, 0x73u8, 0x00u8, 0x83u8, 0x00u8, 0x0Cu8, 0x00u8, 0x0Du8, 0x00u8, 0x08u8, 0x11u8, 0x1Fu8, 0x88u8, 0x89u8, 0x00u8, 0x0Eu8]
}

proof fn lemma_boot_chunk_11()
    ensures
        boot_chunk_11().len() == 16,
        byte_sum(boot_chunk_11()) == 617,
        running_sum(boot_chunk_11()) == 5007,
{
    reveal_with_fuel(byte_sum, 17);
    reveal_with_fuel(running_sum, 17);
}

/// Bytes 192 to 207 of the boot program.
spec fn boot_chunk_12() -> Seq<u8> {
    seq![0xDCu8, 0xCCu8, 0x6Eu8, 0xE6u8, 0xDDu8, 0xDDu8, 0xD9u8, 0x99u8, 0xBBu8, 0xBBu8, 0x67u8, 0x63u8, 0x6Eu8, 0x0Eu8, 0xECu8, 0xCCu8]
}

proof fn lemma_boot_chunk_12()
    ensures
        boot_chunk_12().len() == 16,
        byte_sum(boot_chunk_12()) == 2716,
        running_sum(boot_chunk_12()) == 24816,
{
    reveal_with_fuel(byte_sum, 17);
    reveal_with_fuel(running_sum, 17);
}

/// Bytes 208 to 223 of the boot program.
spec fn boot_chunk_13() -> Seq<u8> {
    seq![0xDDu8, 0xDCu8, 0x99u8, 0x9Fu8, 0xBBu8, 0xB9u8, 0x33u8, 0x3Eu8, 0x3Cu8, 0x42u8, 0xB9u8, 0xA5u8, 0xB9u8, 0xA5u8, 0x42u8, 0x3Cu8]
}

proof fn lemma_boot_chunk_13()
    ensures
        boot_chunk_13().len() == 16,
        byte_sum(boot_chunk_13()) == 2190,
        running_sum(boot_chunk_13()) == 20696,
{
    reveal_with_fuel(byte_sum, 17);
    reveal_with_fuel(running_sum, 17);
}

/// Bytes 224 to 239 of the boot program.
spec fn boot_chunk_14() -> Seq<u8> {
    seq![0x21u8, 0x04u8, 0x01u8, 0x11u8, 0xA8u8, 0x00u8, 0x1Au8, 0x13u8, 0xBEu8, 0x20u8, 0xFEu8, 0x23u8, 0x7Du8, 0xFEu8, 0x34u8, 0x20u8]
}

proof fn lemma_boot_chunk_14()
    ensures
        boot_chunk_14().len() == 16,
        byte_sum(boot_chunk_14()) == 1242,
        running_sum(boot_chunk_14()) == 8111,
{
    reveal_with_fuel(byte_sum, 17);
    reveal_with_fuel(running_sum, 17);
}

/// Bytes 240 to 255 of the boot program.
spec fn boot_chunk_15() -> Seq<u8> {
    seq![0xF5u8, 0x06u8, 0x19u8, 0x78u8, 0x86u8, 0x23u8, 0x05u8, 0x20u8, 0xFBu8, 0x86u8, 0x20u8, 0xFEu8, 0x3Eu8, 0x01u8, 0xE0u8, 0x50u8]
}

proof fn lemma_boot_chunk_15()
    ensures
        boot_chunk_15().len() == 16,
        byte_sum(boot_chunk_15()) == 1640,
        running_sum(boot_chunk_15()) == 13438,
{
    reveal_with_fuel(byte_sum, 17);
    reveal_with_fuel(running_sum, 17);
}

/// The boot program is the 256-byte Game Boy boot ROM: its bytes add up to
/// 25198, and their running totals to 3205767.
pub proof fn lemma_boot_rom_checksum()
    ensures
        boot_rom().len() == 256,
        byte_sum(boot_rom()) == 25198,
        running_sum(boot_rom()) == 3205767,
{
    lemma_boot_chunk_0();
    lemma_boot_chunk_1();
    lemma_boot_chunk_2();
    lemma_boot_chunk_3();
    lemma_boot_chunk_4();
    lemma_boot_chunk_5();
    lemma_boot_chunk_6();
    lemma_boot_chunk_7();
    lemma_boot_chunk_8();
    lemma_boot_chunk_9();
    lemma_boot_chunk_10();
    lemma_boot_chunk_11();
    lemma_boot_chunk_12();
    lemma_boot_chunk_13();
    lemma_boot_chunk_14();
    lemma_boot_chunk_15();
    let p0 = boot_chunk_0();
    let p1 = p0 + boot_chunk_1();
    lemma_sums_concat(p0, boot_chunk_1());
    let p2 = p1 + boot_chunk_2();
    lemma_sums_concat(p1, boot_chunk_2());
    let p3 = p2 + boot_chunk_3();
    lemma_sums_concat(p2, boot_chunk_3());
    let p4 = p3 + boot_chunk_4();
    lemma_sums_concat(p3, boot_chunk_4());
    let p5 = p4 + boot_chunk_5();
    lemma_sums_concat(p4, boot_chunk_5());
    let p6 = p5 + boot_chunk_6();
    lemma_sums_concat(p5, boot_chunk_6());
    let p7 = p6 + boot_chunk_7();
    lemma_sums_concat(p6, boot_chunk_7());
    let p8 = p7 + boot_chunk_8();
    lemma_sums_concat(p7, boot_chunk_8());
    let p9 = p8 + boot_chunk_9();
    lemma_sums_concat(p8, boot_chunk_9());
    let p10 = p9 + boot_chunk_10();
    lemma_sums_concat(p9, boot_chunk_10());
    let p11 = p10 + boot_chunk_11();
    lemma_sums_concat(p10, boot_chunk_11());
    let p12 = p11 + boot_chunk_12();
    lemma_sums_concat(p11, boot_chunk_12());
    let p13 = p12 + boot_chunk_13();
    lemma_sums_concat(p12, boot_chunk_13());
    let p14 = p13 + boot_chunk_14();
    lemma_sums_concat(p13, boot_chunk_14());
    let p15 = p14 + boot_chunk_15();
    lemma_sums_concat(p14, boot_chunk_15());
    assert(boot_rom() =~= p15);
}

/// A machine just built from `data`: every register zero, memory holding
/// `data` from address zero and zero after it, `MEMORY_SIZE` bytes in all.
pub open spec fn initial_machine(data: Seq<u8>) -> Machine {
    machine(CPU::zeroed(), data + Seq::new((MEMORY_SIZE - data.len()) as nat, |i: int| 0u8))
}

/// A machine built from `data` holds `data` from address zero and zeros
/// after it up to `MEMORY_SIZE` bytes, and every register is zero.
pub proof fn lemma_initial_machine(data: Seq<u8>)
    requires
        data.len() <= MEMORY_SIZE,
    ensures
        initial_machine(data).memory.len() == MEMORY_SIZE,
        forall|i: int| 0 <= i < data.len() ==> #[trigger] initial_machine(data).memory[i] == data[i],
        forall|i: int|
            data.len() <= i < MEMORY_SIZE ==> #[trigger] initial_machine(data).memory[i] == 0,
        forall|r: RegisterLabel16| #[trigger] initial_machine(data).cpu.reg16(r) == 0,
        forall|r: RegisterLabel8| #[trigger] initial_machine(data).cpu.reg8(r) == 0,
{
}

/// The next instruction can be decoded and executed: its bytes are in
/// memory, it is known, and it executes safely.
pub open spec fn step_is_safe(m: Machine) -> bool {
    &&& decode_in_bounds(m.memory, m.cpu.pc)
    &&& decoded(m.memory, m.cpu.pc) is Some
    &&& execute_is_safe(decoded(m.memory, m.cpu.pc).unwrap(), m)
}

/// The machine after the instruction at the program counter, and its cycles.
pub open spec fn step(m: Machine) -> (Machine, nat) {
    execute(decoded(m.memory, m.cpu.pc).unwrap(), m)
}

/// Running instructions from `m`, with `used` cycles already spent, until
/// more than `limit` cycles have been spent, never meets an instruction
/// that cannot be executed, and the running count of cycles stays within
/// `u32`.
pub open spec fn tick_is_safe(m: Machine, used: nat, limit: nat) -> bool
    decreases limit - used,
{
    let (next, cycles) = step(m);
    proof {
        lemma_execute_takes_cycles(decoded(m.memory, m.cpu.pc).unwrap(), m);
    }
    &&& step_is_safe(m)
    &&& used + cycles <= u32::MAX
    &&& (used + cycles > limit || tick_is_safe(next, used + cycles, limit))
}

/// The machine after running instructions from `m`, with `used` cycles
/// already spent, until more than `limit` cycles have been spent; at least
/// one instruction runs. The run stops early at an instruction that cannot
/// be executed (before it), or at one after which the count of cycles
/// would leave `u32` (after it).
pub open spec fn tick_result(m: Machine, used: nat, limit: nat) -> Machine
    decreases limit - used,
{
    let (next, cycles) = step(m);
    proof {
        lemma_execute_takes_cycles(decoded(m.memory, m.cpu.pc).unwrap(), m);
    }
    if !step_is_safe(m) {
        m
    } else if used + cycles > u32::MAX || used + cycles > limit {
        next
    } else {
        tick_result(next, used + cycles, limit)
    }
}

/// The machine after `k` instructions from `m`, one `step` after another,
/// and the cycles they took together.
pub open spec fn steps(m: Machine, k: nat) -> (Machine, nat)
    decreases k,
{
    if k == 0 {
        (m, 0)
    } else {
        let (next, cycles) = step(m);
        let (end, rest) = steps(next, (k - 1) as nat);
        (end, cycles + rest)
    }
}

/// How many instructions a run from `m`, with `used` cycles already spent,
/// takes until more than `limit` cycles have been spent.
pub open spec fn tick_count(m: Machine, used: nat, limit: nat) -> nat
    decreases limit - used,
{
    let (next, cycles) = step(m);
    proof {
        lemma_execute_takes_cycles(decoded(m.memory, m.cpu.pc).unwrap(), m);
    }
    if used + cycles > limit {
        1
    } else {
        1 + tick_count(next, used + cycles, limit)
    }
}

proof fn lemma_tick_from(m: Machine, used: nat, limit: nat)
    requires
        tick_is_safe(m, used, limit),
    ensures
        ({
            let k = tick_count(m, used, limit);
            &&& k >= 1
            &&& used + steps(m, k).1 > limit
            &&& forall|j: nat| 1 <= j < k ==> used + #[trigger] steps(m, j).1 <= limit
            &&& forall|j: nat| j < k ==> step_is_safe(#[trigger] steps(m, j).0)
            &&& tick_result(m, used, limit) == steps(m, k).0
        }),
    decreases limit - used,
{
    let (next, c) = step(m);
    lemma_execute_takes_cycles(decoded(m.memory, m.cpu.pc).unwrap(), m);
    assert(steps(next, 0) == (next, 0nat));
    assert(steps(m, 1) == (next, c));
    if used + c <= limit {
        lemma_tick_from(next, used + c, limit);
        let k1 = tick_count(next, used + c, limit);
        let k = k1 + 1;
        assert(steps(m, k) == (steps(next, k1).0, c + steps(next, k1).1));
        assert forall|j: nat| 1 <= j < k implies used + #[trigger] steps(m, j).1 <= limit by {
            if j > 1 {
                assert(steps(m, j) == (steps(next, (j - 1) as nat).0, c + steps(next, (j - 1) as nat).1));
                assert(used + c + steps(next, (j - 1) as nat).1 <= limit);
            }
        }
        assert forall|j: nat| j < k implies step_is_safe(#[trigger] steps(m, j).0) by {
            if j > 0 {
                assert(steps(m, j).0 == steps(next, (j - 1) as nat).0);
                assert(step_is_safe(steps(next, (j - 1) as nat).0));
            }
        }
    }
}

/// Running for a budget of cycles is stepping: where every instruction
/// reached can be executed, `tick` ends where `k` successive steps end, for
/// the least `k`, at least one, whose cycles add up to more than the budget.
pub proof fn lemma_tick_is_steps(m: Machine, limit: nat)
    requires
        tick_is_safe(m, 0, limit),
    ensures
        ({
            let k = tick_count(m, 0, limit);
            &&& k >= 1
            &&& steps(m, k).1 > limit
            &&& forall|j: nat| 1 <= j < k ==> #[trigger] steps(m, j).1 <= limit
            &&& forall|j: nat| j < k ==> step_is_safe(#[trigger] steps(m, j).0)
            &&& tick_result(m, 0, limit) == steps(m, k).0
        }),
{
    lemma_tick_from(m, 0, limit);
}

proof fn lemma_steps_make_tick_from(m: Machine, used: nat, limit: nat, k: nat)
    requires
        k >= 1,
        forall|j: nat| j < k ==> step_is_safe(#[trigger] steps(m, j).0),
        forall|j: nat| 1 <= j < k ==> used + #[trigger] steps(m, j).1 <= limit,
        used + steps(m, k).1 > limit,
        used + steps(m, k).1 <= u32::MAX,
    ensures
        tick_is_safe(m, used, limit),
        tick_result(m, used, limit) == steps(m, k).0,
    decreases k,
{
    let (next, c) = step(m);
    lemma_execute_takes_cycles(decoded(m.memory, m.cpu.pc).unwrap(), m);
    assert(steps(m, 0).0 == m);
    assert(step_is_safe(steps(m, 0).0));
    assert(steps(next, 0) == (next, 0nat));
    assert(steps(m, 1) == (next, c));
    if k > 1 {
        assert(used + steps(m, 1).1 <= limit);
        let k1 = (k - 1) as nat;
        assert(steps(m, k) == (steps(next, k1).0, c + steps(next, k1).1));
        assert forall|j: nat| j < k1 implies step_is_safe(#[trigger] steps(next, j).0) by {
            assert(steps(m, j + 1) == (steps(next, j).0, c + steps(next, j).1));
            assert(step_is_safe(steps(m, j + 1).0));
        }
        assert forall|j: nat| 1 <= j < k1 implies (used + c) + #[trigger] steps(next, j).1 <= limit by {
            assert(steps(m, j + 1) == (steps(next, j).0, c + steps(next, j).1));
            assert(used + steps(m, j + 1).1 <= limit);
        }
        lemma_steps_make_tick_from(next, used + c, limit, k1);
    }
}

/// Stepping gives a run for a budget: wherever every instruction reached
/// can be executed and the cycles stay within `u32`, and `k` (at least one)
/// is the least count of steps whose cycles add up to more than the budget,
/// running for that budget succeeds and ends where those `k` steps end.
/// (`tick` returns whether `tick_is_safe` holds, and ends at `tick_result`.)
pub proof fn lemma_steps_make_tick(m: Machine, limit: nat, k: nat)
    requires
        k >= 1,
        forall|j: nat| j < k ==> step_is_safe(#[trigger] steps(m, j).0),
        forall|j: nat| 1 <= j < k ==> #[trigger] steps(m, j).1 <= limit,
        steps(m, k).1 > limit,
        steps(m, k).1 <= u32::MAX,
    ensures
        tick_is_safe(m, 0, limit),
        tick_result(m, 0, limit) == steps(m, k).0,
{
    lemma_steps_make_tick_from(m, 0, limit, k);
}

/// The emulated machine: the CPU's registers and the memory.
pub struct Gameboy {
    cpu: CPU,
    memory: Vec<u8>,
}

impl View for Gameboy {
    type V = Machine;

    closed spec fn view(&self) -> Machine {
        machine(self.cpu, self.memory@)
    }
}

impl Gameboy {
    /// Memory always holds `MEMORY_SIZE` bytes.
    #[verifier::type_invariant]
    spec fn inv(self) -> bool {
        self.memory@.len() == MEMORY_SIZE
    }

    /// A Game Boy with the boot program loaded at address zero.
    pub fn new_with_bootloader() -> (gb: Gameboy)
        ensures
            gb@ == initial_machine(boot_rom()),
    {
        let bootloader: Vec<u8> = vec![
            0x31, 0xFE, 0xFF, 0xAF, 0x21, 0xFF, 0x9F, 0x32, 0xCB, 0x7C, 0x20, 0xFB, 0x21, 0x26,
            0xFF, 0x0E, 0x11, 0x3E, 0x80, 0x32, 0xE2, 0x0C, 0x3E, 0xF3, 0xE2, 0x32, 0x3E, 0x77,
            0x77, 0x3E, 0xFC, 0xE0, 0x47, 0x11, 0x04, 0x01, 0x21, 0x10, 0x80, 0x1A, 0xCD, 0x95,
            0x00, 0xCD, 0x96, 0x00, 0x13, 0x7B, 0xFE, 0x34, 0x20, 0xF3, 0x11, 0xD8, 0x00, 0x06,
            0x08, 0x1A, 0x13, 0x22, 0x23, 0x05, 0x20, 0xF9, 0x3E, 0x19, 0xEA, 0x10, 0x99, 0x21,
            0x2F, 0x99, 0x0E, 0x0C, 0x3D, 0x28, 0x08, 0x32, 0x0D, 0x20, 0xF9, 0x2E, 0x0F, 0x18,
            0xF3, 0x67, 0x3E, 0x64, 0x57, 0xE0, 0x42, 0x3E, 0x91, 0xE0, 0x40, 0x04, 0x1E, 0x02,
            0x0E, 0x0C, 0xF0, 0x44, 0xFE, 0x90, 0x20, 0xFA, 0x0D, 0x20, 0xF7, 0x1D, 0x20, 0xF2,
            0x0E, 0x13, 0x24, 0x7C, 0x1E, 0x83, 0xFE, 0x62, 0x28, 0x06, 0x1E, 0xC1, 0xFE, 0x64,
            0x20, 0x06, 0x7B, 0xE2, 0x0C, 0x3E, 0x87, 0xE2, 0xF0, 0x42, 0x90, 0xE0, 0x42, 0x15,
            0x20, 0xD2, 0x05, 0x20, 0x4F, 0x16, 0x20, 0x18, 0xCB, 0x4F, 0x06, 0x04, 0xC5, 0xCB,
            0x11, 0x17, 0xC1, 0xCB, 0x11, 0x17, 0x05, 0x20, 0xF5, 0x22, 0x23, 0x22, 0x23, 0xC9,
            0xCE, 0xED, 0x66, 0x66, 0xCC, 0x0D, 0x00, 0x0B, 0x03, 0x73, 0x00, 0x83, 0x00, 0x0C,
            0x00, 0x0D, 0x00, 0x08, 0x11, 0x1F, 0x88, 0x89, 0x00, 0x0E, 0xDC, 0xCC, 0x6E, 0xE6,
            0xDD, 0xDD, 0xD9, 0x99, 0xBB, 0xBB, 0x67, 0x63, 0x6E, 0x0E, 0xEC, 0xCC, 0xDD, 0xDC,
            0x99, 0x9F, 0xBB, 0xB9, 0x33, 0x3E, 0x3C, 0x42, 0xB9, 0xA5, 0xB9, 0xA5, 0x42, 0x3C,
            0x21, 0x04, 0x01, 0x11, 0xA8, 0x00, 0x1A, 0x13, 0xBE, 0x20, 0xFE, 0x23, 0x7D, 0xFE,
            0x34, 0x20, 0xF5, 0x06, 0x19, 0x78, 0x86, 0x23, 0x05, 0x20, 0xFB, 0x86, 0x20, 0xFE,
            0x3E, 0x01, 0xE0, 0x50,
        ];
        proof {
            assert(bootloader@ =~= boot_rom());
        }
        Gameboy::new(bootloader)
    }

    /// A Game Boy whose memory starts with `data`, all else zero.
    pub fn new(data: Vec<u8>) -> (gb: Gameboy)
        requires
            data@.len() <= MEMORY_SIZE,
        ensures
            gb@ == initial_machine(data@),
    {
        let mut memory: Vec<u8> = Vec::new();
        let mut i: usize = 0;
        while i < data.len()
            invariant
                i <= data@.len(),
                memory@ =~= data@.take(i as int),
            decreases data@.len() - i,
        {
            memory.push(data[i]);
            i = i + 1;
        }
        while memory.len() < MEMORY_SIZE
            invariant
                data@.len() <= memory@.len() <= MEMORY_SIZE,
                memory@ =~= data@ + Seq::new((memory@.len() - data@.len()) as nat, |j: int| 0u8),
            decreases MEMORY_SIZE - memory@.len(),
        {
            memory.push(0);
        }
        Gameboy { cpu: CPU::new(), memory }
    }

    /// Decodes and executes the instruction at the program counter and
    /// returns the cycles it took.
    pub fn step_once(&mut self) -> (cycles: u32)
        requires
            step_is_safe(old(self)@),
        ensures
            final(self)@ == step(old(self)@).0,
            cycles == step(old(self)@).1,
    {
        proof {
            use_type_invariant(&*self);
            lemma_execute_keeps_memory_size(decoded(self@.memory, self@.cpu.pc).unwrap(), self@);
        }
        let counter = self.cpu.read_16_bits(RegisterLabel16::ProgramCounter);
        match decode_instruction(counter, self.memory.as_slice()) {
            Ok(opcode) => opcode.run(&mut self.cpu, &mut self.memory),
            Err(_) => 0,
        }
    }

    /// Whether the instruction at the program counter can be decoded and
    /// executed, as `step_is_safe` says.
    pub fn can_step(&self) -> (ok: bool)
        ensures
            ok == step_is_safe(self@),
    {
        let counter = self.cpu.read_16_bits(RegisterLabel16::ProgramCounter);
        if !can_decode(counter, self.memory.as_slice()) {
            return false;
        }
        match decode_instruction(counter, self.memory.as_slice()) {
            Ok(opcode) => opcode.can_run(&self.cpu, &self.memory),
            Err(_) => false,
        }
    }

    /// Runs instructions until more than `cycles_to_use` cycles have been
    /// spent; at least one instruction runs. Returns whether every
    /// instruction could be executed and the count of cycles stayed within
    /// `u32`; where not, the run stops as `tick_result` says.
    pub fn tick(&mut self, cycles_to_use: u32) -> (completed: bool)
        ensures
            completed == tick_is_safe(old(self)@, 0, cycles_to_use as nat),
            final(self)@ == tick_result(old(self)@, 0, cycles_to_use as nat),
    {
        let mut total_cycles_used: u32 = 0;
        loop
            invariant
                total_cycles_used <= cycles_to_use,
                tick_is_safe(self@, total_cycles_used as nat, cycles_to_use as nat)
                    == tick_is_safe(old(self)@, 0, cycles_to_use as nat),
                tick_result(self@, total_cycles_used as nat, cycles_to_use as nat)
                    == tick_result(old(self)@, 0, cycles_to_use as nat),
            decreases cycles_to_use - total_cycles_used,
        {
            proof {
                lemma_execute_takes_cycles(decoded(self@.memory, self@.cpu.pc).unwrap(), self@);
            }
            if !self.can_step() {
                return false;
            }
            let cycles_used = self.step_once();
            if cycles_used > u32::MAX - total_cycles_used {
                return false;
            }
            total_cycles_used = total_cycles_used + cycles_used;
            if total_cycles_used > cycles_to_use {
                return true;
            }
        }
    }

    /// Reads a 16-bit register.
    pub fn get_register_16(&self, register: RegisterLabel16) -> (v: u16)
        ensures
            v == self@.cpu.reg16(register),
    {
        self.cpu.read_16_bits(register)
    }

    /// Reads an 8-bit register.
    pub fn get_register_8(&self, register: RegisterLabel8) -> (v: u8)
        ensures
            v == self@.cpu.reg8(register),
    {
        self.cpu.read_8_bits(register)
    }

    /// Writes a 16-bit register.
    pub fn set_register_16(&mut self, register: RegisterLabel16, value: u16)
        ensures
            final(self)@ == machine(old(self)@.cpu.with_reg16(register, value), old(self)@.memory),
    {
        proof {
            use_type_invariant(&*self);
        }
        self.cpu.write_16_bits(register, value);
    }

    /// Writes an 8-bit register.
    pub fn set_register_8(&mut self, register: RegisterLabel8, value: u8)
        ensures
            final(self)@ == machine(old(self)@.cpu.with_reg8(register, value), old(self)@.memory),
    {
        proof {
            use_type_invariant(&*self);
        }
        self.cpu.write_8_bits(register, value);
    }

    /// Sets or clears a flag.
    pub fn set_flag(&mut self, flag: Flags, set: bool)
        ensures
            final(self)@ == machine(with_flag(old(self)@.cpu, flag, set), old(self)@.memory),
    {
        proof {
            use_type_invariant(&*self);
        }
        write_flag(&mut self.cpu, flag, set);
    }

    /// Reads a flag.
    pub fn get_flag(&self, flag: Flags) -> (set: bool)
        ensures
            set == flag_of(self@.cpu, flag),
    {
        read_flag(&self.cpu, flag)
    }

    /// Writes a byte of memory; it reads back, and every other byte keeps
    /// its value.
    pub fn set_memory_at(&mut self, address: u16, value: u8)
        requires
            (address as int) < MEMORY_SIZE,
        ensures
            old(self)@.memory.len() == MEMORY_SIZE,
            final(self)@ == machine(old(self)@.cpu, old(self)@.memory.update(address as int, value)),
            final(self)@.memory[address as int] == value,
    {
        proof {
            use_type_invariant(&*self);
        }
        self.memory[address as usize] = value;
    }

    /// Reads a byte of memory.
    pub fn get_memory_at(&self, address: u16) -> (v: u8)
        requires
            (address as int) < MEMORY_SIZE,
        ensures
            self@.memory.len() == MEMORY_SIZE,
            v == self@.memory[address as int],
    {
        proof {
            use_type_invariant(self);
        }
        self.memory[address as usize]
    }
}

/// A byte written to memory reads back, every other byte keeps its value,
/// and the size of memory does not change.
pub proof fn lemma_memory_write_read(m: Machine, address: u16, value: u8, other: int)
    requires
        (address as int) < m.memory.len(),
    ensures
        m.memory.update(address as int, value)[address as int] == value,
        0 <= other < m.memory.len() && other != address ==> m.memory.update(address as int, value)[other] == m.memory[other],
        m.memory.update(address as int, value).len() == m.memory.len(),
{
}

/// A step that can be executed has all of its instruction's bytes in
/// memory: the opcode and its operands end before the end of memory.
pub proof fn lemma_step_reads_in_memory(m: Machine)
    requires
        step_is_safe(m),
    ensures
        m.cpu.pc + op_size(decoded(m.memory, m.cpu.pc).unwrap().1) <= m.memory.len(),
{
    lemma_decoded_size(m.memory, m.cpu.pc);
}

/// A step keeps the size of memory.
pub proof fn lemma_step_keeps_memory_size(m: Machine)
    requires
        step_is_safe(m),
    ensures
        step(m).0.memory.len() == m.memory.len(),
{
    lemma_execute_keeps_memory_size(decoded(m.memory, m.cpu.pc).unwrap(), m);
}

} // verus!
