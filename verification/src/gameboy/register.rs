use vstd::prelude::*;

verus! {

/// The eight 8-bit registers of the Game Boy CPU.
#[derive(Clone, Copy, Debug, PartialEq, Eq, Structural)]
pub enum RegisterLabel8 {
    A,
    F,
    B,
    C,
    D,
    E,
    H,
    L,
}

/// The 16-bit registers: the four register pairs, the stack pointer
/// and the program counter.
#[derive(Clone, Copy, Debug, PartialEq, Eq, Structural)]
pub enum RegisterLabel16 {
    AF,
    BC,
    DE,
    HL,
    StackPointer,
    ProgramCounter,
}

} // verus!
