# gbemu

The core of a Game Boy emulator, written in Verus: the CPU's register file
and flags, its 0xFFFF bytes of memory, an instruction decoder for the opcodes the boot
program starts with, and the execution of those instructions, each with a
contract that states what it does.

Layout of `src/`:

- `gameboy/register.rs`, `gameboy/cpu.rs`: register names and the register
  file, with 8-bit registers paired into 16-bit ones.
- `gameboy/flags_register.rs`: the Z, N, H and C flags in the F register.
- `gameboy/instruction_set.rs`: what an instruction is, how the bytes at the
  program counter decode, and what executing an instruction does to the
  machine (`execute`), with the laws about them.
- `gameboy/mnemonic.rs`: the mnemonic texts the decoder builds instructions
  from, and the proofs that each text decodes as `instruction_set` says.
- `gameboy/opcode_library.rs`: the executable decoder and `OpCode::run`.
- `gameboy/opcodes/`: opcode mnemonics for display.
- `gameboy/mod.rs`: the `Gameboy` machine: construction, stepping and
  running for a budget of cycles.
- `gameboy/messages.rs`: numbers and messages as text.
- `gameboy/debug/`, `debug/`: register snapshots (a name-to-text map with no
  name twice), the snapshot of a Game Boy's registers, and the registers
  widget.

`app/` holds what stays outside the proofs: the `Print` trait and the
conversion of seconds (floating point) into cycles.
