pub mod cb_opcodes;
pub mod opcodes;

pub use super::opcode_library::decode_instruction;
