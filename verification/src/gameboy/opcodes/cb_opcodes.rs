use vstd::prelude::*;

use crate::gameboy::messages::{unknown_cb_command_message, unknown_cb_command_text};

verus! {

/// The mnemonic of the instruction that a byte after the 0xCB prefix names,
/// where the byte is known.
pub open spec fn cb_mnemonic(code: u8) -> Option<Seq<char>> {
    if code == 0x7Cu8 {
        Some("BIT 7 H"@)
    } else {
        None
    }
}

/// The mnemonic of the instruction that `code`, the byte after a 0xCB
/// prefix, names; an error where the byte is not known.
pub fn cb_code_to_opcode(code: u8) -> (r: Result<&'static str, String>)
    ensures
        match r {
            Ok(name) => cb_mnemonic(code) == Some(name@),
            Err(msg) => cb_mnemonic(code) is None && msg@ == unknown_cb_command_text(code),
        },
{
    if code == 0x7C {
        Ok("BIT 7 H")
    } else {
        Err(unknown_cb_command_message(code))
    }
}

} // verus!
