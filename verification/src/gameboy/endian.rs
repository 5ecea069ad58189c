use vstd::prelude::*;

use super::cpu::{join_bytes, pair_value};

verus! {

/// Reads a little-endian 16-bit value from the first two bytes of `bytes`:
/// the first byte is the low byte and the second the high byte.
pub fn le_to_u16(bytes: &[u8]) -> (v: u16)
    requires
        bytes@.len() >= 2,
    ensures
        v == pair_value(bytes@[1], bytes@[0]),
{
    join_bytes(bytes[1], bytes[0])
}

} // verus!
