//! Numbers that the machine fixes.
use vstd::prelude::*;

verus! {

/// What the gadget goes by.
pub const NAME: &'static str = "CREATE";

/// The opcode CREATE.
pub const CREATE: u8 = 0xf0;

/// The opcode CREATE2.
pub const CREATE2: u8 = 0xf5;

/// The gas that a creation costs, besides the memory it needs.
pub const CREATE_GAS: u64 = 32000;

} // verus!
