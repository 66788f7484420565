//! The step gadget of the CREATE and CREATE2 opcodes of an EVM circuit.

pub mod assign;
pub mod builder;
pub mod constants;
pub mod constraint;
pub mod create;
pub mod execution;
pub mod expression;
pub mod filling;
pub mod hash;
pub mod laws;
pub mod radix;
pub mod region;
pub mod rows;
pub mod soundness;
pub mod witness;
pub mod word;
