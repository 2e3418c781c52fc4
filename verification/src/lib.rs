//! A verified 16-bit instruction-set emulator.
//!
//! The instruction encoding packs an opcode and its operand fields into a
//! single 16-bit word.  The machine owns eight 16-bit registers, a 256-word
//! instruction store and a 256-word data store, and executes words one at a
//! time until it decodes the halt opcode.
//!
//! `model` holds the mathematical description of the encoding and of one
//! execution step; `machine` holds the executable emulator, whose contracts
//! are stated over that model; `laws` proves the general properties of the
//! encoding and of the instruction semantics.

pub mod laws;
pub mod machine;
pub mod model;
