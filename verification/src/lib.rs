//! A small virtual machine for a tape-and-pointer esoteric language.
//!
//! A program is a string of symbols; an [`instruction::InstructionSet`] maps
//! each symbol to one of eight primitive operations over a bounded byte tape.
//! The [`engine::BFInterpreter`] decodes, validates and executes such a
//! program, and its contracts relate every outcome to the small-step
//! semantics defined in [`machine`].

pub mod engine;
pub mod instruction;
pub mod machine;

pub use engine::{BFInterpreter, BFInterpreterConfig, RunOutcome};
pub use instruction::{Instruction, InstructionSet};
pub use machine::BFError;
