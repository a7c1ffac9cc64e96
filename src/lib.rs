use vstd::prelude::*;

pub mod instruction;
pub mod chip;
pub mod laws;
pub mod render;

verus! {

/// Errors reported by the interpreter.
#[derive(Debug, Clone, Copy, PartialEq, Eq, Structural)]
pub enum ChipError {
    /// A memory, stack or register index fell outside its range.
    OutOfBounds,
    /// The fetched word matches no entry of the opcode table.
    UnsupportedOpcode,
    /// The program does not fit in the program region.
    ProgramTooLarge,
}

} // verus!
