//! Faults that the engine records while it runs a program.

use vstd::prelude::*;

verus! {

/// The sticky fault field of the engine. `NoError` means that no fault is
/// pending.
#[derive(Debug, Clone, Copy, PartialEq, Eq, Structural)]
pub enum RuntimeError {
    NoError,
    MismatchedAtomType,
    IllegalInstruction,
    RegisterOutOfBounds,
    ProgramOutOfBounds,
    MemoryOutOfBounds,
    InstructionPointerOutOfBounds,
    HeapOverflow,
    HeapUnderflow,
    HeapCrash,
    UnhandledInterrupt,
    UnimplementedInterruptFunc,
    InterruptError,
}

impl RuntimeError {
    /// The number under which status lines show the fault.
    pub open spec fn spec_code(self) -> u8 {
        match self {
            RuntimeError::NoError => 0,
            RuntimeError::MismatchedAtomType => 1,
            RuntimeError::IllegalInstruction => 2,
            RuntimeError::RegisterOutOfBounds => 3,
            RuntimeError::ProgramOutOfBounds => 4,
            RuntimeError::MemoryOutOfBounds => 5,
            RuntimeError::InstructionPointerOutOfBounds => 6,
            RuntimeError::HeapOverflow => 7,
            RuntimeError::HeapUnderflow => 8,
            RuntimeError::HeapCrash => 9,
            RuntimeError::UnhandledInterrupt => 10,
            RuntimeError::UnimplementedInterruptFunc => 11,
            RuntimeError::InterruptError => 12,
        }
    }

    /// The number under which status lines show the fault.
    pub fn code(&self) -> (c: u8)
        ensures
            c == self.spec_code(),
    {
        match self {
            RuntimeError::NoError => 0,
            RuntimeError::MismatchedAtomType => 1,
            RuntimeError::IllegalInstruction => 2,
            RuntimeError::RegisterOutOfBounds => 3,
            RuntimeError::ProgramOutOfBounds => 4,
            RuntimeError::MemoryOutOfBounds => 5,
            RuntimeError::InstructionPointerOutOfBounds => 6,
            RuntimeError::HeapOverflow => 7,
            RuntimeError::HeapUnderflow => 8,
            RuntimeError::HeapCrash => 9,
            RuntimeError::UnhandledInterrupt => 10,
            RuntimeError::UnimplementedInterruptFunc => 11,
            RuntimeError::InterruptError => 12,
        }
    }
}

} // verus!
