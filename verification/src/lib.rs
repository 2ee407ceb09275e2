//! A minimal stack-machine virtual processor together with its assembler.
//!
//! A listing in a small line-oriented language is assembled into a dense
//! byte-coded program. The engine loads such a program and runs it against a
//! fixed-size register file and memory, handing soft interrupts to handlers
//! that the embedding caller supplies.

pub mod assemble;
pub mod atom;
pub mod compile;
pub mod decompile;
pub mod errors;
pub mod interrupts;
pub mod laws;
pub mod opcodes;
pub mod processor;
pub mod program;
pub mod reporting;
pub mod text;
pub mod virtmach;
pub mod writer;

pub use compile::{Argument, Define, ListingError, ListingErrorKind};
pub use atom::{VMAddr, VMAtom, ATOM_ID, ATOM_SIZE};
pub use errors::RuntimeError;
pub use opcodes::OpCode;
pub use processor::Processor;
pub use program::Program;
pub use virtmach::{MachineState, Runtime, VirtMach};
pub use writer::Writer;

use vstd::prelude::*;

verus! {

/// Number of atoms in the machine's memory, heap and stack together.
pub const MEM_SIZE: usize = 23;

/// Number of general-purpose registers.
pub const REG_MAX: usize = 15;

} // verus!
