//! Facts that hold of the assembler and the engine, each proved from the
//! specifications that the functions' contracts use.

pub mod jumps;
pub mod machine;
pub mod notation;
