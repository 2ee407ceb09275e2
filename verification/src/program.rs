//! A compiled program: its bytes, a display name and where it came from.

use vstd::prelude::*;

verus! {

/// Provenance tag of a program that the assembler produced.
pub const SOURCE_COMPILED: u8 = 254;

/// Provenance tag of the two preset programs, the empty one and the error one.
pub const SOURCE_PRESET: u8 = 255;

/// A byte buffer with a display name and a provenance tag.
///
/// As the assembler hands it out, the first byte of `data` is the atom-width
/// tag and the instruction stream follows. The engine keeps a loaded program
/// without that tag byte. No bytes at all means that there is no program.
#[derive(Debug, Clone, PartialEq, Eq)]
pub struct Program {
    pub source: u8,
    pub id: String,
    pub data: Vec<u8>,
}

/// What a program is to a contract: its tag, its name and its bytes.
pub struct ProgramView {
    pub source: u8,
    pub id: Seq<char>,
    pub data: Seq<u8>,
}

impl View for Program {
    type V = ProgramView;

    open spec fn view(&self) -> ProgramView {
        ProgramView { source: self.source, id: self.id@, data: self.data@ }
    }
}

impl Program {
    /// The view of the preset that stands for "no program".
    pub open spec fn spec_empty() -> ProgramView {
        ProgramView { source: SOURCE_PRESET, id: "-empty-"@, data: Seq::empty() }
    }

    /// The view of the preset that stands for a program that could not be loaded.
    pub open spec fn spec_error() -> ProgramView {
        ProgramView { source: SOURCE_PRESET, id: "-error-"@, data: Seq::empty() }
    }

    /// The preset that stands for "no program".
    pub fn empty() -> (p: Program)
        ensures
            p@ == Program::spec_empty(),
    {
        Program { source: SOURCE_PRESET, id: "-empty-".to_owned(), data: Vec::new() }
    }

    /// The preset that stands for a program that could not be loaded.
    pub fn error() -> (p: Program)
        ensures
            p@ == Program::spec_error(),
    {
        Program { source: SOURCE_PRESET, id: "-error-".to_owned(), data: Vec::new() }
    }
}

} // verus!
