//! The processor's own registers: pointers, active register and flags.

use crate::MEM_SIZE;
use vstd::prelude::*;

verus! {

/// Stack pointer, program counter, active register and the three flags.
///
/// The stack pointer names the next free slot; the stack grows downward from
/// the last memory cell.
#[derive(Debug, Clone, Copy, PartialEq, Eq, Structural)]
pub struct Processor {
    pub stack_ptr: usize,
    pub prog_cnt: usize,
    pub act_reg: usize,
    pub zero: bool,
    pub carry: bool,
    pub sign: bool,
}

impl Processor {
    /// The processor right after a reset: empty stack, program counter and
    /// active register at zero, all flags clear.
    pub open spec fn initial() -> Processor {
        Processor {
            stack_ptr: (MEM_SIZE - 1) as usize,
            prog_cnt: 0,
            act_reg: 0,
            zero: false,
            carry: false,
            sign: false,
        }
    }
}

impl Default for Processor {
    fn default() -> (p: Processor)
        ensures
            p == Processor::initial(),
    {
        Processor {
            stack_ptr: MEM_SIZE - 1,
            prog_cnt: 0,
            act_reg: 0,
            zero: false,
            carry: false,
            sign: false,
        }
    }
}

} // verus!
