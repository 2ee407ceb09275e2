//! A handler that does nothing; it holds a place in a handler list.

use crate::interrupts::SoftInterrupt;
use crate::virtmach::{MachineState, VirtMach};
use vstd::prelude::*;

verus! {

/// The handler that leaves the engine as it is.
pub struct Interrupt {}

impl SoftInterrupt for Interrupt {
    open spec fn effect(&self, before: MachineState, after: MachineState) -> bool {
        after == before
    }

    fn name(&self) -> (name: &str)
        ensures
            name@ == "dummy"@,
    {
        "dummy"
    }

    fn call(&mut self, vm: &mut VirtMach) {
    }
}

} // verus!
