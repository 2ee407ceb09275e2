//! Process information: the engine tells a program about itself.

use crate::atom::{VMAtom, ATOM_SIZE};
use crate::errors::RuntimeError;
use crate::interrupts::{
    DefView, FunctionView, SoftInterrupt, SoftInterruptDef, SoftInterruptFunction,
};
use crate::virtmach::{MachineState, VirtMach};
use crate::MEM_SIZE;
use vstd::prelude::*;
use vstd::string::StringSliceAdditionalSpecFns;

verus! {

/// The handler of the `proc` interrupt.
pub struct Interrupt {}

/// The atom that holds the low sixteen bits of a count, in two's complement.
pub open spec fn low_atom(count: usize) -> VMAtom {
    if count % 65536 >= 32768 {
        (count % 65536 - 65536) as VMAtom
    } else {
        (count % 65536) as VMAtom
    }
}

/// The atom that holds the low sixteen bits of a count.
pub fn to_atom(count: usize) -> (a: VMAtom)
    ensures
        a == low_atom(count),
{
    let low: usize = count % 65536;
    if low >= 32768 {
        (low as i32 - 65536) as VMAtom
    } else {
        low as VMAtom
    }
}

/// The engine state after a call of the `proc` interrupt.
///
/// The function number is popped. Function 0 pushes the version, three
/// atoms; 1 the bytes of an atom; 2 the size of the memory; 3 the stack
/// pointer; 4 the program counter; 5 the cycle count. Any other number is
/// the fault of a function that is not there.
pub open spec fn spec_call(before: MachineState) -> MachineState {
    let function = before.top();
    let s = before.pop();
    if function == 0 {
        s.push(0).push(1).push(0)
    } else if function == 1 {
        s.push(ATOM_SIZE as VMAtom)
    } else if function == 2 {
        s.push(MEM_SIZE as VMAtom)
    } else if function == 3 {
        s.push(low_atom(s.processor.stack_ptr))
    } else if function == 4 {
        s.push(low_atom(s.processor.prog_cnt))
    } else if function == 5 {
        s.push(low_atom(s.cycle_cnt))
    } else {
        s.fail(RuntimeError::UnimplementedInterruptFunc)
    }
}

/// One row of the definition: a function without arguments.
pub open spec fn spec_row(no: VMAtom, name: &str, results: usize) -> FunctionView {
    FunctionView { no, name: name.spec_bytes(), arguments: 0, returns: results }
}

/// The definition of the `proc` interrupt as the assembler reads it.
pub open spec fn spec_definition() -> DefView {
    DefView {
        name: "proc".spec_bytes(),
        functions: seq![
            spec_row(0, "version", 3),
            spec_row(1, "atom_size", 1),
            spec_row(2, "mem_size", 1),
            spec_row(3, "stack_ptr", 1),
            spec_row(4, "prog_cnt", 1),
            spec_row(5, "cycle_cnt", 1),
        ],
    }
}

/// One row of the definition: a function without arguments.
fn row(no: VMAtom, name: &str, results: usize) -> (f: SoftInterruptFunction)
    ensures
        f@ == spec_row(no, name, results),
{
    SoftInterruptFunction {
        no,
        name: name.to_owned(),
        arguments: 0,
        returns: results,
        help: String::new(),
    }
}

/// The definition of the `proc` interrupt.
pub fn definition() -> (def: SoftInterruptDef)
    ensures
        def@ == spec_definition(),
{
    let mut functions: Vec<SoftInterruptFunction> = Vec::new();
    functions.push(row(0, "version", 3));
    functions.push(row(1, "atom_size", 1));
    functions.push(row(2, "mem_size", 1));
    functions.push(row(3, "stack_ptr", 1));
    functions.push(row(4, "prog_cnt", 1));
    functions.push(row(5, "cycle_cnt", 1));
    let def = SoftInterruptDef { name: "proc".to_owned(), functions };
    assert(def@.functions =~= spec_definition().functions);
    def
}

impl SoftInterrupt for Interrupt {
    open spec fn effect(&self, before: MachineState, after: MachineState) -> bool {
        after == spec_call(before)
    }

    fn name(&self) -> (name: &str)
        ensures
            name@ == "proc"@,
    {
        "proc"
    }

    fn call(&mut self, vm: &mut VirtMach) {
        let function: VMAtom = vm.stack_pop();
        if function == 0 {
            vm.stack_push(0);
            vm.stack_push(1);
            vm.stack_push(0);
        } else if function == 1 {
            vm.stack_push(ATOM_SIZE as VMAtom);
        } else if function == 2 {
            vm.stack_push(MEM_SIZE as VMAtom);
        } else if function == 3 {
            vm.stack_push(to_atom(vm.processor.stack_ptr));
        } else if function == 4 {
            vm.stack_push(to_atom(vm.processor.prog_cnt));
        } else if function == 5 {
            vm.stack_push(to_atom(vm.cycle_cnt));
        } else {
            vm.error = RuntimeError::UnimplementedInterruptFunc;
        }
    }
}

} // verus!
