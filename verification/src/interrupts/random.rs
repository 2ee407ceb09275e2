//! Random numbers from a linear congruential generator whose seed the
//! handler keeps.

use crate::atom::VMAtom;
use crate::errors::RuntimeError;
use crate::interrupts::math::{answer, answered};
use crate::interrupts::{
    DefView, FunctionView, SoftInterrupt, SoftInterruptDef, SoftInterruptFunction,
};
use crate::virtmach::{MachineState, VirtMach};
use nostd_structs::algos::rand::lcg::LcgRng;
use vstd::prelude::*;
use vstd::string::StringSliceAdditionalSpecFns;

verus! {

/// The handler of the `random` interrupt, with the seed of its next draw.
pub struct Interrupt {
    pub seed: u64,
}

/// The number that the generator gives for a seed below two to the power
/// of 32.
pub open spec fn spec_generate(seed: int) -> int {
    (1664525 * seed + 1013904223) % 0x1_0000_0000
}

/// `nostd_structs::algos::rand::lcg::LcgRng::new` and then `next` on the
/// new generator: the first number after the seed, which is the seed times
/// 1664525 plus 1013904223, modulo two to the power of 32. The seed is below
/// that modulus, so that the outside arithmetic cannot overflow.
#[verifier::external_body]
fn generate(seed: u64) -> (value: u64)
    requires
        seed < 0x1_0000_0000,
    ensures
        value == spec_generate(seed as int),
{
    LcgRng::new(seed).next()
}

/// The number that a call draws: the generator's answer to the handler's
/// seed plus the engine's cycle count, both taken modulo two to the power
/// of 32. It is also the handler's next seed.
pub open spec fn spec_draw(seed: u64, cycles: usize) -> int {
    spec_generate((seed as int + cycles as int) % 0x1_0000_0000)
}

/// The atom between `a` and `b`, both included, that a drawn number picks.
pub open spec fn spec_pick(a: VMAtom, b: VMAtom, drawn: int) -> VMAtom {
    let least = if a <= b {
        a
    } else {
        b
    };
    let span = if a <= b {
        b - a + 1
    } else {
        a - b + 1
    };
    (least + drawn % span) as VMAtom
}

/// The engine state after a call of the `random` interrupt by a handler
/// with the given seed.
///
/// The function number and two arguments are popped. Function 0 answers an
/// atom between the two arguments. Any other number answers zero and is the
/// fault of a function that is not there.
pub open spec fn spec_call(before: MachineState, seed: u64) -> MachineState {
    let function = before.top();
    let s0 = before.pop();
    let a = s0.top();
    let s1 = s0.pop();
    let b = s1.top();
    let s2 = s1.pop();
    if function == 0 {
        answered(s2, spec_pick(a, b, spec_draw(seed, before.cycle_cnt)), false)
    } else {
        answered(s2.fail(RuntimeError::UnimplementedInterruptFunc), 0, false)
    }
}

/// The definition of the `random` interrupt as the assembler reads it.
pub open spec fn spec_definition() -> DefView {
    DefView {
        name: "random".spec_bytes(),
        functions: seq![
            FunctionView { no: 0, name: "rand".spec_bytes(), arguments: 2, returns: 1 },
        ],
    }
}

/// The definition of the `random` interrupt.
pub fn definition() -> (def: SoftInterruptDef)
    ensures
        def@ == spec_definition(),
{
    let mut functions: Vec<SoftInterruptFunction> = Vec::new();
    functions.push(
        SoftInterruptFunction {
            no: 0,
            name: "rand".to_owned(),
            arguments: 2,
            returns: 1,
            help: String::new(),
        },
    );
    let def = SoftInterruptDef { name: "random".to_owned(), functions };
    assert(def@.functions =~= spec_definition().functions);
    def
}

/// The atom between `a` and `b` that a drawn number picks.
pub fn pick(a: VMAtom, b: VMAtom, drawn: u64) -> (r: VMAtom)
    ensures
        r == spec_pick(a, b, drawn as int),
{
    let least: i64 = if a <= b {
        a as i64
    } else {
        b as i64
    };
    let span: u64 = if a <= b {
        (b as i64 - a as i64 + 1) as u64
    } else {
        (a as i64 - b as i64 + 1) as u64
    };
    let within: u64 = drawn % span;
    (least + within as i64) as VMAtom
}

impl Interrupt {
    /// A handler that starts from the given seed.
    pub fn new(seed: u64) -> (handler: Interrupt)
        ensures
            handler.seed == seed,
    {
        Interrupt { seed }
    }

    /// Draws the next number and makes it the seed.
    fn draw(&mut self, cycles: usize) -> (drawn: u64)
        ensures
            drawn == spec_draw(old(self).seed, cycles),
            final(self).seed == drawn,
    {
        let low_seed: u64 = self.seed % 0x1_0000_0000;
        let low_cycles: u64 = (cycles as u64) % 0x1_0000_0000;
        let start: u64 = (low_seed + low_cycles) % 0x1_0000_0000;
        let ghost s = self.seed as int;
        let ghost c = cycles as int;
        assert(start == (s + c) % 0x1_0000_0000) by (nonlinear_arith)
            requires
                start == (s % 0x1_0000_0000 + c % 0x1_0000_0000) % 0x1_0000_0000,
        ;
        let drawn: u64 = generate(start);
        self.seed = drawn;
        drawn
    }
}

impl SoftInterrupt for Interrupt {
    open spec fn effect(&self, before: MachineState, after: MachineState) -> bool {
        exists|seed: u64| after == #[trigger] spec_call(before, seed)
    }

    fn name(&self) -> (name: &str)
        ensures
            name@ == "random"@,
    {
        "random"
    }

    fn call(&mut self, vm: &mut VirtMach)
        ensures
            final(vm)@ == spec_call(old(vm)@, old(self).seed),
            old(vm)@.top() == 0 ==> final(self).seed == spec_draw(
                old(self).seed,
                old(vm)@.cycle_cnt,
            ),
            old(vm)@.top() != 0 ==> final(self).seed == old(self).seed,
    {
        let function: VMAtom = vm.stack_pop();
        let a: VMAtom = vm.stack_pop();
        let b: VMAtom = vm.stack_pop();
        if function == 0 {
            let drawn: u64 = self.draw(vm.cycle_cnt);
            answer(vm, pick(a, b, drawn), false);
        } else {
            vm.error = RuntimeError::UnimplementedInterruptFunc;
            answer(vm, 0, false);
        }
    }
}

} // verus!
