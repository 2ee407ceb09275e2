//! Arithmetic beyond `add` and `sub`: bit operations, shifts, products and
//! quotients, served through the stack.

use crate::atom::VMAtom;
use crate::errors::RuntimeError;
use crate::interrupts::{
    DefView, FunctionView, SoftInterrupt, SoftInterruptDef, SoftInterruptFunction,
};
use crate::virtmach::{MachineState, VirtMach};
use vstd::prelude::*;
use vstd::string::StringSliceAdditionalSpecFns;

verus! {

/// The handler of the `math` interrupt.
pub struct Interrupt {}

/// The atom that holds the low sixteen bits of an integer, in two's
/// complement.
pub open spec fn low_bits(x: int) -> VMAtom {
    ((x + 32768) % 65536 - 32768) as VMAtom
}

/// Two to the power of `n`.
pub open spec fn spec_power_of_two(n: nat) -> int
    decreases n,
{
    if n == 0 {
        1
    } else {
        2 * spec_power_of_two((n - 1) as nat)
    }
}

/// The magnitude of an integer.
pub open spec fn magnitude(x: int) -> int {
    if x < 0 {
        -x
    } else {
        x
    }
}

/// The quotient of `a` by `b`, rounded toward zero; `b` is not zero.
pub open spec fn quotient(a: int, b: int) -> int {
    if (a < 0) == (b < 0) {
        magnitude(a) / magnitude(b)
    } else {
        -(magnitude(a) / magnitude(b))
    }
}

/// What a function of two arguments answers: the value, the carry, and
/// whether the arguments are a fault. `a` is the argument that was pushed
/// last.
///
/// Functions 0, 1 and 2 are the bitwise and, or and exclusive or. Functions
/// 4 and 5 shift `a` left and right by `b` bits, where `b` is from 0 to 15,
/// and fault on any other `b`; the right shift keeps the sign. Function 6 is
/// the product, with the carry where it had to wrap. Functions 7 and 8 are
/// the quotient rounded toward zero and its remainder, and fault on a zero
/// `b`; the one quotient that no atom holds wraps and sets the carry.
pub open spec fn spec_binary(function: VMAtom, a: VMAtom, b: VMAtom) -> (VMAtom, bool, bool) {
    if function == 0 {
        (a & b, false, false)
    } else if function == 1 {
        (a | b, false, false)
    } else if function == 2 {
        (a ^ b, false, false)
    } else if function == 4 {
        if 0 <= b < 16 {
            (low_bits(a * spec_power_of_two(b as nat)), false, false)
        } else {
            (0, false, true)
        }
    } else if function == 5 {
        if 0 <= b < 16 {
            ((a as int / spec_power_of_two(b as nat)) as VMAtom, false, false)
        } else {
            (0, false, true)
        }
    } else if function == 6 {
        (low_bits(a * b), a * b != low_bits(a * b), false)
    } else if function == 7 {
        if b == 0 {
            (0, false, true)
        } else {
            (
                low_bits(quotient(a as int, b as int)),
                quotient(a as int, b as int) != low_bits(quotient(a as int, b as int)),
                false,
            )
        }
    } else {
        if b == 0 {
            (0, false, true)
        } else {
            ((a - b * quotient(a as int, b as int)) as VMAtom, false, false)
        }
    }
}

/// The state after an answer: the zero flag tells whether the value is
/// zero, the carry flag is as given, and the value is pushed.
pub open spec fn answered(s: MachineState, value: VMAtom, carry: bool) -> MachineState {
    s.flagged(value == 0, carry, s.processor.sign).push(value)
}

/// The engine state after a call of the `math` interrupt.
///
/// The function number is popped. Function 3 pops one argument and answers
/// its bitwise complement. Function 9 pops one argument, answers zero and is
/// the fault of a function that is not there. Functions 0 to 2 and 4 to 8
/// pop two arguments and answer as [`spec_binary`] says, with the
/// interrupt fault where it says so. Any other number is the fault of a
/// function that is not there, and nothing else happens.
pub open spec fn spec_call(before: MachineState) -> MachineState {
    let function = before.top();
    let s0 = before.pop();
    let a = s0.top();
    let s1 = s0.pop();
    let b = s1.top();
    let s2 = s1.pop();
    if function == 3 {
        answered(s1, !a, false)
    } else if function == 9 {
        answered(s1.fail(RuntimeError::UnimplementedInterruptFunc), 0, false)
    } else if 0 <= function < 9 {
        let (value, carry, faulty) = spec_binary(function, a, b);
        if faulty {
            answered(s2.fail(RuntimeError::InterruptError), value, carry)
        } else {
            answered(s2, value, carry)
        }
    } else {
        s0.fail(RuntimeError::UnimplementedInterruptFunc)
    }
}

/// One row of the definition: a function with one result.
pub open spec fn spec_row(no: VMAtom, name: &str, arguments: usize) -> FunctionView {
    FunctionView { no, name: name.spec_bytes(), arguments, returns: 1 }
}

/// The definition of the `math` interrupt as the assembler reads it.
pub open spec fn spec_definition() -> DefView {
    DefView {
        name: "math".spec_bytes(),
        functions: seq![
            spec_row(0, "and", 2),
            spec_row(1, "or", 2),
            spec_row(2, "xor", 2),
            spec_row(3, "not", 1),
            spec_row(4, "lsh", 2),
            spec_row(5, "rsh", 2),
            spec_row(6, "mul", 2),
            spec_row(7, "div", 2),
            spec_row(8, "mod", 2),
            spec_row(9, "pow", 2),
            spec_row(10, "sqr", 1),
        ],
    }
}

/// One row of the definition: a function with one result.
fn row(no: VMAtom, name: &str, arguments: usize) -> (f: SoftInterruptFunction)
    ensures
        f@ == spec_row(no, name, arguments),
{
    SoftInterruptFunction { no, name: name.to_owned(), arguments, returns: 1, help: String::new() }
}

/// The definition of the `math` interrupt.
pub fn definition() -> (def: SoftInterruptDef)
    ensures
        def@ == spec_definition(),
{
    let mut functions: Vec<SoftInterruptFunction> = Vec::new();
    functions.push(row(0, "and", 2));
    functions.push(row(1, "or", 2));
    functions.push(row(2, "xor", 2));
    functions.push(row(3, "not", 1));
    functions.push(row(4, "lsh", 2));
    functions.push(row(5, "rsh", 2));
    functions.push(row(6, "mul", 2));
    functions.push(row(7, "div", 2));
    functions.push(row(8, "mod", 2));
    functions.push(row(9, "pow", 2));
    functions.push(row(10, "sqr", 1));
    let def = SoftInterruptDef { name: "math".to_owned(), functions };
    assert(def@.functions =~= spec_definition().functions);
    def
}

/// Two to the power of `n`, for `n` up to 15.
fn power_of_two(n: u32) -> (p: i64)
    requires
        n < 16,
    ensures
        p == spec_power_of_two(n as nat),
        1 <= p <= 32768,
{
    let mut p: i64 = 1;
    let mut i: u32 = 0;
    assert(spec_power_of_two(15) == 32768) by {
        reveal_with_fuel(spec_power_of_two, 16);
    }
    while i < n
        invariant
            i <= n,
            n < 16,
            p == spec_power_of_two(i as nat),
            1 <= p,
            p * spec_power_of_two((15 - i) as nat) == 32768,
        decreases n - i,
    {
        assert(spec_power_of_two((15 - i) as nat) == 2 * spec_power_of_two((14 - i) as nat));
        assert(p * (2 * spec_power_of_two((14 - i) as nat)) == (2 * p) * spec_power_of_two(
            (14 - i) as nat,
        )) by (nonlinear_arith);
        assert(spec_power_of_two((14 - i) as nat) >= 1) by {
            lemma_power_positive((14 - i) as nat);
        }
        assert(2 * p <= 32768) by (nonlinear_arith)
            requires
                (2 * p) * spec_power_of_two((14 - i) as nat) == 32768,
                spec_power_of_two((14 - i) as nat) >= 1,
                p >= 1,
        ;
        p = p * 2;
        i += 1;
    }
    proof {
        lemma_power_positive((15 - n) as nat);
        assert(p <= 32768) by (nonlinear_arith)
            requires
                p * spec_power_of_two((15 - n) as nat) == 32768,
                spec_power_of_two((15 - n) as nat) >= 1,
                p >= 1,
        ;
    }
    p
}

proof fn lemma_power_positive(n: nat)
    ensures
        spec_power_of_two(n) >= 1,
    decreases n,
{
    if n > 0 {
        lemma_power_positive((n - 1) as nat);
    }
}

/// The atom that holds the low sixteen bits of an integer.
fn low(x: i64) -> (a: VMAtom)
    requires
        -0x4000_0000 <= x <= 0x4000_0000,
    ensures
        a == low_bits(x as int),
{
    let lifted: i64 = x + 32768 + 0x4000_0000;
    let kept: i64 = lifted % 65536;
    assert(kept == (x + 32768) % 65536) by {
        assert((x + 32768 + 16384 * 65536) % 65536 == (x + 32768) % 65536) by (nonlinear_arith);
    }
    (kept - 32768) as VMAtom
}

/// The quotient of `a` by `b`, rounded toward zero.
fn divide(a: VMAtom, b: VMAtom) -> (q: i64)
    requires
        b != 0,
    ensures
        q == quotient(a as int, b as int),
        -32768 <= q <= 32768,
        magnitude(a as int - b * q) < magnitude(b as int),
{
    let left: i64 = if a < 0 {
        -(a as i64)
    } else {
        a as i64
    };
    let right: i64 = if b < 0 {
        -(b as i64)
    } else {
        b as i64
    };
    let size: i64 = left / right;
    assert(0 <= size <= left && left - right * size < right && left - right * size >= 0)
        by (nonlinear_arith)
        requires
            size == left / right,
            left >= 0,
            right > 0,
    ;
    let q: i64 = if (a < 0) == (b < 0) {
        size
    } else {
        -size
    };
    assert(magnitude(a as int - b * q) == left - right * size) by (nonlinear_arith)
        requires
            left == magnitude(a as int),
            right == magnitude(b as int),
            q == if (a < 0) == (b < 0) {
                size as int
            } else {
                -size
            },
            left - right * size >= 0,
            b != 0,
    ;
    q
}

/// What a function of two arguments answers; see [`spec_binary`].
#[verifier::rlimit(50)]
fn binary(function: VMAtom, a: VMAtom, b: VMAtom) -> (r: (VMAtom, bool, bool))
    requires
        0 <= function < 9,
        function != 3,
    ensures
        r == spec_binary(function, a, b),
{
    if function == 0 {
        (a & b, false, false)
    } else if function == 1 {
        (a | b, false, false)
    } else if function == 2 {
        (a ^ b, false, false)
    } else if function == 4 {
        if 0 <= b && b < 16 {
            let p: i64 = power_of_two(b as u32);
            assert(-0x4000_0000 <= a * p <= 0x4000_0000) by (nonlinear_arith)
                requires
                    -32768 <= a <= 32767,
                    1 <= p <= 32768,
            ;
            (low(a as i64 * p), false, false)
        } else {
            (0, false, true)
        }
    } else if function == 5 {
        if 0 <= b && b < 16 {
            let p: i64 = power_of_two(b as u32);
            let shifted: i64 = if a >= 0 {
                a as i64 / p
            } else {
                -((-(a as i64) - 1) / p) - 1
            };
            assert(shifted == a as int / (p as int)) by (nonlinear_arith)
                requires
                    p >= 1,
                    shifted == if a >= 0 {
                        a as int / (p as int)
                    } else {
                        -((-(a as int) - 1) / (p as int)) - 1
                    },
            ;
            assert(-32768 <= shifted <= 32767) by (nonlinear_arith)
                requires
                    shifted == a as int / (p as int),
                    p >= 1,
                    -32768 <= a <= 32767,
            ;
            (shifted as VMAtom, false, false)
        } else {
            (0, false, true)
        }
    } else if function == 6 {
        assert(-0x4000_0000 <= a * b <= 0x4000_0000) by (nonlinear_arith)
            requires
                -32768 <= a <= 32767,
                -32768 <= b <= 32767,
        ;
        let product: i64 = a as i64 * b as i64;
        let value: VMAtom = low(product);
        (value, product != value as i64, false)
    } else if function == 7 {
        if b == 0 {
            (0, false, true)
        } else {
            let q: i64 = divide(a, b);
            let value: VMAtom = low(q);
            (value, q != value as i64, false)
        }
    } else {
        if b == 0 {
            (0, false, true)
        } else {
            let q: i64 = divide(a, b);
            assert(-0x4000_0000 <= b * q <= 0x4000_0000) by (nonlinear_arith)
                requires
                    -32768 <= q <= 32768,
                    -32768 <= b <= 32767,
            ;
            ((a as i64 - b as i64 * q) as VMAtom, false, false)
        }
    }
}

/// Sets the flags by an answer and pushes it.
pub fn answer(vm: &mut VirtMach, value: VMAtom, carry: bool)
    requires
        old(vm).wf(),
    ensures
        final(vm).wf(),
        final(vm)@ == answered(old(vm)@, value, carry),
{
    vm.processor.zero = value == 0;
    vm.processor.carry = carry;
    vm.stack_push(value);
}

impl SoftInterrupt for Interrupt {
    open spec fn effect(&self, before: MachineState, after: MachineState) -> bool {
        after == spec_call(before)
    }

    fn name(&self) -> (name: &str)
        ensures
            name@ == "math"@,
    {
        "math"
    }

    fn call(&mut self, vm: &mut VirtMach) {
        let function: VMAtom = vm.stack_pop();
        if function == 3 {
            let a: VMAtom = vm.stack_pop();
            answer(vm, !a, false);
        } else if function == 9 {
            let a: VMAtom = vm.stack_pop();
            vm.error = RuntimeError::UnimplementedInterruptFunc;
            answer(vm, 0, false);
        } else if 0 <= function && function < 9 {
            let a: VMAtom = vm.stack_pop();
            let b: VMAtom = vm.stack_pop();
            let (value, carry, faulty) = binary(function, a, b);
            if faulty {
                vm.error = RuntimeError::InterruptError;
            }
            answer(vm, value, carry);
        } else {
            vm.error = RuntimeError::UnimplementedInterruptFunc;
        }
    }
}

} // verus!
