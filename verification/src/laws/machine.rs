//! The engine's stack, flags and loader.

use crate::atom::{VMAtom, ATOM_ID};
use crate::errors::RuntimeError;
use crate::opcodes::OpCode;
use crate::processor::Processor;
use crate::program::{Program, ProgramView};
use crate::virtmach::{wrapped, MachineState};
use crate::MEM_SIZE;
use vstd::prelude::*;

verus! {

/// The state after the values were pushed one after the other.
pub open spec fn push_all(s: MachineState, values: Seq<VMAtom>) -> MachineState
    decreases values.len(),
{
    if values.len() == 0 {
        s
    } else {
        push_all(s, values.drop_last()).push(values.last())
    }
}

/// The state after `n` pops.
pub open spec fn pop_times(s: MachineState, n: nat) -> MachineState
    decreases n,
{
    if n == 0 {
        s
    } else {
        pop_times(s.pop(), (n - 1) as nat)
    }
}

/// The values that `n` pops return, in the order of the pops.
pub open spec fn popped(s: MachineState, n: nat) -> Seq<VMAtom>
    decreases n,
{
    if n == 0 {
        Seq::empty()
    } else {
        seq![s.top()] + popped(s.pop(), (n - 1) as nat)
    }
}

proof fn lemma_push_all(s: MachineState, values: Seq<VMAtom>)
    requires
        s.wf(),
        values.len() <= s.processor.stack_ptr,
    ensures
        push_all(s, values).wf(),
        push_all(s, values).processor == (Processor {
            stack_ptr: (s.processor.stack_ptr - values.len()) as usize,
            ..s.processor
        }),
        push_all(s, values).error == s.error,
        forall|k: int|
            0 <= k < values.len() ==> push_all(s, values).memory[s.processor.stack_ptr - k]
                == values[k],
    decreases values.len(),
{
    if values.len() > 0 {
        let head = values.drop_last();
        lemma_push_all(s, head);
        let t = push_all(s, head);
        assert forall|k: int| 0 <= k < values.len() implies push_all(s, values).memory[s.processor.stack_ptr
            - k] == values[k] by {
            if k < head.len() {
                assert(t.memory[s.processor.stack_ptr - k] == head[k]);
            }
        }
    }
}

proof fn lemma_popped(s: MachineState, n: nat)
    requires
        s.wf(),
        s.processor.stack_ptr + n <= MEM_SIZE - 1,
    ensures
        pop_times(s, n).processor == (Processor {
            stack_ptr: (s.processor.stack_ptr + n) as usize,
            ..s.processor
        }),
        pop_times(s, n).error == s.error,
        pop_times(s, n).memory == s.memory,
        popped(s, n).len() == n,
        forall|j: int| 0 <= j < n ==> popped(s, n)[j] == s.memory[s.processor.stack_ptr + 1 + j],
    decreases n,
{
    if n > 0 {
        lemma_popped(s.pop(), (n - 1) as nat);
        let rest = popped(s.pop(), (n - 1) as nat);
        assert forall|j: int| 0 <= j < n implies popped(s, n)[j] == s.memory[s.processor.stack_ptr
            + 1 + j] by {
            if j > 0 {
                assert(popped(s, n)[j] == rest[j - 1]);
            }
        }
    }
}

/// The stack gives back last what was pushed first.
///
/// Where the values fit on the stack, as many pops as there were pushes
/// return the values in reverse order, and leave the stack pointer and the
/// fault field as they were before the pushes.
pub proof fn lemma_stack_is_last_in_first_out(s: MachineState, values: Seq<VMAtom>)
    requires
        s.wf(),
        values.len() <= s.processor.stack_ptr,
    ensures
        popped(push_all(s, values), values.len()) == values.reverse(),
        pop_times(push_all(s, values), values.len()).processor == s.processor,
        pop_times(push_all(s, values), values.len()).error == s.error,
{
    let n = values.len();
    let t = push_all(s, values);
    lemma_push_all(s, values);
    lemma_popped(t, n);
    assert forall|j: int| 0 <= j < n implies popped(t, n)[j] == values.reverse()[j] by {
        assert(t.memory[s.processor.stack_ptr - (n - 1 - j)] == values[n - 1 - j]);
    }
    assert(popped(t, n) =~= values.reverse());
}

/// A push onto a full stack is the overflow fault and writes nothing.
pub proof fn lemma_push_on_full_stack(s: MachineState, value: VMAtom)
    requires
        s.processor.stack_ptr == 0,
    ensures
        s.push(value).error == RuntimeError::HeapOverflow,
        s.push(value).memory == s.memory,
        s.push(value).processor == s.processor,
{
}

/// A pop from an empty stack is the underflow fault and returns zero.
pub proof fn lemma_pop_on_empty_stack(s: MachineState)
    requires
        s.processor.stack_ptr == MEM_SIZE - 1,
    ensures
        s.pop().error == RuntimeError::HeapUnderflow,
        s.top() == 0,
        s.pop().memory == s.memory,
        s.pop().processor == s.processor,
{
}

/// `add` and `sub` set the flags by their result.
///
/// With a register selected, the active register holds the sum or the
/// difference wrapped into an atom; the carry flag is set exactly where the
/// true result is no atom, the zero flag exactly where the register then
/// holds zero, and the sign flag exactly where it holds a negative atom.
pub proof fn lemma_arithmetic_sets_flags(s: MachineState, subtract: bool, operand: u8, value: VMAtom)
    requires
        s.wf(),
        s.selected(),
    ensures
        ({
            let op = if subtract {
                OpCode::SUB
            } else {
                OpCode::ADD
            };
            let result = if subtract {
                s.active() - value
            } else {
                s.active() + value
            };
            let after = s.perform(op, operand, value);
            &&& after.active() == wrapped(result)
            &&& after.processor.carry == (result < VMAtom::MIN || result > VMAtom::MAX)
            &&& after.processor.zero == (after.active() == 0)
            &&& after.processor.sign == (after.active() < 0)
            &&& result == 0 ==> after.processor.zero
            &&& VMAtom::MIN <= result < 0 ==> after.processor.sign
        }),
{
}

/// `clr` resets all three flags and `inv` flips all three.
pub proof fn lemma_clear_and_invert(s: MachineState, operand: u8, value: VMAtom)
    ensures
        s.perform(OpCode::CLR, operand, value).processor.zero == false,
        s.perform(OpCode::CLR, operand, value).processor.carry == false,
        s.perform(OpCode::CLR, operand, value).processor.sign == false,
        s.perform(OpCode::INV, operand, value).processor.zero == !s.processor.zero,
        s.perform(OpCode::INV, operand, value).processor.carry == !s.processor.carry,
        s.perform(OpCode::INV, operand, value).processor.sign == !s.processor.sign,
{
}

/// A binary of another atom width is never loaded.
///
/// Where the first byte of a binary is not the atom-width tag, loading sets
/// the mismatch fault and leaves the engine with the error preset, which
/// holds no bytes.
pub proof fn lemma_mismatched_width_is_refused(s: MachineState, binary: ProgramView)
    requires
        binary.data.len() > 0,
        binary.data[0] != ATOM_ID,
    ensures
        s.load(binary).error == RuntimeError::MismatchedAtomType,
        s.load(binary).program == Program::spec_error(),
        s.load(binary).program.data.len() == 0,
{
}

} // verus!
