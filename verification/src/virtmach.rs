//! The execution engine: registers, memory, the loaded program and the
//! fetch-decode-execute step.

use crate::atom::{decode_atom, spec_decode_atom, VMAddr, VMAtom, ATOM_ID};
use crate::errors::RuntimeError;
use crate::interrupts::SoftInterrupt;
use crate::opcodes::OpCode;
use crate::processor::Processor;
use crate::program::{Program, ProgramView};
use crate::{MEM_SIZE, REG_MAX};
use vstd::prelude::*;
use vstd::slice::{slice_subrange, slice_to_vec};

verus! {

/// Where the engine stands between construction and the end of a run.
#[derive(Debug, Clone, Copy, PartialEq, Eq, Structural)]
pub enum Runtime {
    /// Constructed, no program loaded yet.
    Ini,
    /// Executing; `step` does something only in this state.
    Run,
    /// Halted; `run` resumes from here.
    Hlt,
    /// Stopped for good by the program.
    Stp,
    /// A fault is pending; the program counter names the faulting instruction.
    Error,
}

/// One engine: registers, memory, processor, the loaded program and the
/// fault field.
///
/// The fields are open to handlers and to the embedding caller. The engine's
/// functions ask that the engine is well formed, see [`MachineState::wf`],
/// and leave it so.
pub struct VirtMach {
    pub registers: [VMAtom; REG_MAX],
    pub memory: [VMAtom; MEM_SIZE],
    pub cycle_cnt: usize,
    pub program: Program,
    pub error: RuntimeError,
    pub processor: Processor,
    pub state: Runtime,
    pub halt_on_break: bool,
}

/// What an engine is to a contract.
pub struct MachineState {
    pub registers: Seq<VMAtom>,
    pub memory: Seq<VMAtom>,
    pub cycle_cnt: usize,
    pub program: ProgramView,
    pub error: RuntimeError,
    pub processor: Processor,
    pub state: Runtime,
    pub halt_on_break: bool,
}

impl View for VirtMach {
    type V = MachineState;

    open spec fn view(&self) -> MachineState {
        MachineState {
            registers: self.registers@,
            memory: self.memory@,
            cycle_cnt: self.cycle_cnt,
            program: self.program@,
            error: self.error,
            processor: self.processor,
            state: self.state,
            halt_on_break: self.halt_on_break,
        }
    }
}

impl MachineState {
    /// The stack pointer names a memory cell, the active register is a
    /// register or the immediate marker, and registers and memory have their
    /// fixed sizes.
    pub open spec fn wf(self) -> bool {
        &&& self.registers.len() == REG_MAX
        &&& self.memory.len() == MEM_SIZE
        &&& self.processor.stack_ptr < MEM_SIZE
        &&& self.processor.act_reg <= REG_MAX
    }

    /// The state after a push of `val`: with the stack pointer at zero the
    /// overflow fault and nothing else; otherwise the value in the cell that
    /// the stack pointer names, and the pointer one lower.
    pub open spec fn push(self, val: VMAtom) -> MachineState {
        if self.processor.stack_ptr == 0 {
            MachineState { error: RuntimeError::HeapOverflow, ..self }
        } else {
            MachineState {
                memory: self.memory.update(self.processor.stack_ptr as int, val),
                processor: Processor {
                    stack_ptr: (self.processor.stack_ptr - 1) as usize,
                    ..self.processor
                },
                ..self
            }
        }
    }

    /// The value that a pop returns: zero from an empty stack, otherwise the
    /// cell above the stack pointer.
    pub open spec fn top(self) -> VMAtom {
        if self.processor.stack_ptr >= MEM_SIZE - 1 {
            0
        } else {
            self.memory[self.processor.stack_ptr + 1]
        }
    }

    /// The state after a pop: on an empty stack the underflow fault and
    /// nothing else; otherwise the stack pointer one higher.
    pub open spec fn pop(self) -> MachineState {
        if self.processor.stack_ptr >= MEM_SIZE - 1 {
            MachineState { error: RuntimeError::HeapUnderflow, ..self }
        } else {
            MachineState {
                processor: Processor {
                    stack_ptr: (self.processor.stack_ptr + 1) as usize,
                    ..self.processor
                },
                ..self
            }
        }
    }

    /// The state after a reset: processor and memory cleared, no fault, no
    /// cycles counted, halted. Registers and program stay.
    pub open spec fn reset(self) -> MachineState {
        MachineState {
            processor: Processor::initial(),
            state: Runtime::Hlt,
            error: RuntimeError::NoError,
            cycle_cnt: 0,
            memory: Seq::new(MEM_SIZE as nat, |i: int| 0i16),
            ..self
        }
    }

    /// The state after `binary` was handed to the loader.
    ///
    /// No bytes at all load the empty preset and change nothing else. A first
    /// byte other than the atom-width tag loads the error preset and sets the
    /// mismatch fault. A tag with nothing behind it loads the empty preset.
    /// Otherwise the engine is reset and holds the bytes behind the tag.
    pub open spec fn load(self, binary: ProgramView) -> MachineState {
        if binary.data.len() == 0 {
            MachineState { program: Program::spec_empty(), ..self }
        } else if binary.data[0] != ATOM_ID {
            MachineState {
                program: Program::spec_error(),
                error: RuntimeError::MismatchedAtomType,
                ..self
            }
        } else if binary.data.len() == 1 {
            MachineState { program: Program::spec_empty(), ..self }
        } else {
            MachineState {
                program: ProgramView {
                    source: binary.source,
                    id: binary.id,
                    data: binary.data.skip(1),
                },
                ..self.reset()
            }
        }
    }
}

impl VirtMach {
    /// See [`MachineState::wf`].
    pub open spec fn wf(&self) -> bool {
        self@.wf()
    }

    /// An engine without program: everything zero, processor reset, state
    /// `Ini`, not halting on breakpoints.
    pub fn new() -> (vm: VirtMach)
        ensures
            vm.wf(),
            vm@.registers == Seq::new(REG_MAX as nat, |i: int| 0i16),
            vm@.memory == Seq::new(MEM_SIZE as nat, |i: int| 0i16),
            vm@.cycle_cnt == 0,
            vm@.program == Program::spec_empty(),
            vm@.error == RuntimeError::NoError,
            vm@.processor == Processor::initial(),
            vm@.state == Runtime::Ini,
            !vm@.halt_on_break,
    {
        let vm = VirtMach {
            registers: [0; REG_MAX],
            memory: [0; MEM_SIZE],
            cycle_cnt: 0,
            program: Program::empty(),
            error: RuntimeError::NoError,
            processor: Processor::default(),
            state: Runtime::Ini,
            halt_on_break: false,
        };
        assert(vm@.registers =~= Seq::new(REG_MAX as nat, |i: int| 0i16));
        assert(vm@.memory =~= Seq::new(MEM_SIZE as nat, |i: int| 0i16));
        vm
    }

    /// Hands a compiled program to the engine.
    pub fn load_program(&mut self, program: Program)
        requires
            old(self).wf(),
        ensures
            final(self).wf(),
            final(self)@ == old(self)@.load(program@),
    {
        if program.data.len() == 0 {
            self.program = Program::empty();
            return ;
        }
        if program.data[0] != ATOM_ID {
            self.program = Program::error();
            self.error = RuntimeError::MismatchedAtomType;
            return ;
        }
        if program.data.len() == 1 {
            self.program = Program::empty();
            return ;
        }
        let stream = slice_to_vec(slice_subrange(program.data.as_slice(), 1, program.data.len()));
        assert(stream@ =~= program@.data.skip(1));
        self.reset();
        self.program = Program { source: program.source, id: program.id, data: stream };
    }

    /// Pushes `val` onto the stack, or sets the overflow fault where the
    /// stack is full.
    pub fn stack_push(&mut self, val: VMAtom)
        requires
            old(self).wf(),
        ensures
            final(self).wf(),
            final(self)@ == old(self)@.push(val),
    {
        if self.processor.stack_ptr == 0 {
            self.error = RuntimeError::HeapOverflow;
        } else {
            self.memory[self.processor.stack_ptr] = val;
            self.processor.stack_ptr -= 1;
        }
    }

    /// Pops the top of the stack, or sets the underflow fault and returns
    /// zero where the stack is empty.
    pub fn stack_pop(&mut self) -> (val: VMAtom)
        requires
            old(self).wf(),
        ensures
            final(self).wf(),
            final(self)@ == old(self)@.pop(),
            val == old(self)@.top(),
    {
        if self.processor.stack_ptr >= MEM_SIZE - 1 {
            self.error = RuntimeError::HeapUnderflow;
            0
        } else {
            self.processor.stack_ptr += 1;
            self.memory[self.processor.stack_ptr]
        }
    }

    /// Clears processor, memory, fault and cycle count and halts. Registers
    /// and program stay.
    pub fn reset(&mut self)
        requires
            old(self).wf(),
        ensures
            final(self).wf(),
            final(self)@ == old(self)@.reset(),
    {
        self.processor = Processor::default();
        self.state = Runtime::Hlt;
        self.error = RuntimeError::NoError;
        self.cycle_cnt = 0;
        self.memory = [0; MEM_SIZE];
        assert(self@.memory =~= Seq::new(MEM_SIZE as nat, |i: int| 0i16));
    }

    /// Halts the engine; `run` resumes it.
    pub fn pause(&mut self)
        ensures
            final(self)@ == (MachineState { state: Runtime::Hlt, ..old(self)@ }),
    {
        self.state = Runtime::Hlt;
    }

    /// Whether the engine is executing.
    pub fn running(&self) -> (r: bool)
        ensures
            r == (self@.state == Runtime::Run),
    {
        self.state == Runtime::Run
    }

    /// Whether the engine is halted.
    pub fn paused(&self) -> (r: bool)
        ensures
            r == (self@.state == Runtime::Hlt),
    {
        self.state == Runtime::Hlt
    }
}

/// One instruction as the engine reads it: its byte, the operand in its high
/// nibble, the value that the operand stands for, and the program counter
/// behind the instruction.
pub struct Fetched {
    pub byte: u8,
    pub operand: u8,
    pub value: VMAtom,
    pub next: int,
}

/// The atom that an integer wraps to in two's complement. The integer is a
/// sum, a difference or a negation of atoms.
pub open spec fn wrapped(x: int) -> VMAtom {
    if x > VMAtom::MAX {
        (x - 65536) as VMAtom
    } else if x < VMAtom::MIN {
        (x + 65536) as VMAtom
    } else {
        x as VMAtom
    }
}

impl MachineState {
    /// The state with the fault set.
    pub open spec fn fail(self, error: RuntimeError) -> MachineState {
        MachineState { error, ..self }
    }

    /// The state with the program counter at `to`.
    pub open spec fn goto(self, to: usize) -> MachineState {
        MachineState { processor: Processor { prog_cnt: to, ..self.processor }, ..self }
    }

    /// The state with the given flags.
    pub open spec fn flagged(self, zero: bool, carry: bool, sign: bool) -> MachineState {
        MachineState { processor: Processor { zero, carry, sign, ..self.processor }, ..self }
    }

    /// The state with `value` in the register of the given index.
    pub open spec fn with_register(self, index: int, value: VMAtom) -> MachineState {
        MachineState { registers: self.registers.update(index, value), ..self }
    }

    /// The state with `value` in the memory cell of the given address.
    pub open spec fn store(self, address: int, value: VMAtom) -> MachineState {
        MachineState { memory: self.memory.update(address, value), ..self }
    }

    /// Whether the active register is a register, not the immediate marker.
    pub open spec fn selected(self) -> bool {
        self.processor.act_reg < REG_MAX
    }

    /// What the active register holds.
    pub open spec fn active(self) -> VMAtom {
        self.registers[self.processor.act_reg as int]
    }

    /// The state with `value` in the active register, or with the register
    /// fault where the immediate marker is selected.
    pub open spec fn set_active(self, value: VMAtom) -> MachineState {
        if self.selected() {
            self.with_register(self.processor.act_reg as int, value)
        } else {
            self.fail(RuntimeError::RegisterOutOfBounds)
        }
    }

    /// Whether `address` names a memory cell.
    pub open spec fn in_memory(self, address: VMAtom) -> bool {
        0 <= address < MEM_SIZE
    }

    /// The state after the check of a memory address that names a cell: the
    /// collision fault where the address is at or above the stack pointer.
    pub open spec fn checked(self, address: VMAtom) -> MachineState {
        if address >= self.processor.stack_ptr {
            self.fail(RuntimeError::HeapCrash)
        } else {
            self
        }
    }

    /// The state after a relative jump by `offset` from the program counter,
    /// which stands behind the jump. The counter and the target must both be
    /// addresses; a call pushes the counter before it jumps.
    pub open spec fn jump(self, offset: VMAtom, call: bool) -> MachineState {
        let next = self.processor.prog_cnt;
        let target = next + offset;
        if next > VMAddr::MAX || target > VMAddr::MAX || target < 0 {
            self.fail(RuntimeError::InstructionPointerOutOfBounds)
        } else if call {
            self.push(next as VMAtom).goto(target as usize)
        } else {
            self.goto(target as usize)
        }
    }

    /// The state after the active register took the sum or difference
    /// `result`: the register holds it wrapped, the zero and sign flags tell
    /// of the wrapped value, the carry flag tells that it had to wrap.
    pub open spec fn computed(self, result: int) -> MachineState {
        if self.selected() {
            self.set_active(wrapped(result)).flagged(
                wrapped(result) == 0,
                result != wrapped(result),
                wrapped(result) < 0,
            )
        } else {
            self.fail(RuntimeError::RegisterOutOfBounds)
        }
    }

    /// The instruction at the program counter, which must lie inside the
    /// program. An opcode with operand reads a register, or an immediate
    /// behind the byte where the high nibble is the immediate marker.
    pub open spec fn fetch(self) -> Fetched {
        let at = self.processor.prog_cnt as int;
        let byte = self.program.data[at];
        if byte % 16 < 15 {
            if byte / 16 == 15 {
                Fetched {
                    byte,
                    operand: 15,
                    value: spec_decode_atom(self.program.data, at + 1),
                    next: at + 3,
                }
            } else {
                Fetched {
                    byte,
                    operand: byte / 16,
                    value: self.registers[(byte / 16) as int],
                    next: at + 1,
                }
            }
        } else {
            Fetched { byte, operand: 15, value: 0, next: at + 1 }
        }
    }

    /// The state after the effect of a fetched instruction other than a
    /// handled interrupt. The program counter stands behind the instruction.
    pub open spec fn execute(self, byte: u8, operand: u8, value: VMAtom) -> MachineState {
        match OpCode::spec_from_byte(byte) {
            None => self.fail(RuntimeError::IllegalInstruction),
            Some(op) => self.perform(op, operand, value),
        }
    }

    /// The state after the effect of an opcode on its operand, for every
    /// opcode but a handled interrupt. `operand` is the high nibble of the
    /// instruction and `value` what it stands for: the content of that
    /// register, or the immediate.
    ///
    /// `reg` selects the active register; `set` writes it; `loa` and `sto`
    /// move an atom between it and the memory cell at `value`, also where
    /// that is a collision with the stack. `psh` pushes `value`; `pop` pops
    /// into the register `operand`, or with the immediate marker into the
    /// memory cell at `value`. `add` and `sub` compute into the active
    /// register and set the flags. `cal` and the jumps move the program
    /// counter by `value`, the conditional ones only where their flag is
    /// set; `ret` pops the program counter. `clr` clears the flags, `inv`
    /// flips them, `neg` negates the active register and sets the sign flag.
    /// `brk` halts an engine that halts on breakpoints, `hlt` halts and `end`
    /// stops. An `int` that comes here has no handler.
    pub open spec fn perform(self, op: OpCode, operand: u8, value: VMAtom) -> MachineState {
        match op {
            OpCode::REG => MachineState {
                processor: Processor { act_reg: operand as usize, ..self.processor },
                ..self
            },
            OpCode::SET => self.set_active(value),
            OpCode::LOA => if self.in_memory(value) {
                self.checked(value).set_active(self.memory[value as int])
            } else {
                self.fail(RuntimeError::MemoryOutOfBounds)
            },
            OpCode::STO => if !self.in_memory(value) {
                self.fail(RuntimeError::MemoryOutOfBounds)
            } else if self.selected() {
                self.checked(value).store(value as int, self.active())
            } else {
                self.fail(RuntimeError::RegisterOutOfBounds)
            },
            OpCode::PSH => self.push(value),
            OpCode::POP => if operand != 15 {
                self.pop().with_register(operand as int, self.top())
            } else if self.in_memory(value) {
                self.checked(value).pop().store(value as int, self.top())
            } else {
                self.fail(RuntimeError::RegisterOutOfBounds)
            },
            OpCode::ADD => self.computed(self.active() + value),
            OpCode::SUB => self.computed(self.active() - value),
            OpCode::CAL => self.jump(value, true),
            OpCode::INT => self.fail(RuntimeError::UnhandledInterrupt),
            OpCode::JMP => self.jump(value, false),
            OpCode::JPZ => if self.processor.zero {
                self.jump(value, false)
            } else {
                self
            },
            OpCode::JPC => if self.processor.carry {
                self.jump(value, false)
            } else {
                self
            },
            OpCode::JPS => if self.processor.sign {
                self.jump(value, false)
            } else {
                self
            },
            OpCode::RET => if self.top() >= 0 {
                self.pop().goto(self.top() as usize)
            } else {
                self.pop().fail(RuntimeError::InstructionPointerOutOfBounds)
            },
            OpCode::CLR => self.flagged(false, false, false),
            OpCode::INV => self.flagged(
                !self.processor.zero,
                !self.processor.carry,
                !self.processor.sign,
            ),
            OpCode::NEG => if self.selected() {
                self.set_active(wrapped(-self.active())).flagged(
                    self.processor.zero,
                    self.processor.carry,
                    wrapped(-self.active()) < 0,
                )
            } else {
                self.fail(RuntimeError::RegisterOutOfBounds)
            },
            OpCode::BRK => if self.halt_on_break {
                MachineState { state: Runtime::Hlt, ..self }
            } else {
                self
            },
            OpCode::HLT => MachineState { state: Runtime::Hlt, ..self },
            OpCode::END => MachineState { state: Runtime::Stp, ..self },
        }
    }

    /// The state at the end of a step that began at the instruction `at`:
    /// with a fault pending the engine is in error and the program counter is
    /// back at that instruction; otherwise one more cycle is counted.
    pub open spec fn retire(self, at: usize) -> MachineState {
        if self.error != RuntimeError::NoError {
            MachineState { state: Runtime::Error, ..self.goto(at) }
        } else {
            MachineState {
                cycle_cnt: if self.cycle_cnt < usize::MAX {
                    (self.cycle_cnt + 1) as usize
                } else {
                    self.cycle_cnt
                },
                ..self
            }
        }
    }

    /// Whether a whole instruction can be fetched: the program counter lies
    /// inside the program and the counter behind the instruction is a
    /// machine word.
    pub open spec fn fetches(self) -> bool {
        self.processor.prog_cnt < self.program.data.len() && self.fetch().next <= usize::MAX
    }

    /// Whether the next step hands an interrupt to one of `handlers`
    /// handlers: the engine runs, and the instruction is an `int` whose
    /// operand is below that number.
    pub open spec fn dispatches(self, handlers: int) -> bool {
        &&& self.state == Runtime::Run
        &&& self.fetches()
        &&& OpCode::spec_from_byte(self.fetch().byte) == Some(OpCode::INT)
        &&& self.fetch().operand < handlers
    }

    /// The state in which a handler is entered: the program counter stands
    /// behind the `int` instruction.
    pub open spec fn entered(self) -> MachineState {
        self.goto(self.fetch().next as usize)
    }

    /// The state after one step that hands no interrupt to a handler.
    ///
    /// An engine that is not running stays as it is. A program counter
    /// outside the program, or an instruction that reaches past the last
    /// machine word, is a fault. Otherwise the instruction is fetched, the
    /// counter moves behind it, and the instruction takes effect.
    pub open spec fn step(self) -> MachineState {
        if self.state != Runtime::Run {
            self
        } else if !self.fetches() {
            self.fail(RuntimeError::ProgramOutOfBounds).retire(self.processor.prog_cnt)
        } else {
            self.entered().execute(
                self.fetch().byte,
                self.fetch().operand,
                self.fetch().value,
            ).retire(self.processor.prog_cnt)
        }
    }

    /// The state after at most `budget` steps none of which hands an
    /// interrupt to a handler, ending where the engine no longer runs.
    pub open spec fn steps(self, budget: nat) -> MachineState
        decreases budget,
    {
        if budget == 0 || self.state != Runtime::Run {
            self
        } else {
            self.step().steps((budget - 1) as nat)
        }
    }

    /// The state in which a run starts: a halted engine runs again.
    pub open spec fn resumed(self) -> MachineState {
        if self.state == Runtime::Hlt {
            MachineState { state: Runtime::Run, ..self }
        } else {
            self
        }
    }
}

/// Whether one step with the given handlers may turn `before` into `after`.
/// Where the step hands an interrupt to a handler, the handler's effect
/// stands between the fetch and the end of the step.
pub open spec fn step_ok(
    handlers: Seq<&mut dyn SoftInterrupt>,
    before: MachineState,
    after: MachineState,
) -> bool {
    if before.dispatches(handlers.len() as int) {
        exists|mid: MachineState|
            #[trigger] handlers[before.fetch().operand as int].effect(before.entered(), mid)
                && mid.wf() && after == mid.retire(before.processor.prog_cnt)
    } else {
        after == before.step()
    }
}

/// Whether at most `budget` steps with the given handlers, ending where the
/// engine no longer runs, may turn `before` into `after`.
pub open spec fn run_ok(
    handlers: Seq<&mut dyn SoftInterrupt>,
    before: MachineState,
    after: MachineState,
    budget: nat,
) -> bool
    decreases budget,
{
    if budget == 0 || before.state != Runtime::Run {
        after == before
    } else {
        exists|mid: MachineState| #[trigger]
            step_ok(handlers, before, mid) && run_ok(handlers, mid, after, (budget - 1) as nat)
    }
}

/// The steps that a run may take: as many as asked for, and with zero as
/// many as fit the counter that the run keeps.
pub open spec fn spec_budget(max_ops: usize) -> nat {
    if max_ops == 0 {
        u128::MAX as nat
    } else {
        max_ops as nat
    }
}

/// Whether two lists of handlers are as many and can do the same, place by
/// place.
pub open spec fn same_effects(
    a: Seq<&mut dyn SoftInterrupt>,
    b: Seq<&mut dyn SoftInterrupt>,
) -> bool {
    &&& a.len() == b.len()
    &&& forall|i: int, before: MachineState, after: MachineState|
        0 <= i < a.len() ==> #[trigger] a[i].effect(before, after) == b[i].effect(before, after)
}

/// Handlers whose effects stay the same can do in a step what they could
/// before.
pub proof fn lemma_step_ok_same(
    a: Seq<&mut dyn SoftInterrupt>,
    b: Seq<&mut dyn SoftInterrupt>,
    before: MachineState,
    after: MachineState,
)
    requires
        same_effects(a, b),
    ensures
        step_ok(a, before, after) == step_ok(b, before, after),
{
    if before.dispatches(a.len() as int) {
        let index = before.fetch().operand as int;
        if step_ok(a, before, after) {
            let mid = choose|mid: MachineState|
                #[trigger] a[index].effect(before.entered(), mid) && mid.wf() && after
                    == mid.retire(before.processor.prog_cnt);
            assert(b[index].effect(before.entered(), mid));
        }
        if step_ok(b, before, after) {
            let mid = choose|mid: MachineState|
                #[trigger] b[index].effect(before.entered(), mid) && mid.wf() && after
                    == mid.retire(before.processor.prog_cnt);
            assert(a[index].effect(before.entered(), mid));
        }
    }
}

/// Without handlers a run is a function of the engine alone: its outcome is
/// the state after the budgeted steps, and no other.
pub proof fn lemma_run_without_handlers(
    handlers: Seq<&mut dyn SoftInterrupt>,
    before: MachineState,
    after: MachineState,
    budget: nat,
)
    requires
        handlers.len() == 0,
    ensures
        run_ok(handlers, before, after, budget) <==> after == before.steps(budget),
    decreases budget,
{
    if budget != 0 && before.state == Runtime::Run {
        let next = before.step();
        assert(!before.dispatches(0));
        lemma_run_without_handlers(handlers, next, after, (budget - 1) as nat);
        if run_ok(handlers, before, after, budget) {
            let mid = choose|mid: MachineState| #[trigger]
                step_ok(handlers, before, mid) && run_ok(
                    handlers,
                    mid,
                    after,
                    (budget - 1) as nat,
                );
            assert(mid == next);
        }
        if after == before.steps(budget) {
            assert(step_ok(handlers, before, next) && run_ok(
                handlers,
                next,
                after,
                (budget - 1) as nat,
            ));
        }
    }
}

impl VirtMach {
    /// Sets the fault.
    fn fail(&mut self, error: RuntimeError)
        ensures
            final(self)@ == old(self)@.fail(error),
    {
        self.error = error;
    }

    /// Writes the active register, or sets the register fault where the
    /// immediate marker is selected.
    fn set_active(&mut self, value: VMAtom)
        requires
            old(self).wf(),
        ensures
            final(self).wf(),
            final(self)@ == old(self)@.set_active(value),
    {
        if self.processor.act_reg < REG_MAX {
            self.registers[self.processor.act_reg] = value;
        } else {
            self.error = RuntimeError::RegisterOutOfBounds;
        }
    }

    /// Checks a memory address: outside memory it is a fault and the answer
    /// is no; at or above the stack pointer it is a collision fault and the
    /// answer is yes all the same.
    fn check_memory(&mut self, address: VMAtom) -> (ok: bool)
        requires
            old(self).wf(),
        ensures
            final(self).wf(),
            ok == old(self)@.in_memory(address),
            ok ==> final(self)@ == old(self)@.checked(address),
            !ok ==> final(self)@ == old(self)@.fail(RuntimeError::MemoryOutOfBounds),
    {
        if address < 0 || address as usize >= MEM_SIZE {
            self.error = RuntimeError::MemoryOutOfBounds;
            return false;
        }
        if address as usize >= self.processor.stack_ptr {
            self.error = RuntimeError::HeapCrash;
        }
        true
    }

    /// Jumps by `offset` from the program counter; a call pushes the counter
    /// first.
    fn jump(&mut self, offset: VMAtom, call: bool)
        requires
            old(self).wf(),
        ensures
            final(self).wf(),
            final(self)@ == old(self)@.jump(offset, call),
    {
        let next: usize = self.processor.prog_cnt;
        if next > 32767 {
            self.error = RuntimeError::InstructionPointerOutOfBounds;
            return ;
        }
        let target: i32 = next as i32 + offset as i32;
        if target > 32767 || target < 0 {
            self.error = RuntimeError::InstructionPointerOutOfBounds;
            return ;
        }
        if call {
            self.stack_push(next as VMAtom);
        }
        self.processor.prog_cnt = target as usize;
    }

    /// Puts a sum or difference of two atoms into the active register and
    /// sets the flags by it.
    fn compute(&mut self, result: i32)
        requires
            old(self).wf(),
            -65536 <= result <= 65535,
        ensures
            final(self).wf(),
            final(self)@ == old(self)@.computed(result as int),
    {
        if self.processor.act_reg >= REG_MAX {
            self.error = RuntimeError::RegisterOutOfBounds;
            return ;
        }
        let wrapped_result: VMAtom = if result > 32767 {
            (result - 65536) as VMAtom
        } else if result < -32768 {
            (result + 65536) as VMAtom
        } else {
            result as VMAtom
        };
        self.registers[self.processor.act_reg] = wrapped_result;
        self.processor.zero = wrapped_result == 0;
        self.processor.carry = result > 32767 || result < -32768;
        self.processor.sign = wrapped_result < 0;
    }

    /// Ends a step that began at the instruction `at`.
    fn retire(&mut self, at: usize)
        requires
            old(self).wf(),
        ensures
            final(self).wf(),
            final(self)@ == old(self)@.retire(at),
    {
        if self.error != RuntimeError::NoError {
            self.state = Runtime::Error;
            self.processor.prog_cnt = at;
        } else if self.cycle_cnt < usize::MAX {
            self.cycle_cnt += 1;
        }
    }

    /// Writes a register.
    fn write_register(&mut self, index: usize, value: VMAtom)
        requires
            index < REG_MAX,
        ensures
            final(self)@ == old(self)@.with_register(index as int, value),
    {
        self.registers[index] = value;
    }

    /// Writes a memory cell.
    fn write_memory(&mut self, address: usize, value: VMAtom)
        requires
            address < MEM_SIZE,
        ensures
            final(self)@ == old(self)@.store(address as int, value),
    {
        self.memory[address] = value;
    }

    /// Sets the three flags.
    fn flag(&mut self, zero: bool, carry: bool, sign: bool)
        ensures
            final(self)@ == old(self)@.flagged(zero, carry, sign),
    {
        self.processor.zero = zero;
        self.processor.carry = carry;
        self.processor.sign = sign;
    }

    /// The effect of `reg`, `set`, `loa` and `sto`.
    #[verifier::rlimit(50)]
    fn perform_transfer(&mut self, op: OpCode, operand: u8, value: VMAtom)
        requires
            old(self).wf(),
            operand <= 15,
            op == OpCode::REG || op == OpCode::SET || op == OpCode::LOA || op == OpCode::STO,
        ensures
            final(self).wf(),
            final(self)@ == old(self)@.perform(op, operand, value),
    {
        match op {
            OpCode::REG => {
                self.processor.act_reg = operand as usize;
            },
            OpCode::SET => {
                self.set_active(value);
            },
            OpCode::LOA => {
                if self.check_memory(value) {
                    let loaded: VMAtom = self.memory[value as usize];
                    self.set_active(loaded);
                }
            },
            OpCode::STO => {
                if value < 0 || value as usize >= MEM_SIZE {
                    self.fail(RuntimeError::MemoryOutOfBounds);
                } else if self.processor.act_reg < REG_MAX {
                    let held: VMAtom = self.registers[self.processor.act_reg];
                    self.check_memory(value);
                    self.write_memory(value as usize, held);
                } else {
                    self.fail(RuntimeError::RegisterOutOfBounds);
                }
            },
            _ => {},
        }
    }

    /// The effect of `psh`, `pop` and `ret`.
    #[verifier::rlimit(50)]
    fn perform_stack(&mut self, op: OpCode, operand: u8, value: VMAtom)
        requires
            old(self).wf(),
            operand <= 15,
            op == OpCode::PSH || op == OpCode::POP || op == OpCode::RET,
        ensures
            final(self).wf(),
            final(self)@ == old(self)@.perform(op, operand, value),
    {
        match op {
            OpCode::PSH => {
                self.stack_push(value);
            },
            OpCode::POP => {
                if operand != 15 {
                    let popped: VMAtom = self.stack_pop();
                    self.write_register(operand as usize, popped);
                } else if self.check_memory(value) {
                    let popped: VMAtom = self.stack_pop();
                    self.write_memory(value as usize, popped);
                } else {
                    self.error = RuntimeError::RegisterOutOfBounds;
                }
            },
            OpCode::RET => {
                let address: VMAtom = self.stack_pop();
                if address >= 0 {
                    self.processor.prog_cnt = address as usize;
                } else {
                    self.fail(RuntimeError::InstructionPointerOutOfBounds);
                }
            },
            _ => {},
        }
    }

    /// The effect of `add`, `sub`, `neg`, `clr` and `inv`.
    #[verifier::rlimit(50)]
    fn perform_arithmetic(&mut self, op: OpCode, value: VMAtom)
        requires
            old(self).wf(),
            op == OpCode::ADD || op == OpCode::SUB || op == OpCode::NEG || op == OpCode::CLR || op
                == OpCode::INV,
        ensures
            final(self).wf(),
            forall|operand: u8| final(self)@ == #[trigger] old(self)@.perform(op, operand, value),
    {
        let held: VMAtom = if self.processor.act_reg < REG_MAX {
            self.registers[self.processor.act_reg]
        } else {
            0
        };
        match op {
            OpCode::ADD => {
                self.compute(held as i32 + value as i32);
            },
            OpCode::SUB => {
                self.compute(held as i32 - value as i32);
            },
            OpCode::NEG => {
                if self.processor.act_reg < REG_MAX {
                    let negated: VMAtom = if held == VMAtom::MIN {
                        held
                    } else {
                        -held
                    };
                    self.write_register(self.processor.act_reg, negated);
                    self.flag(self.processor.zero, self.processor.carry, negated < 0);
                } else {
                    self.fail(RuntimeError::RegisterOutOfBounds);
                }
            },
            OpCode::CLR => {
                self.flag(false, false, false);
            },
            OpCode::INV => {
                self.flag(!self.processor.zero, !self.processor.carry, !self.processor.sign);
            },
            _ => {},
        }
    }

    /// The effect of the jumps, of `cal`, of `brk`, `hlt` and `end`, and of
    /// an `int` that no handler serves.
    #[verifier::rlimit(50)]
    fn perform_flow(&mut self, op: OpCode, value: VMAtom)
        requires
            old(self).wf(),
            op == OpCode::CAL || op == OpCode::JMP || op == OpCode::JPZ || op == OpCode::JPC || op
                == OpCode::JPS || op == OpCode::INT || op == OpCode::BRK || op == OpCode::HLT || op
                == OpCode::END,
        ensures
            final(self).wf(),
            forall|operand: u8| final(self)@ == #[trigger] old(self)@.perform(op, operand, value),
    {
        match op {
            OpCode::CAL => {
                self.jump(value, true);
            },
            OpCode::JMP => {
                self.jump(value, false);
            },
            OpCode::JPZ => {
                if self.processor.zero {
                    self.jump(value, false);
                }
            },
            OpCode::JPC => {
                if self.processor.carry {
                    self.jump(value, false);
                }
            },
            OpCode::JPS => {
                if self.processor.sign {
                    self.jump(value, false);
                }
            },
            OpCode::INT => {
                self.fail(RuntimeError::UnhandledInterrupt);
            },
            OpCode::BRK => {
                if self.halt_on_break {
                    self.state = Runtime::Hlt;
                }
            },
            OpCode::HLT => {
                self.state = Runtime::Hlt;
            },
            OpCode::END => {
                self.state = Runtime::Stp;
            },
            _ => {},
        }
    }

    /// Lets a fetched instruction other than a handled interrupt take effect.
    #[verifier::rlimit(50)]
    fn execute(&mut self, byte: u8, operand: u8, value: VMAtom)
        requires
            old(self).wf(),
            operand <= 15,
        ensures
            final(self).wf(),
            final(self)@ == old(self)@.execute(byte, operand, value),
    {
        match OpCode::from_byte(byte) {
            None => {
                self.fail(RuntimeError::IllegalInstruction);
            },
            Some(op) => match op {
                OpCode::REG | OpCode::SET | OpCode::LOA | OpCode::STO => {
                    self.perform_transfer(op, operand, value);
                },
                OpCode::PSH | OpCode::POP | OpCode::RET => {
                    self.perform_stack(op, operand, value);
                },
                OpCode::ADD | OpCode::SUB | OpCode::NEG | OpCode::CLR | OpCode::INV => {
                    self.perform_arithmetic(op, value);
                },
                _ => {
                    self.perform_flow(op, value);
                },
            },
        }
    }

    /// Executes one instruction, if the engine is running; see
    /// [`MachineState::step`] and [`step_ok`].
    #[verifier::rlimit(50)]
    pub fn step(&mut self, interrupts: &mut [&mut dyn SoftInterrupt])
        requires
            old(self).wf(),
        ensures
            final(self).wf(),
            step_ok(old(interrupts)@, old(self)@, final(self)@),
            same_effects(old(interrupts)@, final(interrupts)@),
    {
        if self.state != Runtime::Run {
            return ;
        }
        let at: usize = self.processor.prog_cnt;
        if at >= self.program.data.len() {
            self.error = RuntimeError::ProgramOutOfBounds;
            self.retire(at);
            return ;
        }
        let byte: u8 = self.program.data[at];
        let mut operand: u8 = 15;
        let mut value: VMAtom = 0;
        let mut next: usize = at + 1;
        if byte % 16 < 15 {
            operand = byte / 16;
            if operand == 15 {
                if at > usize::MAX - 3 {
                    self.error = RuntimeError::ProgramOutOfBounds;
                    self.retire(at);
                    return ;
                }
                value = decode_atom(self.program.data.as_slice(), at + 1);
                next = at + 3;
            } else {
                value = self.registers[operand as usize];
            }
        }
        self.processor.prog_cnt = next;
        if byte % 16 == 9 && (operand as usize) < interrupts.len() {
            let ghost entered = self@;
            interrupts[operand as usize].call(self);
            let ghost mid = self@;
            self.retire(at);
            assert(old(interrupts)@[operand as int].effect(entered, mid));
        } else {
            self.execute(byte, operand, value);
            self.retire(at);
        }
    }

    /// Runs the engine for at most `max_ops` steps, or with zero for as long
    /// as it keeps running; a halted engine resumes. See [`run_ok`].
    #[verifier::rlimit(50)]
    pub fn run(&mut self, max_ops: usize, interrupts: &mut [&mut dyn SoftInterrupt])
        requires
            old(self).wf(),
        ensures
            final(self).wf(),
            run_ok(old(interrupts)@, old(self)@.resumed(), final(self)@, spec_budget(max_ops)),
            same_effects(old(interrupts)@, final(interrupts)@),
    {
        let mut remaining: u128 = if max_ops == 0 {
            u128::MAX
        } else {
            max_ops as u128
        };
        if self.state == Runtime::Hlt {
            self.state = Runtime::Run;
        }
        let ghost handlers = old(interrupts)@;
        let ghost start = self@;
        while remaining > 0 && self.state == Runtime::Run
            invariant
                self.wf(),
                handlers == old(interrupts)@,
                same_effects(handlers, interrupts@),
                start == old(self)@.resumed(),
                forall|end: MachineState| #[trigger]
                    run_ok(handlers, self@, end, remaining as nat) ==> run_ok(
                        handlers,
                        start,
                        end,
                        spec_budget(max_ops),
                    ),
            decreases remaining,
        {
            let ghost before = self@;
            let ghost earlier = interrupts@;
            self.step(interrupts);
            remaining -= 1;
            proof {
                let after = self@;
                lemma_step_ok_same(earlier, handlers, before, after);
                assert forall|end: MachineState| #[trigger]
                    run_ok(handlers, after, end, remaining as nat) implies run_ok(
                    handlers,
                    start,
                    end,
                    spec_budget(max_ops),
                ) by {
                    assert(step_ok(handlers, before, after) && run_ok(
                        handlers,
                        after,
                        end,
                        remaining as nat,
                    ));
                    assert(run_ok(handlers, before, end, (remaining + 1) as nat));
                }
            }
        }
        assert(run_ok(handlers, self@, self@, remaining as nat));
    }
}

} // verus!
