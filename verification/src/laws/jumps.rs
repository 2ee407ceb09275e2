//! Jumps and their labels: what the assembler writes into a jump is what
//! the engine needs to land on the label.

use crate::assemble::{is_jump, is_jump_byte, lemma_jump_has_immediate, operand_byte, spec_line};
use crate::atom::{atom_bytes, lemma_atom_round_trip, spec_decode_atom, VMAtom, ATOM_ID};
use crate::compile::{
    jumps_within, spec_assemble, spec_compile, spec_directives, spec_distance, spec_label_from,
    spec_patch, spec_place, spec_resolve, Assembly, DefineView, JumpView, LabelView,
};
use crate::errors::RuntimeError;
use crate::interrupts::DefView;
use crate::laws::notation::lemma_operand_byte;
use crate::opcodes::OpCode;
use crate::text::{spec_split, LINE_FEED};
use crate::virtmach::{MachineState, Runtime};
use vstd::prelude::*;

verus! {

/// Whether the opcode is a jump or call that the state takes: `jmp` and
/// `cal` always, `jpz`, `jpc` and `jps` where their flag is set.
pub open spec fn jump_taken(s: MachineState, op: OpCode) -> bool {
    op == OpCode::JMP || op == OpCode::CAL || (op == OpCode::JPZ && s.processor.zero) || (op
        == OpCode::JPC && s.processor.carry) || (op == OpCode::JPS && s.processor.sign)
}

/// A resolved jump lands on its label.
///
/// Let a jump or call that is taken stand with an immediate at the program
/// counter of a running engine without fault, and let the immediate hold
/// the distance from the offset behind it to a label, as the assembler
/// writes it. Then the step that executes the jump leaves the program
/// counter at the label's offset, whether the label lies behind the jump or
/// before it. The offset behind the jump and the label must both be
/// addresses, that is, at most the largest atom, and a call needs room on
/// the stack.
#[verifier::rlimit(50)]
pub proof fn lemma_jump_lands_on_label(s: MachineState, op: OpCode, label: int)
    requires
        s.wf(),
        s.state == Runtime::Run,
        s.error == RuntimeError::NoError,
        jump_taken(s, op),
        op == OpCode::CAL ==> s.processor.stack_ptr > 0,
        s.processor.prog_cnt + 3 <= s.program.data.len(),
        s.processor.prog_cnt + 3 <= VMAtom::MAX,
        0 <= label <= VMAtom::MAX,
        s.program.data[s.processor.prog_cnt as int] == operand_byte(op, 15),
        spec_distance(s.processor.prog_cnt + 3, label) == Some(
            spec_decode_atom(s.program.data, s.processor.prog_cnt + 1),
        ),
    ensures
        s.step().processor.prog_cnt == label,
        s.step().error == RuntimeError::NoError,
        s.step().state == Runtime::Run,
{
    let at = s.processor.prog_cnt as int;
    let distance = spec_decode_atom(s.program.data, at + 1);
    lemma_operand_byte(op, 15);
    assert(s.fetch().value == distance);
    assert(s.fetch().next == at + 3);
    assert(s.fetches());
    assert(!s.dispatches(0));
    let entered = s.entered();
    assert(entered.processor.prog_cnt == at + 3);
    assert(entered.execute(s.fetch().byte, s.fetch().operand, s.fetch().value) == entered.jump(
        distance,
        op == OpCode::CAL,
    ));
}

/// Whether the jumps, three bytes each, lie inside a stream of the given
/// length one behind the other.
pub open spec fn jumps_apart(jumps: Seq<JumpView>, len: int) -> bool {
    &&& forall|i: int| 0 <= i < jumps.len() ==> 3 <= (#[trigger] jumps[i]).address <= len
    &&& forall|i: int, j: int|
        0 <= i < j < jumps.len() ==> (#[trigger] jumps[i]).address + 3 <= (
        #[trigger] jumps[j]).address
}

/// Whether the byte of a jump or call with the immediate marker stands
/// three bytes before the offset behind each jump.
pub open spec fn jumps_stand(out: Seq<u8>, jumps: Seq<JumpView>) -> bool {
    forall|i: int| 0 <= i < jumps.len() ==> is_jump_byte(out[(#[trigger] jumps[i]).address - 3])
}

/// Whether `k` is one of the two bytes of the immediate of a jump from
/// number `from` on.
pub open spec fn in_immediate(jumps: Seq<JumpView>, from: int, k: int) -> bool {
    exists|i: int|
        from <= i < jumps.len() && (#[trigger] jumps[i]).address - 2 <= k < jumps[i].address
}

/// Resolving writes into every jump the distance to its label and changes
/// nothing else.
///
/// Where the jumps from number `from` on resolve, the stream keeps its
/// length, each of those jumps has a label and a distance to it that an
/// atom holds, the immediate of the jump decodes to that distance, and every
/// byte outside those immediates is as it was.
#[verifier::rlimit(50)]
pub proof fn lemma_resolved_holds_distances(
    out: Seq<u8>,
    jumps: Seq<JumpView>,
    labels: Seq<LabelView>,
    from: int,
)
    requires
        jumps_apart(jumps, out.len() as int),
        0 <= from <= jumps.len(),
        spec_resolve(out, jumps, labels, from) is Ok,
    ensures
        spec_resolve(out, jumps, labels, from)->Ok_0.len() == out.len(),
        forall|i: int|
            from <= i < jumps.len() ==> {
                let target = spec_label_from(labels, (#[trigger] jumps[i]).label, 0);
                &&& target is Some
                &&& spec_distance(jumps[i].address, target->0) is Some
                &&& spec_decode_atom(
                    spec_resolve(out, jumps, labels, from)->Ok_0,
                    jumps[i].address - 2,
                ) == spec_distance(jumps[i].address, target->0)->0
            },
        forall|k: int|
            0 <= k < out.len() && !in_immediate(jumps, from, k) ==> spec_resolve(
                out,
                jumps,
                labels,
                from,
            )->Ok_0[k] == out[k],
    decreases jumps.len() - from,
{
    assert(jumps_within(jumps, out.len() as int));
    if from < jumps.len() {
        let jump = jumps[from];
        let target = spec_label_from(labels, jump.label, 0)->0;
        let distance = spec_distance(jump.address, target)->0;
        let next = spec_patch(out, jump.address - 2, distance);
        assert(2 <= jumps[from].address <= out.len());
        assert(next.len() == out.len());
        assert(next[jump.address - 2] == atom_bytes(distance)[0]);
        assert(next[jump.address - 1] == atom_bytes(distance)[1]);
        assert(spec_resolve(out, jumps, labels, from) == spec_resolve(
            next,
            jumps,
            labels,
            from + 1,
        ));
        let done = spec_resolve(out, jumps, labels, from)->Ok_0;
        lemma_resolved_holds_distances(next, jumps, labels, from + 1);
        lemma_atom_round_trip(distance);
        assert(!in_immediate(jumps, from + 1, jump.address - 2)) by {
            if in_immediate(jumps, from + 1, jump.address - 2) {
                let i = choose|i: int|
                    from + 1 <= i < jumps.len() && (#[trigger] jumps[i]).address - 2
                        <= jump.address - 2 < jumps[i].address;
                assert(jumps[from].address + 3 <= jumps[i].address);
            }
        }
        assert(!in_immediate(jumps, from + 1, jump.address - 1)) by {
            if in_immediate(jumps, from + 1, jump.address - 1) {
                let i = choose|i: int|
                    from + 1 <= i < jumps.len() && (#[trigger] jumps[i]).address - 2
                        <= jump.address - 1 < jumps[i].address;
                assert(jumps[from].address + 3 <= jumps[i].address);
            }
        }
        assert(done[jump.address - 2] == atom_bytes(distance)[0]);
        assert(done[jump.address - 1] == atom_bytes(distance)[1]);
        assert forall|k: int| 0 <= k < out.len() && !in_immediate(jumps, from, k) implies done[k]
            == out[k] by {
            assert(!(jumps[from].address - 2 <= k < jumps[from].address));
            assert(next[k] == out[k]);
            if in_immediate(jumps, from + 1, k) {
                let i = choose|i: int|
                    from + 1 <= i < jumps.len() && (#[trigger] jumps[i]).address - 2 <= k
                        < jumps[i].address;
                assert(from <= i < jumps.len() && jumps[i].address - 2 <= k < jumps[i].address);
            }
        }
    }
}

/// Assembling puts the waiting jumps one behind the other into the stream,
/// each with the byte of a jump or call at its start.
#[verifier::rlimit(50)]
pub proof fn lemma_assembled_jumps_apart(
    lines: Seq<Seq<u8>>,
    from: int,
    defines: Seq<DefineView>,
    defs: Seq<DefView>,
    a: Assembly,
)
    requires
        0 <= from,
        jumps_apart(a.jumps, a.out.len() as int),
        jumps_stand(a.out, a.jumps),
        spec_assemble(lines, from, defines, defs, a) is Ok,
    ensures
        jumps_apart(
            spec_assemble(lines, from, defines, defs, a)->Ok_0.jumps,
            spec_assemble(lines, from, defines, defs, a)->Ok_0.out.len() as int,
        ),
        jumps_stand(
            spec_assemble(lines, from, defines, defs, a)->Ok_0.out,
            spec_assemble(lines, from, defines, defs, a)->Ok_0.jumps,
        ),
    decreases lines.len() - from,
{
    if from < lines.len() {
        let line = (from + 1) as usize;
        let item = spec_line(lines[from], line, defines, defs)->Ok_0;
        let next = spec_place(a, item, line);
        lemma_jump_has_immediate(lines[from], line, defines, defs);
        assert forall|i: int| 0 <= i < next.jumps.len() implies 3 <= (
        #[trigger] next.jumps[i]).address <= next.out.len() by {
            if i < a.jumps.len() {
                assert(next.jumps[i] == a.jumps[i]);
            }
        }
        assert forall|i: int, j: int| 0 <= i < j < next.jumps.len() implies (
        #[trigger] next.jumps[i]).address + 3 <= (#[trigger] next.jumps[j]).address by {
            assert(next.jumps[i] == a.jumps[i]);
            if j < a.jumps.len() {
                assert(next.jumps[j] == a.jumps[j]);
            }
        }
        assert forall|i: int| 0 <= i < next.jumps.len() implies is_jump_byte(
            next.out[(#[trigger] next.jumps[i]).address - 3],
        ) by {
            if i < a.jumps.len() {
                assert(next.jumps[i] == a.jumps[i]);
                assert(next.out[a.jumps[i].address - 3] == a.out[a.jumps[i].address - 3]);
            } else {
                assert(next.out[next.jumps[i].address - 3] == item.bytes[0]);
            }
        }
        lemma_assembled_jumps_apart(lines, from + 1, defines, defs, next);
    }
}

/// In a compiled program every jump to a label holds the distance to it.
///
/// Where a listing compiles, each jump that the assembly of its lines left
/// waiting found the first label of its name, and the two bytes before the
/// offset behind the jump decode to the distance from that offset to the
/// label. Offsets count from behind the tag byte, which the program starts
/// with.
#[verifier::rlimit(50)]
pub proof fn lemma_compiled_jumps_hold_distances(listing: Seq<u8>, defs: Seq<DefView>)
    requires
        spec_compile(listing, defs) is Ok,
    ensures
        ({
            let lines = spec_split(listing, LINE_FEED);
            let defines = spec_directives(lines, 0, defs, Seq::empty())->Ok_0;
            let a = spec_assemble(
                lines,
                0,
                defines,
                defs,
                Assembly { out: Seq::empty(), labels: Seq::empty(), jumps: Seq::empty() },
            )->Ok_0;
            let program = spec_compile(listing, defs)->Ok_0;
            &&& program.len() == a.out.len() + 1
            &&& program[0] == ATOM_ID
            &&& jumps_apart(a.jumps, a.out.len() as int)
            &&& jumps_stand(program.skip(1), a.jumps)
            &&& forall|i: int|
                0 <= i < a.jumps.len() ==> {
                    let target = spec_label_from(a.labels, (#[trigger] a.jumps[i]).label, 0);
                    &&& target is Some
                    &&& spec_distance(a.jumps[i].address, target->0) is Some
                    &&& spec_decode_atom(program.skip(1), a.jumps[i].address - 2)
                        == spec_distance(a.jumps[i].address, target->0)->0
                }
        }),
{
    let lines = spec_split(listing, LINE_FEED);
    let defines = spec_directives(lines, 0, defs, Seq::empty())->Ok_0;
    let first = Assembly { out: Seq::empty(), labels: Seq::empty(), jumps: Seq::empty() };
    let a = spec_assemble(lines, 0, defines, defs, first)->Ok_0;
    lemma_assembled_jumps_apart(lines, 0, defines, defs, first);
    assert(jumps_within(a.jumps, a.out.len() as int));
    lemma_resolved_holds_distances(a.out, a.jumps, a.labels, 0);
    let out = spec_resolve(a.out, a.jumps, a.labels, 0)->Ok_0;
    let program = spec_compile(listing, defs)->Ok_0;
    assert(program == seq![ATOM_ID] + out);
    assert(program.skip(1) =~= out);
    assert forall|i: int| 0 <= i < a.jumps.len() implies is_jump_byte(
        out[(#[trigger] a.jumps[i]).address - 3],
    ) by {
        let at = a.jumps[i].address - 3;
        assert(!in_immediate(a.jumps, 0, at)) by {
            if in_immediate(a.jumps, 0, at) {
                let j = choose|j: int|
                    0 <= j < a.jumps.len() && (#[trigger] a.jumps[j]).address - 2 <= at
                        < a.jumps[j].address;
                if j < i {
                    assert(a.jumps[j].address + 3 <= a.jumps[i].address);
                } else if i < j {
                    assert(a.jumps[i].address + 3 <= a.jumps[j].address);
                }
            }
        }
        assert(out[at] == a.out[at]);
    }
}

/// A jump in a compiled program lands on its label.
///
/// Let a listing compile, and let an engine without fault run the compiled
/// stream with its program counter at one of the jumps to a label. If the
/// jump is taken, the step that executes it leaves the program counter at
/// the offset of the first label of that name. The offset behind the jump
/// and the label must both be addresses, and a call needs room on the
/// stack.
#[verifier::rlimit(50)]
pub proof fn lemma_compiled_jump_lands_on_label(
    listing: Seq<u8>,
    defs: Seq<DefView>,
    i: int,
    s: MachineState,
)
    requires
        spec_compile(listing, defs) is Ok,
        s.wf(),
        s.state == Runtime::Run,
        s.error == RuntimeError::NoError,
        s.program.data == spec_compile(listing, defs)->Ok_0.skip(1),
        ({
            let lines = spec_split(listing, LINE_FEED);
            let defines = spec_directives(lines, 0, defs, Seq::empty())->Ok_0;
            let a = spec_assemble(
                lines,
                0,
                defines,
                defs,
                Assembly { out: Seq::empty(), labels: Seq::empty(), jumps: Seq::empty() },
            )->Ok_0;
            &&& 0 <= i < a.jumps.len()
            &&& s.processor.prog_cnt == a.jumps[i].address - 3
            &&& a.jumps[i].address <= VMAtom::MAX
            &&& spec_label_from(a.labels, a.jumps[i].label, 0)->0 <= VMAtom::MAX
            &&& forall|op: OpCode|
                is_jump(op) && s.program.data[a.jumps[i].address - 3] == #[trigger] operand_byte(
                    op,
                    15,
                ) ==> jump_taken(s, op) && (op == OpCode::CAL ==> s.processor.stack_ptr > 0)
        }),
    ensures
        ({
            let lines = spec_split(listing, LINE_FEED);
            let defines = spec_directives(lines, 0, defs, Seq::empty())->Ok_0;
            let a = spec_assemble(
                lines,
                0,
                defines,
                defs,
                Assembly { out: Seq::empty(), labels: Seq::empty(), jumps: Seq::empty() },
            )->Ok_0;
            &&& s.step().processor.prog_cnt == spec_label_from(a.labels, a.jumps[i].label, 0)->0
            &&& s.step().error == RuntimeError::NoError
        }),
{
    let lines = spec_split(listing, LINE_FEED);
    let defines = spec_directives(lines, 0, defs, Seq::empty())->Ok_0;
    let first = Assembly { out: Seq::empty(), labels: Seq::empty(), jumps: Seq::empty() };
    let a = spec_assemble(lines, 0, defines, defs, first)->Ok_0;
    lemma_compiled_jumps_hold_distances(listing, defs);
    let jump = a.jumps[i];
    let label = spec_label_from(a.labels, jump.label, 0)->0;
    let op = choose|op: OpCode|
        is_jump(op) && s.program.data[jump.address - 3] == #[trigger] operand_byte(op, 15);
    lemma_labels_are_offsets(lines, 0, defines, defs, first);
    lemma_label_found(a.labels, jump.label, 0);
    lemma_jump_lands_on_label(s, op, label);
}

/// Assembling gives every label an offset in the stream.
pub proof fn lemma_labels_are_offsets(
    lines: Seq<Seq<u8>>,
    from: int,
    defines: Seq<DefineView>,
    defs: Seq<DefView>,
    a: Assembly,
)
    requires
        0 <= from,
        forall|k: int| 0 <= k < a.labels.len() ==> 0 <= (#[trigger] a.labels[k]).address,
        spec_assemble(lines, from, defines, defs, a) is Ok,
    ensures
        forall|k: int|
            0 <= k < spec_assemble(lines, from, defines, defs, a)->Ok_0.labels.len() ==> 0 <= (
            #[trigger] spec_assemble(lines, from, defines, defs, a)->Ok_0.labels[k]).address,
    decreases lines.len() - from,
{
    if from < lines.len() {
        let line = (from + 1) as usize;
        let item = spec_line(lines[from], line, defines, defs)->Ok_0;
        let next = spec_place(a, item, line);
        assert forall|k: int| 0 <= k < next.labels.len() implies 0 <= (
        #[trigger] next.labels[k]).address by {
            if k < a.labels.len() {
                assert(next.labels[k] == a.labels[k]);
            }
        }
        lemma_labels_are_offsets(lines, from + 1, defines, defs, next);
    }
}

/// The offset that a name is found at is that of one of the labels.
pub proof fn lemma_label_found(labels: Seq<LabelView>, name: Seq<u8>, from: int)
    requires
        0 <= from,
        spec_label_from(labels, name, from) is Some,
    ensures
        exists|k: int|
            from <= k < labels.len() && (#[trigger] labels[k]).name == name && labels[k].address
                == spec_label_from(labels, name, from)->0,
    decreases labels.len() - from,
{
    if labels[from].name != name {
        lemma_label_found(labels, name, from + 1);
    }
}

} // verus!
