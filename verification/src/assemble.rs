//! What one line of a listing assembles to: the bytes of an instruction or of
//! a call, a label that the line defines, a label that it jumps to.

use crate::atom::{atom_bytes, buffer_bytes, put_atom, put_byte, VMAtom, BUFFER_LIMIT};
use crate::compile::{
    define_views, fault, spec_parse_argument, Argument, ArgumentView, Define, DefineView,
    ListingError, ListingErrorKind, ListingFault,
};
use crate::interrupts::{def_views, DefView, FunctionView, SoftInterruptDef};
use crate::opcodes::OpCode;
use crate::text::{
    bytes_of, find, lemma_total_lower, same, same_lower, spec_find, spec_lower, spec_split,
    spec_trim, split, trim, views, BLANK, CLOSE, COLON, COMMA, DOT, EQUALS, HASH, OPEN, SEMICOLON,
};
use crate::virtmach::VirtMach;
use bytes::BytesMut;
use vstd::prelude::*;
use vstd::slice::{slice_subrange, slice_to_vec};
use vstd::string::StringSliceAdditionalSpecFns;

verus! {

/// Interrupt handlers that an instruction byte can name: table indices 0 to 14.
pub const INTERRUPT_SLOTS: usize = 15;

/// The mnemonic of an opcode, in lower case.
pub open spec fn spec_mnemonic(op: OpCode) -> &'static str {
    match op {
        OpCode::REG => "reg",
        OpCode::SET => "set",
        OpCode::LOA => "loa",
        OpCode::STO => "sto",
        OpCode::PSH => "psh",
        OpCode::POP => "pop",
        OpCode::ADD => "add",
        OpCode::SUB => "sub",
        OpCode::CAL => "cal",
        OpCode::INT => "int",
        OpCode::JMP => "jmp",
        OpCode::JPZ => "jpz",
        OpCode::JPC => "jpc",
        OpCode::JPS => "jps",
        OpCode::RET => "ret",
        OpCode::CLR => "clr",
        OpCode::INV => "inv",
        OpCode::NEG => "neg",
        OpCode::BRK => "brk",
        OpCode::HLT => "hlt",
        OpCode::END => "end",
    }
}

/// The opcode with the given number in the order of the instruction set.
pub open spec fn spec_opcode_at(i: int) -> OpCode {
    if i == 0 {
        OpCode::REG
    } else if i == 1 {
        OpCode::SET
    } else if i == 2 {
        OpCode::LOA
    } else if i == 3 {
        OpCode::STO
    } else if i == 4 {
        OpCode::PSH
    } else if i == 5 {
        OpCode::POP
    } else if i == 6 {
        OpCode::ADD
    } else if i == 7 {
        OpCode::SUB
    } else if i == 8 {
        OpCode::CAL
    } else if i == 9 {
        OpCode::INT
    } else if i == 10 {
        OpCode::JMP
    } else if i == 11 {
        OpCode::JPZ
    } else if i == 12 {
        OpCode::JPC
    } else if i == 13 {
        OpCode::JPS
    } else if i == 14 {
        OpCode::RET
    } else if i == 15 {
        OpCode::CLR
    } else if i == 16 {
        OpCode::INV
    } else if i == 17 {
        OpCode::NEG
    } else if i == 18 {
        OpCode::BRK
    } else if i == 19 {
        OpCode::HLT
    } else {
        OpCode::END
    }
}

/// The first opcode, from number `from` on, whose mnemonic is `word` in
/// lower case.
pub open spec fn spec_opcode_from(word: Seq<u8>, from: int) -> Option<OpCode>
    decreases 21 - from,
{
    if from < 0 || from >= 21 {
        None
    } else if spec_lower(word) == spec_mnemonic(spec_opcode_at(from)).spec_bytes() {
        Some(spec_opcode_at(from))
    } else {
        spec_opcode_from(word, from + 1)
    }
}

/// The opcode that `word` names, whatever the case of its letters.
pub open spec fn spec_opcode_named(word: Seq<u8>) -> Option<OpCode> {
    spec_opcode_from(word, 0)
}

/// Whether the opcode takes a register as its argument in a listing.
pub open spec fn takes_register(op: OpCode) -> bool {
    !op.spec_bare() && !takes_label(op)
}

/// Whether the opcode takes a number as its argument in a listing.
pub open spec fn takes_number(op: OpCode) -> bool {
    !op.spec_bare() && op != OpCode::REG
}

/// Whether the opcode takes a name as its argument in a listing: jumps and
/// calls that of a label, `int` that of an interrupt.
pub open spec fn takes_label(op: OpCode) -> bool {
    op == OpCode::CAL || op == OpCode::INT || op == OpCode::JMP || op == OpCode::JPZ || op
        == OpCode::JPC || op == OpCode::JPS
}

/// The instruction byte of an opcode with `nibble` as its operand.
pub open spec fn operand_byte(op: OpCode, nibble: int) -> u8 {
    (op.spec_byte() + 16 * nibble) as u8
}

/// The instruction that has the opcode work on a register, or on the
/// interrupt of that index.
pub open spec fn with_register(op: OpCode, register: int) -> Seq<u8> {
    seq![operand_byte(op, register)]
}

/// The instruction that has the opcode work on an immediate.
pub open spec fn with_immediate(op: OpCode, value: VMAtom) -> Seq<u8> {
    seq![operand_byte(op, 15)] + atom_bytes(value)
}

/// The instruction that has the opcode work on one argument of a call: a
/// register or an immediate. Other arguments give no bytes.
pub open spec fn spec_argument_bytes(op: OpCode, argument: ArgumentView) -> Seq<u8> {
    match argument {
        ArgumentView::Register(r) => with_register(op, r as int),
        ArgumentView::Atom(v) => with_immediate(op, v),
        _ => Seq::empty(),
    }
}

/// The instructions for the first `n` arguments of a list, the last of them
/// first.
pub open spec fn spec_list_bytes(op: OpCode, arguments: Seq<ArgumentView>, n: int) -> Seq<u8>
    decreases n,
{
    if n <= 0 || n > arguments.len() {
        Seq::empty()
    } else {
        spec_argument_bytes(op, arguments[n - 1]) + spec_list_bytes(op, arguments, n - 1)
    }
}

/// The views of a list of arguments, in order.
pub open spec fn argument_views(arguments: Seq<Argument>) -> Seq<ArgumentView> {
    Seq::new(arguments.len(), |i: int| arguments[i]@)
}

/// The arguments that a list separated by commas holds, each trimmed and
/// classified.
pub open spec fn spec_parse_list(list: Seq<u8>, defines: Seq<DefineView>) -> Seq<ArgumentView> {
    let pieces = spec_split(list, COMMA);
    Seq::new(pieces.len(), |i: int| spec_parse_argument(spec_trim(pieces[i]), defines))
}

/// Whether a list is the single wildcard `_`.
pub open spec fn spec_ignored(arguments: Seq<ArgumentView>) -> bool {
    arguments.len() == 1 && arguments[0] is Ignore
}

/// Why an argument cannot stand in the list of a call, if it cannot; the
/// messages name the list as that of the outputs or of the inputs.
pub open spec fn spec_argument_fault(argument: ArgumentView, output: bool) -> Option<Seq<u8>> {
    match argument {
        ArgumentView::Empty => Some(
            if output {
                "empty output argument".spec_bytes()
            } else {
                "empty input argument".spec_bytes()
            },
        ),
        ArgumentView::Error(_) => Some(
            if output {
                "malformed output argument".spec_bytes()
            } else {
                "malformed input argument".spec_bytes()
            },
        ),
        ArgumentView::Label(_) => Some(
            if output {
                "did not expect a label as output".spec_bytes()
            } else {
                "did not expect a label as input".spec_bytes()
            },
        ),
        ArgumentView::Ignore => Some(
            if output {
                "cannot ignore a single output".spec_bytes()
            } else {
                "cannot ignore a single input".spec_bytes()
            },
        ),
        _ => None,
    }
}

/// The fault of the first argument, from number `from` on, that cannot stand
/// in the list of a call.
pub open spec fn spec_list_fault(arguments: Seq<ArgumentView>, output: bool, from: int) -> Option<
    Seq<u8>,
>
    decreases arguments.len() - from,
{
    if from < 0 || from >= arguments.len() {
        None
    } else {
        match spec_argument_fault(arguments[from], output) {
            Some(cause) => Some(cause),
            None => spec_list_fault(arguments, output, from + 1),
        }
    }
}

/// Whether `written` names the function: by the function's own name, or by
/// the definition's name, a dot, and the function's name.
pub open spec fn spec_names(written: Seq<u8>, definition: Seq<u8>, function: Seq<u8>) -> bool {
    written == function || written == definition + seq![DOT] + function
}

/// The first function of a definition, from number `from` on, that
/// `written` names.
pub open spec fn spec_function_from(def: DefView, written: Seq<u8>, from: int) -> Option<
    FunctionView,
>
    decreases def.functions.len() - from,
{
    if from < 0 || from >= def.functions.len() {
        None
    } else if spec_names(written, def.name, def.functions[from].name) {
        Some(def.functions[from])
    } else {
        spec_function_from(def, written, from + 1)
    }
}

/// The function that a call resolves to, with the table index of its
/// definition.
pub struct Callee {
    pub index: usize,
    pub no: VMAtom,
    pub arguments: usize,
    pub returns: usize,
}

/// The first function that `written` names, in the first definition, from
/// number `from` on, that has one.
pub open spec fn spec_callee_from(defs: Seq<DefView>, written: Seq<u8>, from: int) -> Option<
    Callee,
>
    decreases defs.len() - from,
{
    if from < 0 || from >= defs.len() {
        None
    } else {
        match spec_function_from(defs[from], written, 0) {
            Some(function) => Some(
                Callee {
                    index: from as usize,
                    no: function.no,
                    arguments: function.arguments,
                    returns: function.returns,
                },
            ),
            None => spec_callee_from(defs, written, from + 1),
        }
    }
}

/// The table index of the last definition below `below` that has the name.
pub open spec fn spec_interrupt_below(defs: Seq<DefView>, name: Seq<u8>, below: int) -> Option<
    int,
>
    decreases below,
{
    if below <= 0 || below > defs.len() {
        None
    } else if defs[below - 1].name == name {
        Some(below - 1)
    } else {
        spec_interrupt_below(defs, name, below - 1)
    }
}

/// The mnemonic of an opcode, in lower case.
pub fn mnemonic(op: OpCode) -> (text: &'static str)
    ensures
        text == spec_mnemonic(op),
{
    match op {
        OpCode::REG => "reg",
        OpCode::SET => "set",
        OpCode::LOA => "loa",
        OpCode::STO => "sto",
        OpCode::PSH => "psh",
        OpCode::POP => "pop",
        OpCode::ADD => "add",
        OpCode::SUB => "sub",
        OpCode::CAL => "cal",
        OpCode::INT => "int",
        OpCode::JMP => "jmp",
        OpCode::JPZ => "jpz",
        OpCode::JPC => "jpc",
        OpCode::JPS => "jps",
        OpCode::RET => "ret",
        OpCode::CLR => "clr",
        OpCode::INV => "inv",
        OpCode::NEG => "neg",
        OpCode::BRK => "brk",
        OpCode::HLT => "hlt",
        OpCode::END => "end",
    }
}

/// The opcode with the given number in the order of the instruction set.
fn opcode_at(i: usize) -> (op: OpCode)
    ensures
        op == spec_opcode_at(i as int),
{
    if i == 0 {
        OpCode::REG
    } else if i == 1 {
        OpCode::SET
    } else if i == 2 {
        OpCode::LOA
    } else if i == 3 {
        OpCode::STO
    } else if i == 4 {
        OpCode::PSH
    } else if i == 5 {
        OpCode::POP
    } else if i == 6 {
        OpCode::ADD
    } else if i == 7 {
        OpCode::SUB
    } else if i == 8 {
        OpCode::CAL
    } else if i == 9 {
        OpCode::INT
    } else if i == 10 {
        OpCode::JMP
    } else if i == 11 {
        OpCode::JPZ
    } else if i == 12 {
        OpCode::JPC
    } else if i == 13 {
        OpCode::JPS
    } else if i == 14 {
        OpCode::RET
    } else if i == 15 {
        OpCode::CLR
    } else if i == 16 {
        OpCode::INV
    } else if i == 17 {
        OpCode::NEG
    } else if i == 18 {
        OpCode::BRK
    } else if i == 19 {
        OpCode::HLT
    } else {
        OpCode::END
    }
}

/// The opcode that `word` names, whatever the case of its letters.
pub fn opcode_named(word: &[u8]) -> (op: Option<OpCode>)
    ensures
        op == spec_opcode_named(word@),
{
    let mut i: usize = 0;
    while i < 21
        invariant
            i <= 21,
            spec_opcode_named(word@) == spec_opcode_from(word@, i as int),
        decreases 21 - i,
    {
        let candidate = opcode_at(i);
        if same_lower(word, mnemonic(candidate).as_bytes()) {
            return Some(candidate);
        }
        i += 1;
    }
    None
}

/// Whether `written` names the function of the definition.
fn names(written: &[u8], definition: &[u8], function: &[u8]) -> (r: bool)
    ensures
        r == spec_names(written@, definition@, function@),
{
    if same(written, function) {
        return true;
    }
    let d: usize = definition.len();
    if written.len() <= d || written.len() - d - 1 != function.len() {
        assert(written@.len() != (definition@ + seq![DOT] + function@).len());
        return false;
    }
    let ghost joined = definition@ + seq![DOT] + function@;
    let head = slice_subrange(written, 0, d);
    let tail = slice_subrange(written, d + 1, written.len());
    let matches = same(head, definition) && written[d] == DOT && same(tail, function);
    proof {
        assert(joined.subrange(0, d as int) =~= definition@);
        assert(joined[d as int] == DOT);
        assert(joined.subrange(d + 1, joined.len() as int) =~= function@);
        if matches {
            assert(written@ =~= joined);
        }
    }
    matches
}

/// The function that a call by the name `written` resolves to.
pub fn find_callee(interrupts: &[SoftInterruptDef], written: &[u8]) -> (callee: Option<Callee>)
    ensures
        callee == spec_callee_from(def_views(interrupts@), written@, 0),
{
    let mut i: usize = 0;
    while i < interrupts.len()
        invariant
            i <= interrupts@.len(),
            spec_callee_from(def_views(interrupts@), written@, 0) == spec_callee_from(
                def_views(interrupts@),
                written@,
                i as int,
            ),
        decreases interrupts@.len() - i,
    {
        let def = &interrupts[i];
        let mut j: usize = 0;
        assert(def_views(interrupts@)[i as int] == def@);
        while j < def.functions.len()
            invariant
                j <= def.functions@.len(),
                i < interrupts@.len(),
                def_views(interrupts@)[i as int] == def@,
                spec_callee_from(def_views(interrupts@), written@, 0) == spec_callee_from(
                    def_views(interrupts@),
                    written@,
                    i as int,
                ),
                spec_function_from(def@, written@, 0) == spec_function_from(
                    def@,
                    written@,
                    j as int,
                ),
            decreases def.functions@.len() - j,
        {
            let function = &def.functions[j];
            assert(def@.functions[j as int] == function@);
            if names(written, def.name.as_str().as_bytes(), function.name.as_str().as_bytes()) {
                return Some(
                    Callee {
                        index: i,
                        no: function.no,
                        arguments: function.arguments,
                        returns: function.returns,
                    },
                );
            }
            j += 1;
        }
        i += 1;
    }
    None
}

/// The table index of the last definition that has the name.
pub fn find_interrupt(interrupts: &[SoftInterruptDef], name: &[u8]) -> (index: Option<usize>)
    ensures
        index is Some == spec_interrupt_below(
            def_views(interrupts@),
            name@,
            interrupts@.len() as int,
        ) is Some,
        index is Some ==> index->0 as int == spec_interrupt_below(
            def_views(interrupts@),
            name@,
            interrupts@.len() as int,
        )->0,
{
    let mut i: usize = interrupts.len();
    while i > 0
        invariant
            i <= interrupts@.len(),
            spec_interrupt_below(def_views(interrupts@), name@, interrupts@.len() as int)
                == spec_interrupt_below(def_views(interrupts@), name@, i as int),
        decreases i,
    {
        if same(interrupts[i - 1].name.as_str().as_bytes(), name) {
            return Some(i - 1);
        }
        i -= 1;
    }
    None
}

/// The arguments that a list separated by commas holds.
pub fn parse_list(list: &[u8], defines: &Vec<Define>) -> (arguments: Vec<Argument>)
    ensures
        argument_views(arguments@) == spec_parse_list(list@, define_views(defines@)),
        arguments@.len() <= list@.len() + 1,
        registers_listed(argument_views(arguments@)),
{
    let pieces = split(list, COMMA);
    let mut arguments: Vec<Argument> = Vec::new();
    let mut i: usize = 0;
    while i < pieces.len()
        invariant
            i <= pieces@.len(),
            arguments@.len() == i,
            views(pieces@) == spec_split(list@, COMMA),
            forall|j: int|
                0 <= j < i ==> (#[trigger] arguments@[j])@ == spec_parse_argument(
                    spec_trim(pieces@[j]@),
                    define_views(defines@),
                ),
            forall|j: int|
                0 <= j < i ==> ((#[trigger] arguments@[j])@ matches ArgumentView::Register(r)
                    ==> r < 16),
        decreases pieces@.len() - i,
    {
        let argument = VirtMach::parse_argument(trim(pieces[i]), defines);
        arguments.push(argument);
        i += 1;
    }
    proof {
        let spec = spec_parse_list(list@, define_views(defines@));
        assert(views(pieces@).len() == pieces@.len());
        assert forall|j: int| 0 <= j < arguments@.len() implies argument_views(arguments@)[j]
            == spec[j] by {
            assert(views(pieces@)[j] == pieces@[j]@);
        }
        assert(argument_views(arguments@) =~= spec);
        assert forall|j: int| 0 <= j < arguments@.len() implies (#[trigger] argument_views(
            arguments@,
        )[j] matches ArgumentView::Register(r) ==> r < 16) by {
            assert(argument_views(arguments@)[j] == arguments@[j]@);
        }
    }
    arguments
}

/// Whether every register in the list is one that a listing can name.
pub open spec fn registers_listed(arguments: Seq<ArgumentView>) -> bool {
    forall|i: int|
        0 <= i < arguments.len() ==> (#[trigger] arguments[i] matches ArgumentView::Register(r)
            ==> r < 16)
}

/// A list of at most one empty argument is no list at all.
pub open spec fn spec_inputs(arguments: Seq<ArgumentView>) -> Seq<ArgumentView> {
    if arguments.len() == 1 && arguments[0] is Empty {
        Seq::empty()
    } else {
        arguments
    }
}

/// The bytes of a call to `callee` with the given inputs and outputs, or the
/// fault in them.
///
/// The counts must be those that the function declares, unless the list is
/// the wildcard; the definition must stand at a table index that an
/// instruction can name; every argument of a list that is not the wildcard
/// must be a register or an immediate, the outputs being looked at first.
/// The bytes push the inputs, the last first, then the function's number;
/// then comes the interrupt to the definition's index; then the outputs are
/// popped, the last first.
pub open spec fn spec_call_to(
    callee: Callee,
    inputs: Seq<ArgumentView>,
    outputs: Seq<ArgumentView>,
    line: usize,
) -> Result<Seq<u8>, ListingFault> {
    if !spec_ignored(inputs) && callee.arguments != inputs.len() {
        Err(fault(ListingErrorKind::MalformedFunction, line, "wrong number of arguments"))
    } else if !spec_ignored(outputs) && callee.returns != outputs.len() {
        Err(fault(ListingErrorKind::MalformedFunction, line, "wrong number of return values"))
    } else if callee.index >= INTERRUPT_SLOTS {
        Err(fault(ListingErrorKind::IllegalArgument, line, "out of range"))
    } else if !spec_ignored(outputs) && spec_list_fault(outputs, true, 0) is Some {
        Err(
            ListingFault {
                kind: ListingErrorKind::MalformedFunction,
                line,
                cause: spec_list_fault(outputs, true, 0)->0,
            },
        )
    } else if !spec_ignored(inputs) && spec_list_fault(inputs, false, 0) is Some {
        Err(
            ListingFault {
                kind: ListingErrorKind::MalformedFunction,
                line,
                cause: spec_list_fault(inputs, false, 0)->0,
            },
        )
    } else {
        Ok(
            (if spec_ignored(inputs) {
                Seq::empty()
            } else {
                spec_list_bytes(OpCode::PSH, inputs, inputs.len() as int)
            }) + with_immediate(OpCode::PSH, callee.no) + with_register(
                OpCode::INT,
                callee.index as int,
            ) + (if spec_ignored(outputs) {
                Seq::empty()
            } else {
                spec_list_bytes(OpCode::POP, outputs, outputs.len() as int)
            }),
        )
    }
}

/// The bytes of a call line `[outputs =] name(inputs)`, or the fault in it.
///
/// `text` is the line without comment and outer white space; it holds a `(`
/// and ends in `)`. The inputs stand between the first `(` and that `)`.
/// Before the `(`, what follows the first `=` is the name and what precedes
/// it are the outputs; without `=` all of it is the name.
pub open spec fn spec_call(
    text: Seq<u8>,
    line: usize,
    defines: Seq<DefineView>,
    defs: Seq<DefView>,
) -> Result<Seq<u8>, ListingFault> {
    let open = spec_find(text, OPEN);
    let head = spec_split(text.take(open), EQUALS);
    let written = spec_trim(
        if head.len() >= 2 {
            head[1]
        } else {
            head[0]
        },
    );
    let outputs = if head.len() >= 2 {
        spec_parse_list(spec_trim(head[0]), defines)
    } else {
        Seq::empty()
    };
    let inputs = spec_inputs(
        spec_parse_list(spec_trim(text.subrange(open + 1, text.len() - 1)), defines),
    );
    match spec_callee_from(defs, written, 0) {
        None => Err(
            ListingFault { kind: ListingErrorKind::UnknownFunction, line, cause: written },
        ),
        Some(callee) => spec_call_to(callee, inputs, outputs, line),
    }
}

/// What one line adds to a program: bytes, a label that it defines at their
/// start, and a label whose distance belongs into their last two bytes.
pub struct LineItem {
    pub bytes: Seq<u8>,
    pub label: Option<Seq<u8>>,
    pub jump: Option<Seq<u8>>,
}

/// A line that adds bytes and nothing else.
pub open spec fn plain(bytes: Seq<u8>) -> LineItem {
    LineItem { bytes, label: None, jump: None }
}

/// The first piece from number `from` on that is more than white space,
/// trimmed; nothing where there is none.
pub open spec fn spec_first_word(pieces: Seq<Seq<u8>>, from: int) -> Seq<u8>
    decreases pieces.len() - from,
{
    if from < 0 || from >= pieces.len() {
        Seq::empty()
    } else if spec_trim(pieces[from]).len() > 0 {
        spec_trim(pieces[from])
    } else {
        spec_first_word(pieces, from + 1)
    }
}

/// What an opcode with its argument adds to a program, or the fault in the
/// pair.
///
/// A register goes into the high nibble. An immediate follows the byte with
/// the immediate marker; that of `int` is a table index and goes into the
/// high nibble itself. A name after `int` is that of a definition and gives
/// its table index; after a jump or call it is a label, for which two zero
/// bytes hold the place. An opcode without operand stands alone.
pub open spec fn spec_operation(
    op: OpCode,
    argument: ArgumentView,
    line: usize,
    defs: Seq<DefView>,
) -> Result<LineItem, ListingFault> {
    match argument {
        ArgumentView::Register(r) => if takes_register(op) {
            Ok(plain(with_register(op, r as int)))
        } else {
            Err(fault(ListingErrorKind::IllegalArgument, line, "did not expect a register"))
        },
        ArgumentView::Atom(v) => if !takes_number(op) {
            Err(fault(ListingErrorKind::IllegalArgument, line, "did not expect a number"))
        } else if op == OpCode::INT {
            if 0 <= v < INTERRUPT_SLOTS {
                Ok(plain(with_register(op, v as int)))
            } else {
                Err(fault(ListingErrorKind::IllegalArgument, line, "out of range"))
            }
        } else {
            Ok(plain(with_immediate(op, v)))
        },
        ArgumentView::Label(name) => if !takes_label(op) {
            Err(fault(ListingErrorKind::IllegalArgument, line, "did not expect a label"))
        } else if op == OpCode::INT {
            match spec_interrupt_below(defs, name, defs.len() as int) {
                Some(index) => if index < INTERRUPT_SLOTS {
                    Ok(plain(with_register(op, index)))
                } else {
                    Err(fault(ListingErrorKind::IllegalArgument, line, "out of range"))
                },
                None => Err(
                    ListingFault { kind: ListingErrorKind::UnknownInterrupt, line, cause: name },
                ),
            }
        } else {
            Ok(LineItem { bytes: with_immediate(op, 0), label: None, jump: Some(name) })
        },
        ArgumentView::Empty => if op.spec_bare() {
            Ok(plain(seq![op.spec_byte()]))
        } else {
            Err(fault(ListingErrorKind::IllegalArgument, line, "missing argument"))
        },
        ArgumentView::Ignore => Err(
            fault(ListingErrorKind::IllegalArgument, line, "unexpected _ argument"),
        ),
        ArgumentView::Error(reason) => Err(
            ListingFault { kind: ListingErrorKind::IllegalArgument, line, cause: reason },
        ),
    }
}

/// What an instruction line `MNEMONIC [ARG]` adds to a program, or the fault
/// in it. The mnemonic is what stands before the first blank; the argument
/// is the first word after it. A line without mnemonic adds nothing.
pub open spec fn spec_instruction(
    text: Seq<u8>,
    line: usize,
    defines: Seq<DefineView>,
    defs: Seq<DefView>,
) -> Result<LineItem, ListingFault> {
    let pieces = spec_split(text, BLANK);
    let word = spec_trim(pieces[0]);
    if word.len() == 0 {
        Ok(plain(Seq::empty()))
    } else {
        match spec_opcode_named(word) {
            None => Err(ListingFault { kind: ListingErrorKind::IllegalOp, line, cause: word }),
            Some(op) => spec_operation(
                op,
                spec_parse_argument(spec_first_word(pieces, 1), defines),
                line,
                defs,
            ),
        }
    }
}

/// The part of a line before its comment, which a `;` opens.
pub open spec fn spec_strip_comment(line: Seq<u8>) -> Seq<u8> {
    line.take(spec_find(line, SEMICOLON))
}

/// What a line of the listing adds to a program, or the fault in it.
///
/// The line is read without its comment and outer white space. A directive,
/// which starts with `#`, adds nothing. A line that ends in `:` defines the
/// label before its first `:`. A line with a `(` that ends in `)` is a call.
/// Any other line is an instruction.
#[verifier::opaque]
pub open spec fn spec_line(
    line_text: Seq<u8>,
    line: usize,
    defines: Seq<DefineView>,
    defs: Seq<DefView>,
) -> Result<LineItem, ListingFault> {
    let text = spec_trim(spec_strip_comment(spec_trim(line_text)));
    if text.len() > 0 && text[0] == HASH {
        Ok(plain(Seq::empty()))
    } else if text.len() > 0 && text.last() == COLON {
        Ok(
            LineItem {
                bytes: Seq::empty(),
                label: Some(spec_trim(text.take(spec_find(text, COLON)))),
                jump: None,
            },
        )
    } else if text.len() > 0 && spec_find(text, OPEN) < text.len() && text.last() == CLOSE {
        match spec_call(text, line, defines, defs) {
            Ok(bytes) => Ok(plain(bytes)),
            Err(f) => Err(f),
        }
    } else {
        spec_instruction(text, line, defines, defs)
    }
}

/// The labels that a line defines and refers to.
pub struct LineMarks {
    pub label: Option<Vec<u8>>,
    pub jump: Option<Vec<u8>>,
}

impl LineMarks {
    /// Whether the marks are those of the item.
    pub open spec fn of(self, item: LineItem) -> bool {
        &&& self.label is Some == item.label is Some
        &&& self.label is Some ==> self.label->0@ == item.label->0
        &&& self.jump is Some == item.jump is Some
        &&& self.jump is Some ==> self.jump->0@ == item.jump->0
    }
}

/// Whether the opcode is a jump or a call: an opcode that takes a label
/// for the distance to it.
pub open spec fn is_jump(op: OpCode) -> bool {
    takes_label(op) && op != OpCode::INT
}

/// Whether the byte is that of a jump or call with the immediate marker.
pub open spec fn is_jump_byte(byte: u8) -> bool {
    exists|op: OpCode| is_jump(op) && byte == #[trigger] operand_byte(op, 15)
}

/// A line that jumps to a label adds the three bytes of the jump and no
/// others: the byte of a jump or call with the immediate marker, and two
/// bytes that hold the place of the distance.
pub proof fn lemma_jump_has_immediate(
    line_text: Seq<u8>,
    line: usize,
    defines: Seq<DefineView>,
    defs: Seq<DefView>,
)
    ensures
        spec_line(line_text, line, defines, defs) matches Ok(item) ==> (item.jump is Some ==> {
            &&& item.bytes.len() == 3
            &&& is_jump_byte(item.bytes[0])
        }),
{
    reveal(spec_line);
    let tried = spec_line(line_text, line, defines, defs);
    if tried is Ok && tried->Ok_0.jump is Some {
        let item = tried->Ok_0;
        let text = spec_trim(spec_strip_comment(spec_trim(line_text)));
        let pieces = spec_split(text, BLANK);
        let op = spec_opcode_named(spec_trim(pieces[0]))->0;
        assert(item == spec_instruction(text, line, defines, defs)->Ok_0);
        assert(is_jump(op) && item.bytes[0] == operand_byte(op, 15));
    }
}

proof fn lemma_list_bytes_len(op: OpCode, arguments: Seq<ArgumentView>, n: int)
    ensures
        spec_list_bytes(op, arguments, n).len() <= 3 * n || n < 0,
    decreases n,
{
    if 0 < n <= arguments.len() {
        lemma_list_bytes_len(op, arguments, n - 1);
    }
}

/// The part of a line before its comment.
pub fn strip_comment(line: &[u8]) -> (text: &[u8])
    ensures
        text@ == spec_strip_comment(line@),
        text@.len() <= line@.len(),
{
    let cut: usize = find(line, SEMICOLON);
    slice_subrange(line, 0, cut)
}

/// Why the first argument that cannot stand in the list of a call cannot.
fn list_fault(arguments: &Vec<Argument>, output: bool) -> (cause: Option<Vec<u8>>)
    ensures
        cause is Some == spec_list_fault(argument_views(arguments@), output, 0) is Some,
        cause is Some ==> cause->0@ == spec_list_fault(argument_views(arguments@), output, 0)->0,
{
    let mut i: usize = 0;
    while i < arguments.len()
        invariant
            i <= arguments@.len(),
            spec_list_fault(argument_views(arguments@), output, 0) == spec_list_fault(
                argument_views(arguments@),
                output,
                i as int,
            ),
        decreases arguments@.len() - i,
    {
        assert(argument_views(arguments@)[i as int] == arguments@[i as int]@);
        match &arguments[i] {
            Argument::Empty => {
                return Some(
                    bytes_of(
                        if output {
                            "empty output argument"
                        } else {
                            "empty input argument"
                        },
                    ),
                );
            },
            Argument::Error(_) => {
                return Some(
                    bytes_of(
                        if output {
                            "malformed output argument"
                        } else {
                            "malformed input argument"
                        },
                    ),
                );
            },
            Argument::Label(_) => {
                return Some(
                    bytes_of(
                        if output {
                            "did not expect a label as output"
                        } else {
                            "did not expect a label as input"
                        },
                    ),
                );
            },
            Argument::Ignore => {
                return Some(
                    bytes_of(
                        if output {
                            "cannot ignore a single output"
                        } else {
                            "cannot ignore a single input"
                        },
                    ),
                );
            },
            _ => {},
        }
        i += 1;
    }
    None
}

/// Appends the instructions for the arguments of a list, the last first.
fn emit_list(dest: &mut BytesMut, op: OpCode, arguments: &Vec<Argument>)
    requires
        !op.spec_bare(),
        registers_listed(argument_views(arguments@)),
        buffer_bytes(*old(dest)).len() + 3 * arguments@.len() <= BUFFER_LIMIT,
    ensures
        buffer_bytes(*final(dest)) == buffer_bytes(*old(dest)) + spec_list_bytes(
            op,
            argument_views(arguments@),
            arguments@.len() as int,
        ),
{
    let ghost start = buffer_bytes(*dest);
    let ghost list = argument_views(arguments@);
    let mut i: usize = arguments.len();
    while i > 0
        invariant
            i <= arguments@.len(),
            !op.spec_bare(),
            list == argument_views(arguments@),
            registers_listed(list),
            start.len() + 3 * arguments@.len() <= BUFFER_LIMIT,
            buffer_bytes(*dest).len() <= start.len() + 3 * (arguments@.len() - i),
            buffer_bytes(*dest) + spec_list_bytes(op, list, i as int) == start + spec_list_bytes(
                op,
                list,
                arguments@.len() as int,
            ),
        decreases i,
    {
        let ghost before = buffer_bytes(*dest);
        let ghost rest = spec_list_bytes(op, list, i - 1);
        assert(list[i - 1] == arguments@[i - 1]@);
        match &arguments[i - 1] {
            Argument::Register(r) => {
                put_byte(dest, op.byte() + 16 * *r);
                assert(buffer_bytes(*dest) + rest =~= before + (with_register(op, *r as int)
                    + rest));
            },
            Argument::Atom(v) => {
                put_byte(dest, op.byte() + 240);
                put_atom(dest, *v);
                assert(buffer_bytes(*dest) + rest =~= before + (with_immediate(op, *v) + rest));
            },
            _ => {
                assert(buffer_bytes(*dest) + rest =~= before + (Seq::<u8>::empty() + rest));
            },
        }
        i -= 1;
    }
    assert(buffer_bytes(*dest) + Seq::<u8>::empty() =~= buffer_bytes(*dest));
}

/// Whether a list is the single wildcard `_`.
fn ignored(arguments: &Vec<Argument>) -> (r: bool)
    ensures
        r == spec_ignored(argument_views(arguments@)),
{
    if arguments.len() == 1 {
        assert(argument_views(arguments@)[0] == arguments@[0]@);
        match &arguments[0] {
            Argument::Ignore => true,
            _ => false,
        }
    } else {
        false
    }
}

/// Appends the bytes of a call to `callee`, or reports the fault in it.
#[verifier::rlimit(50)]
pub(crate) fn emit_call(
    dest: &mut BytesMut,
    callee: Callee,
    inputs: &Vec<Argument>,
    outputs: &Vec<Argument>,
    line: usize,
) -> (res: Result<(), ListingError>)
    requires
        registers_listed(argument_views(inputs@)),
        registers_listed(argument_views(outputs@)),
        buffer_bytes(*old(dest)).len() + 3 * inputs@.len() + 3 * outputs@.len() + 4
            <= BUFFER_LIMIT,
    ensures
        match spec_call_to(callee, argument_views(inputs@), argument_views(outputs@), line) {
            Ok(bytes) => res is Ok && buffer_bytes(*final(dest)) == buffer_bytes(*old(dest))
                + bytes && bytes.len() <= 3 * inputs@.len() + 3 * outputs@.len() + 4,
            Err(f) => res is Err && res->Err_0@ == f,
        },
{
    let ghost start = buffer_bytes(*dest);
    let ghost ins = argument_views(inputs@);
    let ghost outs = argument_views(outputs@);
    let ignore_inputs = ignored(inputs);
    let ignore_outputs = ignored(outputs);
    if !ignore_inputs && callee.arguments != inputs.len() {
        return Err(ListingError::MalformedFunction(line, bytes_of("wrong number of arguments")));
    }
    if !ignore_outputs && callee.returns != outputs.len() {
        return Err(
            ListingError::MalformedFunction(line, bytes_of("wrong number of return values")),
        );
    }
    if callee.index >= INTERRUPT_SLOTS {
        return Err(ListingError::IllegalArgument(line, bytes_of("out of range")));
    }
    if !ignore_outputs {
        match list_fault(outputs, true) {
            Some(cause) => {
                return Err(ListingError::MalformedFunction(line, cause));
            },
            None => {},
        }
    }
    if !ignore_inputs {
        match list_fault(inputs, false) {
            Some(cause) => {
                return Err(ListingError::MalformedFunction(line, cause));
            },
            None => {},
        }
    }
    proof {
        lemma_list_bytes_len(OpCode::PSH, ins, ins.len() as int);
        lemma_list_bytes_len(OpCode::POP, outs, outs.len() as int);
    }
    if !ignore_inputs {
        emit_list(dest, OpCode::PSH, inputs);
    }
    let ghost pushed = buffer_bytes(*dest);
    put_byte(dest, OpCode::PSH.byte() + 240);
    put_atom(dest, callee.no);
    put_byte(dest, OpCode::INT.byte() + 16 * (callee.index as u8));
    let ghost called = buffer_bytes(*dest);
    assert(called =~= pushed + with_immediate(OpCode::PSH, callee.no) + with_register(
        OpCode::INT,
        callee.index as int,
    ));
    if !ignore_outputs {
        emit_list(dest, OpCode::POP, outputs);
    }
    proof {
        let bytes = spec_call_to(callee, ins, outs, line)->Ok_0;
        assert(buffer_bytes(*dest) =~= start + bytes);
    }
    Ok(())
}

/// Appends the bytes of a call line, or reports the fault in it.
#[verifier::rlimit(50)]
pub(crate) fn assemble_call(
    dest: &mut BytesMut,
    text: &[u8],
    line: usize,
    defines: &Vec<Define>,
    interrupts: &[SoftInterruptDef],
) -> (res: Result<(), ListingError>)
    requires
        spec_find(text@, OPEN) < text@.len(),
        text@.last() == CLOSE,
        buffer_bytes(*old(dest)).len() + 4 * (text@.len() + 1) <= BUFFER_LIMIT,
    ensures
        match spec_call(text@, line, define_views(defines@), def_views(interrupts@)) {
            Ok(bytes) => res is Ok && buffer_bytes(*final(dest)) == buffer_bytes(*old(dest))
                + bytes && bytes.len() <= 4 * (text@.len() + 1),
            Err(f) => res is Err && res->Err_0@ == f,
        },
{
    let open: usize = find(text, OPEN);
    let before = slice_subrange(text, 0, open);
    let head = split(before, EQUALS);
    let inside = trim(slice_subrange(text, open + 1, text.len() - 1));
    assert(views(head@)[0] == head@[0]@);
    let parsed = parse_list(inside, defines);
    let inputs = if parsed.len() == 1 && is_empty(&parsed[0]) {
        assert(argument_views(parsed@)[0] == parsed@[0]@);
        Vec::new()
    } else {
        assert(parsed@.len() == 1 ==> argument_views(parsed@)[0] == parsed@[0]@);
        parsed
    };
    assert(argument_views(inputs@) =~= spec_inputs(
        spec_parse_list(
            spec_trim(text@.subrange(open + 1, text@.len() - 1)),
            define_views(defines@),
        ),
    ));
    let written: &[u8];
    let outputs: Vec<Argument>;
    if head.len() >= 2 {
        assert(views(head@)[1] == head@[1]@);
        proof {
            lemma_total_lower(views(head@), 0);
        }
        written = trim(head[1]);
        outputs = parse_list(trim(head[0]), defines);
    } else {
        written = trim(head[0]);
        outputs = Vec::new();
        assert(argument_views(outputs@) =~= Seq::<ArgumentView>::empty());
    }
    match find_callee(interrupts, written) {
        None => Err(ListingError::UnknownFunction(line, slice_to_vec(written))),
        Some(callee) => emit_call(dest, callee, &inputs, &outputs, line),
    }
}

/// Whether the argument is `Empty`.
fn is_empty(argument: &Argument) -> (r: bool)
    ensures
        r == (argument@ is Empty),
{
    match argument {
        Argument::Empty => true,
        _ => false,
    }
}

/// Whether the opcode takes a name as its argument in a listing.
pub fn accepts_label(op: OpCode) -> (r: bool)
    ensures
        r == takes_label(op),
{
    match op {
        OpCode::CAL | OpCode::INT | OpCode::JMP | OpCode::JPZ | OpCode::JPC | OpCode::JPS => true,
        _ => false,
    }
}

/// Whether the opcode is `int`.
fn is_interrupt(op: OpCode) -> (r: bool)
    ensures
        r == (op == OpCode::INT),
{
    match op {
        OpCode::INT => true,
        _ => false,
    }
}

/// Whether the opcode is `reg`.
fn is_select(op: OpCode) -> (r: bool)
    ensures
        r == (op == OpCode::REG),
{
    match op {
        OpCode::REG => true,
        _ => false,
    }
}

/// Appends what an opcode with its argument adds to a program and returns
/// the label that the instruction jumps to, if it names one; or reports the
/// fault in the pair.
#[verifier::rlimit(50)]
pub(crate) fn emit_operation(
    dest: &mut BytesMut,
    op: OpCode,
    argument: Argument,
    line: usize,
    interrupts: &[SoftInterruptDef],
) -> (res: Result<Option<Vec<u8>>, ListingError>)
    requires
        argument@ matches ArgumentView::Register(r) ==> r < 16,
        buffer_bytes(*old(dest)).len() + 3 <= BUFFER_LIMIT,
    ensures
        match spec_operation(op, argument@, line, def_views(interrupts@)) {
            Ok(item) => {
                &&& res is Ok
                &&& buffer_bytes(*final(dest)) == buffer_bytes(*old(dest)) + item.bytes
                &&& item.bytes.len() <= 3
                &&& item.label is None
                &&& res->Ok_0 is Some == item.jump is Some
                &&& res->Ok_0 is Some ==> res->Ok_0->0@ == item.jump->0
            },
            Err(f) => res is Err && res->Err_0@ == f,
        },
{
    let ghost start = buffer_bytes(*dest);
    let bare = op.bare();
    let label = accepts_label(op);
    match argument {
        Argument::Register(r) => {
            if bare || label {
                Err(ListingError::IllegalArgument(line, bytes_of("did not expect a register")))
            } else {
                put_byte(dest, op.byte() + 16 * r);
                assert(buffer_bytes(*dest) =~= start + with_register(op, r as int));
                Ok(None)
            }
        },
        Argument::Atom(v) => {
            if bare || is_select(op) {
                Err(ListingError::IllegalArgument(line, bytes_of("did not expect a number")))
            } else if is_interrupt(op) {
                if 0 <= v && v < 15 {
                    put_byte(dest, op.byte() + 16 * (v as u8));
                    assert(buffer_bytes(*dest) =~= start + with_register(op, v as int));
                    Ok(None)
                } else {
                    Err(ListingError::IllegalArgument(line, bytes_of("out of range")))
                }
            } else {
                put_byte(dest, op.byte() + 240);
                put_atom(dest, v);
                assert(buffer_bytes(*dest) =~= start + with_immediate(op, v));
                Ok(None)
            }
        },
        Argument::Label(name) => {
            if !label {
                Err(ListingError::IllegalArgument(line, bytes_of("did not expect a label")))
            } else if is_interrupt(op) {
                match find_interrupt(interrupts, name.as_slice()) {
                    Some(index) => {
                        if index < INTERRUPT_SLOTS {
                            put_byte(dest, op.byte() + 16 * (index as u8));
                            assert(buffer_bytes(*dest) =~= start + with_register(
                                op,
                                index as int,
                            ));
                            Ok(None)
                        } else {
                            Err(ListingError::IllegalArgument(line, bytes_of("out of range")))
                        }
                    },
                    None => Err(ListingError::UnknownInterrupt(line, name)),
                }
            } else {
                put_byte(dest, op.byte() + 240);
                put_atom(dest, 0);
                assert(buffer_bytes(*dest) =~= start + with_immediate(op, 0));
                Ok(Some(name))
            }
        },
        Argument::Empty => {
            if bare {
                put_byte(dest, op.byte());
                assert(buffer_bytes(*dest) =~= start + seq![op.spec_byte()]);
                Ok(None)
            } else {
                Err(ListingError::IllegalArgument(line, bytes_of("missing argument")))
            }
        },
        Argument::Ignore => Err(
            ListingError::IllegalArgument(line, bytes_of("unexpected _ argument")),
        ),
        Argument::Error(reason) => Err(ListingError::IllegalArgument(line, reason)),
    }
}

/// The first piece from number `from` on that is more than white space,
/// trimmed; nothing where there is none.
fn first_word<'a>(pieces: &Vec<&'a [u8]>, from: usize) -> (word: &'a [u8])
    requires
        pieces@.len() > 0,
    ensures
        word@ == spec_first_word(views(pieces@), from as int),
{
    let mut i: usize = from;
    while i < pieces.len()
        invariant
            from <= i,
            spec_first_word(views(pieces@), from as int) == spec_first_word(
                views(pieces@),
                i as int,
            ),
        decreases pieces@.len() - i,
    {
        assert(views(pieces@)[i as int] == pieces@[i as int]@);
        let word = trim(pieces[i]);
        if word.len() > 0 {
            return word;
        }
        i += 1;
    }
    let nothing = slice_subrange(pieces[0], 0, 0);
    assert(nothing@ =~= Seq::<u8>::empty());
    nothing
}

/// Appends what an instruction line adds to a program and returns the label
/// that it jumps to, if it names one; or reports the fault in it.
#[verifier::rlimit(50)]
pub(crate) fn assemble_instruction(
    dest: &mut BytesMut,
    text: &[u8],
    line: usize,
    defines: &Vec<Define>,
    interrupts: &[SoftInterruptDef],
) -> (res: Result<Option<Vec<u8>>, ListingError>)
    requires
        buffer_bytes(*old(dest)).len() + 3 <= BUFFER_LIMIT,
    ensures
        match spec_instruction(text@, line, define_views(defines@), def_views(interrupts@)) {
            Ok(item) => {
                &&& res is Ok
                &&& buffer_bytes(*final(dest)) == buffer_bytes(*old(dest)) + item.bytes
                &&& item.bytes.len() <= 3
                &&& item.label is None
                &&& res->Ok_0 is Some == item.jump is Some
                &&& res->Ok_0 is Some ==> res->Ok_0->0@ == item.jump->0
            },
            Err(f) => res is Err && res->Err_0@ == f,
        },
{
    let pieces = split(text, BLANK);
    assert(views(pieces@)[0] == pieces@[0]@);
    let word = trim(pieces[0]);
    if word.len() == 0 {
        assert(buffer_bytes(*dest) =~= buffer_bytes(*dest) + Seq::<u8>::empty());
        return Ok(None);
    }
    match opcode_named(word) {
        None => Err(ListingError::IllegalOp(line, slice_to_vec(word))),
        Some(op) => {
            let argument = VirtMach::parse_argument(first_word(&pieces, 1), defines);
            emit_operation(dest, op, argument, line, interrupts)
        },
    }
}

/// Appends what a line of the listing adds to a program and returns the
/// labels that it defines and refers to; or reports the fault in it.
#[verifier::rlimit(50)]
pub(crate) fn assemble_line(
    dest: &mut BytesMut,
    line_text: &[u8],
    line: usize,
    defines: &Vec<Define>,
    interrupts: &[SoftInterruptDef],
) -> (res: Result<LineMarks, ListingError>)
    requires
        buffer_bytes(*old(dest)).len() + 4 * (line_text@.len() + 1) <= BUFFER_LIMIT,
    ensures
        match spec_line(line_text@, line, define_views(defines@), def_views(interrupts@)) {
            Ok(item) => {
                &&& res is Ok
                &&& buffer_bytes(*final(dest)) == buffer_bytes(*old(dest)) + item.bytes
                &&& item.bytes.len() <= 4 * (line_text@.len() + 1)
                &&& res->Ok_0.of(item)
            },
            Err(f) => res is Err && res->Err_0@ == f,
        },
{
    reveal(spec_line);
    let text = trim(strip_comment(trim(line_text)));
    let n: usize = text.len();
    if n > 0 && text[0] == HASH {
        assert(buffer_bytes(*dest) =~= buffer_bytes(*dest) + Seq::<u8>::empty());
        return Ok(LineMarks { label: None, jump: None });
    }
    if n > 0 && text[n - 1] == COLON {
        let colon: usize = find(text, COLON);
        let name = trim(slice_subrange(text, 0, colon));
        assert(buffer_bytes(*dest) =~= buffer_bytes(*dest) + Seq::<u8>::empty());
        return Ok(LineMarks { label: Some(slice_to_vec(name)), jump: None });
    }
    if n > 0 && text[n - 1] == CLOSE && find(text, OPEN) < n {
        match assemble_call(dest, text, line, defines, interrupts) {
            Ok(()) => Ok(LineMarks { label: None, jump: None }),
            Err(e) => Err(e),
        }
    } else {
        match assemble_instruction(dest, text, line, defines, interrupts) {
            Ok(jump) => Ok(LineMarks { label: None, jump }),
            Err(e) => Err(e),
        }
    }
}

} // verus!
