//! Soft interrupts: the definitions that the assembler resolves calls with,
//! and the handler interface that the engine dispatches to.

pub mod dummy;
pub mod math;
pub mod proc;
pub mod random;

pub use dummy::Interrupt as Dummy;
pub use math::Interrupt as Math;
pub use proc::Interrupt as Proc;
pub use random::Interrupt as Random;

use crate::atom::VMAtom;
use crate::text::{
    parse_within, spec_parse_within, spec_split, spec_trim, split, trim, utf8, views, COMMA,
    LINE_FEED,
};
use crate::virtmach::{MachineState, VirtMach};
use vstd::prelude::*;
use vstd::string::StringSliceAdditionalSpecFns;
use vstd::utf8::{encode_utf8, valid_utf8};

verus! {

/// One function of a soft interrupt: the number that selects it at run time,
/// its name, and how many values it takes from and leaves on the stack.
#[derive(Debug, Clone, PartialEq, Eq)]
pub struct SoftInterruptFunction {
    pub no: VMAtom,
    pub name: String,
    pub arguments: usize,
    pub returns: usize,
    pub help: String,
}

/// A named table of functions. Its place in the list handed to the assembler
/// is the index by which the engine finds the handler.
#[derive(Debug, Clone, PartialEq, Eq)]
pub struct SoftInterruptDef {
    pub name: String,
    pub functions: Vec<SoftInterruptFunction>,
}

/// What a function definition is to the assembler: the name as bytes.
pub struct FunctionView {
    pub no: VMAtom,
    pub name: Seq<u8>,
    pub arguments: usize,
    pub returns: usize,
}

/// What an interrupt definition is to the assembler.
pub struct DefView {
    pub name: Seq<u8>,
    pub functions: Seq<FunctionView>,
}

impl View for SoftInterruptFunction {
    type V = FunctionView;

    open spec fn view(&self) -> FunctionView {
        FunctionView {
            no: self.no,
            name: encode_utf8(self.name@),
            arguments: self.arguments,
            returns: self.returns,
        }
    }
}

impl View for SoftInterruptDef {
    type V = DefView;

    open spec fn view(&self) -> DefView {
        DefView {
            name: encode_utf8(self.name@),
            functions: Seq::new(self.functions@.len(), |i: int| self.functions@[i]@),
        }
    }
}

/// The views of a list of definitions, in order.
pub open spec fn def_views(defs: Seq<SoftInterruptDef>) -> Seq<DefView> {
    Seq::new(defs.len(), |i: int| defs[i]@)
}

/// A handler of soft interrupts. The engine calls the handler at the table
/// index that an `int` instruction names and gives it the whole engine: the
/// handler takes its arguments from the stack, leaves its results there, and
/// reports failure through the engine's fault field.
pub trait SoftInterrupt {
    /// Whether a call may turn the engine state `before` into `after`. What
    /// a handler can do must not depend on what earlier calls did to the
    /// handler itself. A handler that says nothing may do anything.
    open spec fn effect(&self, before: MachineState, after: MachineState) -> bool {
        true
    }

    /// The handler's name.
    fn name(&self) -> &str;

    /// Serves one interrupt.
    fn call(&mut self, vm: &mut VirtMach)
        requires
            old(vm).wf(),
        ensures
            final(vm).wf(),
            old(self).effect(old(vm)@, final(vm)@),
            forall|before: MachineState, after: MachineState|
                #[trigger] final(self).effect(before, after) == old(self).effect(before, after),
    ;
}

/// Largest count of arguments or results that a table can declare.
pub const MAX_COUNT: usize = 999_999;

/// What a row of a table is.
pub enum RowView {
    /// Nothing but white space.
    Blank,
    /// A function.
    Function(FunctionView),
    /// Anything else.
    Malformed,
}

/// The function that a row of a table declares.
///
/// A row holds four fields between commas: the function's number, which is
/// an atom, its name, and the counts of its arguments and of its results.
/// White space around a field does not count, and one more comma may end
/// the row.
pub open spec fn spec_row(row: Seq<u8>) -> RowView {
    let fields = spec_split(spec_trim(row), COMMA);
    if spec_trim(row).len() == 0 {
        RowView::Blank
    } else if fields.len() == 4 || (fields.len() == 5 && spec_trim(fields[4]).len() == 0) {
        let no = spec_parse_within(spec_trim(fields[0]), VMAtom::MIN as int, VMAtom::MAX as int);
        let arguments = spec_parse_within(spec_trim(fields[2]), 0, MAX_COUNT as int);
        let results = spec_parse_within(spec_trim(fields[3]), 0, MAX_COUNT as int);
        if no is Some && arguments is Some && results is Some && valid_utf8(
            spec_trim(fields[1]),
        ) {
            RowView::Function(
                FunctionView {
                    no: no->0 as VMAtom,
                    name: spec_trim(fields[1]),
                    arguments: arguments->0 as usize,
                    returns: results->0 as usize,
                },
            )
        } else {
            RowView::Malformed
        }
    } else {
        RowView::Malformed
    }
}

/// The functions that the rows from number `from` on declare, in order,
/// behind those found so far; nothing where a row is malformed.
pub open spec fn spec_rows(rows: Seq<Seq<u8>>, from: int, found: Seq<FunctionView>) -> Option<
    Seq<FunctionView>,
>
    decreases rows.len() - from,
{
    if from < 0 || from >= rows.len() {
        Some(found)
    } else {
        match spec_row(rows[from]) {
            RowView::Blank => spec_rows(rows, from + 1, found),
            RowView::Function(f) => spec_rows(rows, from + 1, found.push(f)),
            RowView::Malformed => None,
        }
    }
}

/// The definition that a name and a table of functions give: one function
/// to a line of the table.
pub open spec fn spec_from_table(name: Seq<u8>, table: Seq<u8>) -> Option<DefView> {
    match spec_rows(spec_split(table, LINE_FEED), 0, Seq::empty()) {
        Some(functions) => Some(DefView { name, functions }),
        None => None,
    }
}

/// What a row of a table holds.
pub enum Row {
    Blank,
    Function(SoftInterruptFunction),
    Malformed,
}

impl View for Row {
    type V = RowView;

    open spec fn view(&self) -> RowView {
        match self {
            Row::Blank => RowView::Blank,
            Row::Function(f) => RowView::Function(f@),
            Row::Malformed => RowView::Malformed,
        }
    }
}

/// Reads one row of a table.
#[verifier::rlimit(50)]
pub fn read_row(row: &[u8]) -> (read: Row)
    ensures
        read@ == spec_row(row@),
{
    let text = trim(row);
    if text.len() == 0 {
        return Row::Blank;
    }
    let fields = split(text, COMMA);
    if fields.len() == 5 {
        assert(views(fields@)[4] == fields@[4]@);
        if trim(fields[4]).len() != 0 {
            return Row::Malformed;
        }
    } else if fields.len() != 4 {
        return Row::Malformed;
    }
    assert(views(fields@)[0] == fields@[0]@);
    assert(views(fields@)[1] == fields@[1]@);
    assert(views(fields@)[2] == fields@[2]@);
    assert(views(fields@)[3] == fields@[3]@);
    let no = parse_within(trim(fields[0]), -32768, 32767);
    let arguments = parse_within(trim(fields[2]), 0, 999_999);
    let results = parse_within(trim(fields[3]), 0, 999_999);
    let name = utf8(trim(fields[1]));
    match (no, arguments, results, name) {
        (Some(no), Some(arguments), Some(results), Some(name)) => Row::Function(
            SoftInterruptFunction {
                no: no as VMAtom,
                name: name.to_owned(),
                arguments: arguments as usize,
                returns: results as usize,
                help: String::new(),
            },
        ),
        _ => Row::Malformed,
    }
}

impl SoftInterruptDef {
    /// The definition that a name and a table of functions give; see
    /// [`spec_from_table`]. There is none where the table is malformed.
    #[verifier::rlimit(50)]
    pub fn from_table(name: &str, table: &str) -> (def: Option<SoftInterruptDef>)
        ensures
            def is Some == spec_from_table(name.spec_bytes(), table.spec_bytes()) is Some,
            def is Some ==> def->0@ == spec_from_table(name.spec_bytes(), table.spec_bytes())->0,
    {
        let rows = split(table.as_bytes(), LINE_FEED);
        let mut functions: Vec<SoftInterruptFunction> = Vec::new();
        let ghost all = views(rows@);
        let mut i: usize = 0;
        assert(Seq::new(functions@.len(), |k: int| functions@[k]@) =~= Seq::<
            FunctionView,
        >::empty());
        while i < rows.len()
            invariant
                i <= rows@.len(),
                all == views(rows@),
                all == spec_split(table.spec_bytes(), LINE_FEED),
                spec_rows(all, 0, Seq::empty()) == spec_rows(
                    all,
                    i as int,
                    Seq::new(functions@.len(), |k: int| functions@[k]@),
                ),
            decreases rows@.len() - i,
        {
            assert(all[i as int] == rows@[i as int]@);
            let ghost found = Seq::new(functions@.len(), |k: int| functions@[k]@);
            match read_row(rows[i]) {
                Row::Blank => {},
                Row::Function(f) => {
                    functions.push(f);
                    assert(Seq::new(functions@.len(), |k: int| functions@[k]@) =~= found.push(
                        f@,
                    ));
                },
                Row::Malformed => {
                    return None;
                },
            }
            i += 1;
        }
        Some(SoftInterruptDef { name: name.to_owned(), functions })
    }
}

/// The definitions of the interrupts that the library serves itself, in the
/// order in which their handlers must stand: `proc`, `math`, `random`.
pub fn base_definitions() -> (defs: Vec<SoftInterruptDef>)
    ensures
        def_views(defs@) == seq![
            proc::spec_definition(),
            math::spec_definition(),
            random::spec_definition(),
        ],
{
    let mut defs: Vec<SoftInterruptDef> = Vec::new();
    defs.push(proc::definition());
    defs.push(math::definition());
    defs.push(random::definition());
    assert(def_views(defs@) =~= seq![
        proc::spec_definition(),
        math::spec_definition(),
        random::spec_definition(),
    ]);
    defs
}

} // verus!
