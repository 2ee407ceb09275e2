//! The assembler: from a listing to the bytes of a program.

use crate::assemble::{
    assemble_line, lemma_jump_has_immediate, spec_line, spec_strip_comment, strip_comment,
    LineItem,
};
use crate::atom::{
    atom_bytes, buffer_bytes, buffer_len, buffer_new, buffer_to_vec, patch_atom, put_byte, VMAtom,
    ATOM_ID, BUFFER_LIMIT,
};
use crate::interrupts::{def_views, DefView, SoftInterruptDef};
use crate::program::{Program, ProgramView, SOURCE_COMPILED};
use crate::text::{
    bytes_of, lemma_total_take, non_empty, parse_within, same, spec_non_empty, spec_parse_within,
    spec_split, spec_total, spec_trim, split, trim, views, BLANK, HASH, LETTER_R, LINE_FEED, MINUS,
    UNDERSCORE,
};
use crate::virtmach::VirtMach;
use bytes::BytesMut;
use vstd::prelude::*;
use vstd::slice::{slice_subrange, slice_to_vec};
use vstd::string::StringSliceAdditionalSpecFns;

verus! {

/// The kinds of fault that the assembler reports.
#[derive(Debug, Clone, Copy, PartialEq, Eq, Structural)]
pub enum ListingErrorKind {
    NoError,
    IllegalOp,
    IllegalArgument,
    IllegalRegister,
    IllegalInterrupt,
    MalformedDefine,
    IllegalDefineValue,
    UnknownLabel,
    UnknownInterrupt,
    UnknownFunction,
    MalformedFunction,
}

/// A fault in a listing. Each variant but `NoError` carries the number of
/// the line, counted from one, and a short cause: a fixed message or the
/// offending piece of the line.
#[derive(Debug, Clone, PartialEq, Eq)]
pub enum ListingError {
    NoError,
    IllegalOp(usize, Vec<u8>),
    IllegalArgument(usize, Vec<u8>),
    IllegalRegister(usize, Vec<u8>),
    IllegalInterrupt(usize, Vec<u8>),
    MalformedDefine(usize, Vec<u8>),
    IllegalDefineValue(usize, Vec<u8>),
    UnknownLabel(usize, Vec<u8>),
    UnknownInterrupt(usize, Vec<u8>),
    UnknownFunction(usize, Vec<u8>),
    MalformedFunction(usize, Vec<u8>),
}

/// What a listing fault is to a contract: kind, line and cause.
pub struct ListingFault {
    pub kind: ListingErrorKind,
    pub line: usize,
    pub cause: Seq<u8>,
}

impl View for ListingError {
    type V = ListingFault;

    open spec fn view(&self) -> ListingFault {
        match self {
            ListingError::NoError => ListingFault {
                kind: ListingErrorKind::NoError,
                line: 0,
                cause: Seq::empty(),
            },
            ListingError::IllegalOp(line, cause) => ListingFault {
                kind: ListingErrorKind::IllegalOp,
                line: *line,
                cause: cause@,
            },
            ListingError::IllegalArgument(line, cause) => ListingFault {
                kind: ListingErrorKind::IllegalArgument,
                line: *line,
                cause: cause@,
            },
            ListingError::IllegalRegister(line, cause) => ListingFault {
                kind: ListingErrorKind::IllegalRegister,
                line: *line,
                cause: cause@,
            },
            ListingError::IllegalInterrupt(line, cause) => ListingFault {
                kind: ListingErrorKind::IllegalInterrupt,
                line: *line,
                cause: cause@,
            },
            ListingError::MalformedDefine(line, cause) => ListingFault {
                kind: ListingErrorKind::MalformedDefine,
                line: *line,
                cause: cause@,
            },
            ListingError::IllegalDefineValue(line, cause) => ListingFault {
                kind: ListingErrorKind::IllegalDefineValue,
                line: *line,
                cause: cause@,
            },
            ListingError::UnknownLabel(line, cause) => ListingFault {
                kind: ListingErrorKind::UnknownLabel,
                line: *line,
                cause: cause@,
            },
            ListingError::UnknownInterrupt(line, cause) => ListingFault {
                kind: ListingErrorKind::UnknownInterrupt,
                line: *line,
                cause: cause@,
            },
            ListingError::UnknownFunction(line, cause) => ListingFault {
                kind: ListingErrorKind::UnknownFunction,
                line: *line,
                cause: cause@,
            },
            ListingError::MalformedFunction(line, cause) => ListingFault {
                kind: ListingErrorKind::MalformedFunction,
                line: *line,
                cause: cause@,
            },
        }
    }
}

/// A fault of the given kind on the given line, with a fixed message.
pub open spec fn fault(kind: ListingErrorKind, line: usize, message: &str) -> ListingFault {
    ListingFault { kind, line, cause: message.spec_bytes() }
}

/// One `#def`: wherever the key stands as an argument, the value is read in
/// its place.
#[derive(Debug, Clone, PartialEq, Eq)]
pub struct Define {
    pub key: Vec<u8>,
    pub value: Vec<u8>,
}

/// What a define is to a contract.
pub struct DefineView {
    pub key: Seq<u8>,
    pub value: Seq<u8>,
}

impl View for Define {
    type V = DefineView;

    open spec fn view(&self) -> DefineView {
        DefineView { key: self.key@, value: self.value@ }
    }
}

/// The views of a list of defines, in order.
pub open spec fn define_views(defines: Seq<Define>) -> Seq<DefineView> {
    Seq::new(defines.len(), |i: int| defines[i]@)
}

/// The value that the defines give to `key`: that of the last define with
/// this key, so that a later define overwrites an earlier one.
pub open spec fn spec_lookup(defines: Seq<DefineView>, key: Seq<u8>) -> Option<Seq<u8>>
    decreases defines.len(),
{
    if defines.len() == 0 {
        None
    } else if defines.last().key == key {
        Some(defines.last().value)
    } else {
        spec_lookup(defines.drop_last(), key)
    }
}

/// One argument of an instruction or of a call, classified.
#[derive(Debug, Clone, PartialEq, Eq)]
pub enum Argument {
    /// Nothing was written.
    Empty,
    /// A register or a number that is written wrongly, with the reason.
    Error(Vec<u8>),
    /// The wildcard `_`.
    Ignore,
    /// `rN`, a register.
    Register(u8),
    /// `#value`, `#min` or `#max`, an immediate.
    Atom(VMAtom),
    /// Anything else: the name of a label, an interrupt or a function.
    Label(Vec<u8>),
}

/// What an argument is to a contract.
pub enum ArgumentView {
    Empty,
    Error(Seq<u8>),
    Ignore,
    Register(u8),
    Atom(VMAtom),
    Label(Seq<u8>),
}

impl View for Argument {
    type V = ArgumentView;

    open spec fn view(&self) -> ArgumentView {
        match self {
            Argument::Empty => ArgumentView::Empty,
            Argument::Error(reason) => ArgumentView::Error(reason@),
            Argument::Ignore => ArgumentView::Ignore,
            Argument::Register(r) => ArgumentView::Register(*r),
            Argument::Atom(a) => ArgumentView::Atom(*a),
            Argument::Label(name) => ArgumentView::Label(name@),
        }
    }
}

/// Registers that a listing can name: `r0` to `r13`.
pub const LISTING_REGISTERS: u8 = 14;

/// The classification of a token after define substitution.
///
/// The token is first replaced by its define, if it has one. Then: nothing is
/// `Empty`; `_` is `Ignore`; `r` before a number up to 255 is a register
/// where the number is below fourteen and an error where it is not; `#`
/// before `min`, `max` or a number that an atom holds is an immediate, and an
/// error before anything else; every other token is a label. The number of
/// a register may carry a plus sign but no minus sign.
pub open spec fn spec_parse_argument(token: Seq<u8>, defines: Seq<DefineView>) -> ArgumentView {
    let arg = match spec_lookup(defines, token) {
        Some(value) => value,
        None => token,
    };
    if arg.len() == 0 {
        ArgumentView::Empty
    } else if arg == seq![UNDERSCORE] {
        ArgumentView::Ignore
    } else if arg[0] == LETTER_R {
        if arg.len() > 1 && arg[1] == MINUS {
            ArgumentView::Label(arg)
        } else {
            match spec_parse_within(arg.skip(1), 0, 255) {
                Some(r) => if r < LISTING_REGISTERS {
                    ArgumentView::Register(r as u8)
                } else {
                    ArgumentView::Error("malformed register".spec_bytes())
                },
                None => ArgumentView::Label(arg),
            }
        }
    } else if arg[0] == HASH {
        if arg.skip(1) == "min".spec_bytes() {
            ArgumentView::Atom(VMAtom::MIN)
        } else if arg.skip(1) == "max".spec_bytes() {
            ArgumentView::Atom(VMAtom::MAX)
        } else {
            match spec_parse_within(arg.skip(1), VMAtom::MIN as int, VMAtom::MAX as int) {
                Some(v) => ArgumentView::Atom(v as VMAtom),
                None => ArgumentView::Error("malformed value".spec_bytes()),
            }
        }
    } else {
        ArgumentView::Label(arg)
    }
}

/// The value that the defines give to `key`, if any.
pub fn lookup<'a>(defines: &'a Vec<Define>, key: &[u8]) -> (value: Option<&'a [u8]>)
    ensures
        value is Some == spec_lookup(define_views(defines@), key@) is Some,
        value is Some ==> value->0@ == spec_lookup(define_views(defines@), key@)->0,
{
    let mut i: usize = defines.len();
    assert(define_views(defines@).take(i as int) =~= define_views(defines@));
    while i > 0
        invariant
            i <= defines@.len(),
            spec_lookup(define_views(defines@), key@) == spec_lookup(
                define_views(defines@).take(i as int),
                key@,
            ),
        decreases i,
    {
        let ghost head = define_views(defines@).take(i as int);
        assert(head.drop_last() =~= define_views(defines@).take(i - 1));
        assert(head.last() == defines@[i - 1]@);
        if same(defines[i - 1].key.as_slice(), key) {
            return Some(defines[i - 1].value.as_slice());
        }
        i -= 1;
    }
    None
}

impl VirtMach {
    /// Classifies one token of a listing; see [`spec_parse_argument`].
    pub fn parse_argument(token: &[u8], defines: &Vec<Define>) -> (argument: Argument)
        ensures
            argument@ == spec_parse_argument(token@, define_views(defines@)),
            argument@ matches ArgumentView::Register(r) ==> r < LISTING_REGISTERS,
    {
        let arg: &[u8] = match lookup(defines, token) {
            Some(value) => value,
            None => token,
        };
        if arg.len() == 0 {
            return Argument::Empty;
        }
        if arg.len() == 1 && arg[0] == UNDERSCORE {
            assert(arg@ =~= seq![UNDERSCORE]);
            return Argument::Ignore;
        }
        let tail = slice_subrange(arg, 1, arg.len());
        assert(tail@ =~= arg@.skip(1));
        if arg[0] == LETTER_R {
            if arg.len() > 1 && arg[1] == MINUS {
                return Argument::Label(slice_to_vec(arg));
            }
            match parse_within(tail, 0, 255) {
                Some(r) => {
                    if r < 14 {
                        Argument::Register(r as u8)
                    } else {
                        Argument::Error(bytes_of("malformed register"))
                    }
                },
                None => Argument::Label(slice_to_vec(arg)),
            }
        } else if arg[0] == HASH {
            let min = "min".as_bytes();
            let max = "max".as_bytes();
            if same(tail, min) {
                Argument::Atom(VMAtom::MIN)
            } else if same(tail, max) {
                Argument::Atom(VMAtom::MAX)
            } else {
                match parse_within(tail, -32768, 32767) {
                    Some(v) => Argument::Atom(v as VMAtom),
                    None => Argument::Error(bytes_of("malformed value")),
                }
            }
        } else {
            Argument::Label(slice_to_vec(arg))
        }
    }
}

/// Longest listing, in bytes, that the assembler takes.
pub const MAX_LISTING: usize = 0x0fff_ffff;

/// Whether a definition of the given name is among the definitions.
pub open spec fn spec_has_interrupt(defs: Seq<DefView>, name: Seq<u8>) -> bool {
    exists|i: int| 0 <= i < defs.len() && (#[trigger] defs[i]).name == name
}

/// The defines after a line of the listing, or the fault in its directive.
///
/// The line is read without its outer white space and its comment. A line
/// that does not start with `#` leaves the defines as they are. After the
/// `#` come words between blanks. `def KEY VALUE` adds a define, unless the
/// key starts like a register or an immediate. `req NAME` asks that a
/// definition of that name is among the interrupts.
pub open spec fn spec_directive(
    line_text: Seq<u8>,
    line: usize,
    defs: Seq<DefView>,
    defines: Seq<DefineView>,
) -> Result<Seq<DefineView>, ListingFault> {
    let text = spec_strip_comment(spec_trim(line_text));
    if !(text.len() > 0 && text[0] == HASH) {
        Ok(defines)
    } else {
        let words = spec_non_empty(spec_split(text.skip(1), BLANK));
        if words.len() == 0 {
            Err(fault(ListingErrorKind::MalformedDefine, line, "empty"))
        } else if words[0] == "def".spec_bytes() {
            if words.len() == 3 {
                let key = spec_trim(words[1]);
                if key.len() > 0 && (key[0] == LETTER_R || key[0] == HASH) {
                    Err(
                        ListingFault {
                            kind: ListingErrorKind::IllegalDefineValue,
                            line,
                            cause: words[2],
                        },
                    )
                } else {
                    Ok(defines.push(DefineView { key, value: spec_trim(words[2]) }))
                }
            } else {
                Err(fault(ListingErrorKind::MalformedDefine, line, "malformed def"))
            }
        } else if words[0] == "req".spec_bytes() {
            if words.len() == 2 {
                if spec_has_interrupt(defs, spec_trim(words[1])) {
                    Ok(defines)
                } else {
                    Err(
                        fault(
                            ListingErrorKind::MalformedDefine,
                            line,
                            "required interrupt not found",
                        ),
                    )
                }
            } else {
                Err(fault(ListingErrorKind::MalformedDefine, line, "malformed req"))
            }
        } else {
            Err(fault(ListingErrorKind::MalformedDefine, line, "illegal keyword"))
        }
    }
}

/// The defines after the lines from number `from` on, or the first fault in
/// their directives. Lines count from one.
pub open spec fn spec_directives(
    lines: Seq<Seq<u8>>,
    from: int,
    defs: Seq<DefView>,
    defines: Seq<DefineView>,
) -> Result<Seq<DefineView>, ListingFault>
    decreases lines.len() - from,
{
    if from < 0 || from >= lines.len() {
        Ok(defines)
    } else {
        match spec_directive(lines[from], (from + 1) as usize, defs, defines) {
            Err(f) => Err(f),
            Ok(next) => spec_directives(lines, from + 1, defs, next),
        }
    }
}

/// A label and the offset in the instruction stream that it names.
#[derive(Debug, Clone, PartialEq, Eq)]
pub struct Label {
    pub name: Vec<u8>,
    pub address: usize,
}

/// A jump that waits for its label: the label's name, the offset right
/// behind the jump's immediate, and the line of the jump.
#[derive(Debug, Clone, PartialEq, Eq)]
pub struct Jump {
    pub label: Vec<u8>,
    pub address: usize,
    pub line_no: usize,
}

/// What a label is to a contract.
pub struct LabelView {
    pub name: Seq<u8>,
    pub address: int,
}

/// What a waiting jump is to a contract.
pub struct JumpView {
    pub label: Seq<u8>,
    pub address: int,
    pub line: usize,
}

impl View for Label {
    type V = LabelView;

    open spec fn view(&self) -> LabelView {
        LabelView { name: self.name@, address: self.address as int }
    }
}

impl View for Jump {
    type V = JumpView;

    open spec fn view(&self) -> JumpView {
        JumpView { label: self.label@, address: self.address as int, line: self.line_no }
    }
}

/// The views of a list of labels, in order.
pub open spec fn label_views(labels: Seq<Label>) -> Seq<LabelView> {
    Seq::new(labels.len(), |i: int| labels[i]@)
}

/// The views of a list of jumps, in order.
pub open spec fn jump_views(jumps: Seq<Jump>) -> Seq<JumpView> {
    Seq::new(jumps.len(), |i: int| jumps[i]@)
}

/// The instruction stream so far, with the labels defined and the jumps
/// that wait for theirs.
pub struct Assembly {
    pub out: Seq<u8>,
    pub labels: Seq<LabelView>,
    pub jumps: Seq<JumpView>,
}

/// The assembly with what one line adds: its bytes at the end, its label at
/// the offset where they start, its jump at the offset where they end.
pub open spec fn spec_place(a: Assembly, item: LineItem, line: usize) -> Assembly {
    Assembly {
        out: a.out + item.bytes,
        labels: match item.label {
            Some(name) => a.labels.push(LabelView { name, address: a.out.len() as int }),
            None => a.labels,
        },
        jumps: match item.jump {
            Some(label) => a.jumps.push(
                JumpView { label, address: (a.out.len() + item.bytes.len()) as int, line },
            ),
            None => a.jumps,
        },
    }
}

/// The assembly after the lines from number `from` on, or the first fault
/// in them. Lines count from one.
pub open spec fn spec_assemble(
    lines: Seq<Seq<u8>>,
    from: int,
    defines: Seq<DefineView>,
    defs: Seq<DefView>,
    a: Assembly,
) -> Result<Assembly, ListingFault>
    decreases lines.len() - from,
{
    if from < 0 || from >= lines.len() {
        Ok(a)
    } else {
        match spec_line(lines[from], (from + 1) as usize, defines, defs) {
            Err(f) => Err(f),
            Ok(item) => spec_assemble(
                lines,
                from + 1,
                defines,
                defs,
                spec_place(a, item, (from + 1) as usize),
            ),
        }
    }
}

/// The offset of the first label, from number `from` on, that has the name.
pub open spec fn spec_label_from(labels: Seq<LabelView>, name: Seq<u8>, from: int) -> Option<int>
    decreases labels.len() - from,
{
    if from < 0 || from >= labels.len() {
        None
    } else if labels[from].name == name {
        Some(labels[from].address)
    } else {
        spec_label_from(labels, name, from + 1)
    }
}

/// The stream with the two bytes at `at` replaced by those of the atom.
pub open spec fn spec_patch(out: Seq<u8>, at: int, value: VMAtom) -> Seq<u8> {
    out.update(at, atom_bytes(value)[0]).update(at + 1, atom_bytes(value)[1])
}

/// The distance from the offset behind a jump's immediate to its label, as
/// the immediate holds it; none where no atom holds it.
pub open spec fn spec_distance(from: int, to: int) -> Option<VMAtom> {
    if VMAtom::MIN <= to - from <= VMAtom::MAX {
        Some((to - from) as VMAtom)
    } else {
        None
    }
}

/// The stream with the jumps from number `from` on resolved, or the first
/// fault among them.
///
/// Each jump takes the offset of the first label of its name. The two bytes
/// before the jump's own offset receive the distance from that offset to the
/// label. A jump without label is an unknown label on the jump's line; a
/// distance that no atom holds is out of range there.
pub open spec fn spec_resolve(
    out: Seq<u8>,
    jumps: Seq<JumpView>,
    labels: Seq<LabelView>,
    from: int,
) -> Result<Seq<u8>, ListingFault>
    decreases jumps.len() - from,
{
    if from < 0 || from >= jumps.len() {
        Ok(out)
    } else {
        match spec_label_from(labels, jumps[from].label, 0) {
            None => Err(
                ListingFault {
                    kind: ListingErrorKind::UnknownLabel,
                    line: jumps[from].line,
                    cause: jumps[from].label,
                },
            ),
            Some(target) => match spec_distance(jumps[from].address, target) {
                None => Err(
                    fault(ListingErrorKind::IllegalArgument, jumps[from].line, "out of range"),
                ),
                Some(distance) => spec_resolve(
                    spec_patch(out, jumps[from].address - 2, distance),
                    jumps,
                    labels,
                    from + 1,
                ),
            },
        }
    }
}

/// The bytes of the program that a listing assembles to, or the first fault
/// in it.
///
/// The lines of the listing are what stands between line feeds. A first
/// pass reads the directives of all lines; a second one assembles the lines
/// with the defines of the first; then the jumps are resolved. The program
/// is the atom-width tag and then the instruction stream.
pub open spec fn spec_compile(listing: Seq<u8>, defs: Seq<DefView>) -> Result<
    Seq<u8>,
    ListingFault,
> {
    let lines = spec_split(listing, LINE_FEED);
    match spec_directives(lines, 0, defs, Seq::empty()) {
        Err(f) => Err(f),
        Ok(defines) => match spec_assemble(
            lines,
            0,
            defines,
            defs,
            Assembly { out: Seq::empty(), labels: Seq::empty(), jumps: Seq::empty() },
        ) {
            Err(f) => Err(f),
            Ok(a) => match spec_resolve(a.out, a.jumps, a.labels, 0) {
                Err(f) => Err(f),
                Ok(out) => Ok(seq![ATOM_ID] + out),
            },
        },
    }
}

/// Whether a definition of the given name is among the definitions.
pub fn has_interrupt(interrupts: &[SoftInterruptDef], name: &[u8]) -> (r: bool)
    ensures
        r == spec_has_interrupt(def_views(interrupts@), name@),
{
    let mut i: usize = 0;
    while i < interrupts.len()
        invariant
            i <= interrupts@.len(),
            forall|j: int| 0 <= j < i ==> (#[trigger] def_views(interrupts@)[j]).name != name@,
        decreases interrupts@.len() - i,
    {
        assert(def_views(interrupts@)[i as int] == interrupts@[i as int]@);
        if same(interrupts[i].name.as_str().as_bytes(), name) {
            return true;
        }
        i += 1;
    }
    false
}

/// Reads the directive of a line, if it has one, and adds its define to the
/// defines; or reports the fault in it.
#[verifier::rlimit(50)]
pub fn directive(
    line_text: &[u8],
    line: usize,
    interrupts: &[SoftInterruptDef],
    defines: &mut Vec<Define>,
) -> (res: Result<(), ListingError>)
    ensures
        match spec_directive(
            line_text@,
            line,
            def_views(interrupts@),
            define_views(old(defines)@),
        ) {
            Ok(next) => res is Ok && define_views(final(defines)@) == next,
            Err(f) => res is Err && res->Err_0@ == f,
        },
{
    let text = strip_comment(trim(line_text));
    if !(text.len() > 0 && text[0] == HASH) {
        return Ok(());
    }
    let after = slice_subrange(text, 1, text.len());
    assert(after@ =~= text@.skip(1));
    let pieces = split(after, BLANK);
    let words = non_empty(&pieces);
    if words.len() == 0 {
        return Err(ListingError::MalformedDefine(line, bytes_of("empty")));
    }
    assert(views(words@)[0] == words@[0]@);
    if same(words[0], "def".as_bytes()) {
        if words.len() == 3 {
            assert(views(words@)[1] == words@[1]@);
            assert(views(words@)[2] == words@[2]@);
            let key = trim(words[1]);
            let value = trim(words[2]);
            if key.len() > 0 && (key[0] == LETTER_R || key[0] == HASH) {
                return Err(ListingError::IllegalDefineValue(line, slice_to_vec(words[2])));
            }
            let ghost before = define_views(defines@);
            defines.push(Define { key: slice_to_vec(key), value: slice_to_vec(value) });
            assert(define_views(defines@) =~= before.push(
                DefineView { key: key@, value: value@ },
            ));
            Ok(())
        } else {
            Err(ListingError::MalformedDefine(line, bytes_of("malformed def")))
        }
    } else if same(words[0], "req".as_bytes()) {
        if words.len() == 2 {
            assert(views(words@)[1] == words@[1]@);
            if has_interrupt(interrupts, trim(words[1])) {
                Ok(())
            } else {
                Err(ListingError::MalformedDefine(line, bytes_of("required interrupt not found")))
            }
        } else {
            Err(ListingError::MalformedDefine(line, bytes_of("malformed req")))
        }
    } else {
        Err(ListingError::MalformedDefine(line, bytes_of("illegal keyword")))
    }
}

/// The offset of the first label that has the name.
pub fn find_label(labels: &Vec<Label>, name: &[u8]) -> (address: Option<usize>)
    ensures
        address is Some == spec_label_from(label_views(labels@), name@, 0) is Some,
        address is Some ==> address->0 as int == spec_label_from(
            label_views(labels@),
            name@,
            0,
        )->0,
{
    let mut i: usize = 0;
    while i < labels.len()
        invariant
            i <= labels@.len(),
            spec_label_from(label_views(labels@), name@, 0) == spec_label_from(
                label_views(labels@),
                name@,
                i as int,
            ),
        decreases labels@.len() - i,
    {
        assert(label_views(labels@)[i as int] == labels@[i as int]@);
        if same(labels[i].name.as_slice(), name) {
            return Some(labels[i].address);
        }
        i += 1;
    }
    None
}

/// The distance from the offset behind a jump's immediate to its label,
/// where an atom holds it.
pub fn distance(from: usize, to: usize) -> (d: Option<VMAtom>)
    ensures
        d == spec_distance(from as int, to as int),
{
    if to >= from {
        let forward: usize = to - from;
        if forward <= 32767 {
            Some(forward as VMAtom)
        } else {
            None
        }
    } else {
        let back: usize = from - to;
        if back <= 32768 {
            Some((-(back as i32)) as VMAtom)
        } else {
            None
        }
    }
}

/// Whether every jump has its immediate inside a stream of the given length.
pub open spec fn jumps_within(jumps: Seq<JumpView>, len: int) -> bool {
    forall|i: int| 0 <= i < jumps.len() ==> 2 <= (#[trigger] jumps[i]).address <= len
}

/// Writes into each jump's immediate the distance to its label, or reports
/// the first jump for which that cannot be done. The buffer holds the tag
/// byte and then the stream.
#[verifier::rlimit(50)]
pub(crate) fn resolve(dest: &mut BytesMut, jumps: &Vec<Jump>, labels: &Vec<Label>) -> (res: Result<
    (),
    ListingError,
>)
    requires
        buffer_bytes(*old(dest)).len() >= 1,
        jumps_within(jump_views(jumps@), buffer_bytes(*old(dest)).len() - 1),
    ensures
        match spec_resolve(
            buffer_bytes(*old(dest)).skip(1),
            jump_views(jumps@),
            label_views(labels@),
            0,
        ) {
            Ok(out) => res is Ok && buffer_bytes(*final(dest)) == seq![
                buffer_bytes(*old(dest))[0],
            ] + out,
            Err(f) => res is Err && res->Err_0@ == f,
        },
{
    let ghost start = buffer_bytes(*dest);
    let ghost tag = start[0];
    let ghost all = jump_views(jumps@);
    let ghost marks = label_views(labels@);
    let mut i: usize = 0;
    while i < jumps.len()
        invariant
            i <= jumps@.len(),
            all == jump_views(jumps@),
            marks == label_views(labels@),
            start == buffer_bytes(*old(dest)),
            buffer_bytes(*dest).len() == start.len(),
            start.len() >= 1,
            buffer_bytes(*dest)[0] == tag,
            jumps_within(all, start.len() - 1),
            spec_resolve(start.skip(1), all, marks, 0) == spec_resolve(
                buffer_bytes(*dest).skip(1),
                all,
                marks,
                i as int,
            ),
        decreases jumps@.len() - i,
    {
        let jump = &jumps[i];
        assert(all[i as int] == jump@);
        match find_label(labels, jump.label.as_slice()) {
            None => {
                return Err(
                    ListingError::UnknownLabel(jump.line_no, slice_to_vec(jump.label.as_slice())),
                );
            },
            Some(target) => match distance(jump.address, target) {
                None => {
                    return Err(
                        ListingError::IllegalArgument(jump.line_no, bytes_of("out of range")),
                    );
                },
                Some(d) => {
                    let ghost before = buffer_bytes(*dest);
                    patch_atom(dest, jump.address - 1, d);
                    assert(buffer_bytes(*dest).skip(1) =~= spec_patch(
                        before.skip(1),
                        jump.address - 2,
                        d,
                    ));
                },
            },
        }
        i += 1;
    }
    assert(buffer_bytes(*dest) =~= seq![tag] + buffer_bytes(*dest).skip(1));
    Ok(())
}

/// The assembly that a buffer, a label table and a jump table stand for.
/// The buffer holds the tag byte and then the stream.
pub open spec fn assembly_of(buffer: Seq<u8>, labels: Seq<Label>, jumps: Seq<Jump>) -> Assembly {
    Assembly { out: buffer.skip(1), labels: label_views(labels), jumps: jump_views(jumps) }
}

/// Assembles one line into the buffer and enters its label and its jump
/// into their tables; or reports the fault in the line.
#[verifier::rlimit(50)]
pub(crate) fn place_line(
    dest: &mut BytesMut,
    labels: &mut Vec<Label>,
    jumps: &mut Vec<Jump>,
    line_text: &[u8],
    line: usize,
    defines: &Vec<Define>,
    interrupts: &[SoftInterruptDef],
) -> (res: Result<(), ListingError>)
    requires
        buffer_bytes(*old(dest)).len() >= 1,
        buffer_bytes(*old(dest)).len() + 4 * (line_text@.len() + 1) <= BUFFER_LIMIT,
        jumps_within(jump_views(old(jumps)@), buffer_bytes(*old(dest)).len() - 1),
    ensures
        match spec_line(line_text@, line, define_views(defines@), def_views(interrupts@)) {
            Ok(item) => {
                &&& res is Ok
                &&& assembly_of(buffer_bytes(*final(dest)), final(labels)@, final(jumps)@)
                    == spec_place(
                    assembly_of(buffer_bytes(*old(dest)), old(labels)@, old(jumps)@),
                    item,
                    line,
                )
                &&& buffer_bytes(*final(dest)).len() >= 1
                &&& buffer_bytes(*final(dest))[0] == buffer_bytes(*old(dest))[0]
                &&& buffer_bytes(*final(dest)).len() <= buffer_bytes(*old(dest)).len() + 4 * (
                line_text@.len() + 1)
                &&& jumps_within(jump_views(final(jumps)@), buffer_bytes(*final(dest)).len() - 1)
            },
            Err(f) => res is Err && res->Err_0@ == f,
        },
{
    proof {
        lemma_jump_has_immediate(
            line_text@,
            line,
            define_views(defines@),
            def_views(interrupts@),
        );
    }
    let ghost before = buffer_bytes(*dest);
    let ghost old_labels = label_views(labels@);
    let ghost old_jumps = jump_views(jumps@);
    let address: usize = buffer_len(dest) - 1;
    match assemble_line(dest, line_text, line, defines, interrupts) {
        Err(e) => Err(e),
        Ok(marks) => {
            let ghost item = spec_line(
                line_text@,
                line,
                define_views(defines@),
                def_views(interrupts@),
            )->Ok_0;
            assert(buffer_bytes(*dest).skip(1) =~= before.skip(1) + item.bytes);
            match marks.label {
                Some(name) => {
                    labels.push(Label { name, address });
                    assert(label_views(labels@) =~= old_labels.push(
                        LabelView { name: name@, address: address as int },
                    ));
                },
                None => {},
            }
            match marks.jump {
                Some(label) => {
                    let behind: usize = buffer_len(dest) - 1;
                    jumps.push(Jump { label, address: behind, line_no: line });
                    assert(jump_views(jumps@) =~= old_jumps.push(
                        JumpView { label: label@, address: behind as int, line },
                    ));
                },
                None => {},
            }
            Ok(())
        },
    }
}

impl VirtMach {
    /// Assembles a listing into a program with the given name; see
    /// [`spec_compile`]. The program's bytes start with the atom-width tag.
    /// The listing holds at most [`MAX_LISTING`] bytes, so that the program
    /// stays below the limit of the output buffer.
    #[verifier::rlimit(50)]
    pub fn compile(name: &str, listing: &str, interrupts: &[SoftInterruptDef]) -> (res: Result<
        Program,
        ListingError,
    >)
        requires
            listing.spec_bytes().len() <= MAX_LISTING,
        ensures
            match spec_compile(listing.spec_bytes(), def_views(interrupts@)) {
                Ok(bytes) => res is Ok && res->Ok_0@ == (ProgramView {
                    source: SOURCE_COMPILED,
                    id: name@,
                    data: bytes,
                }),
                Err(f) => res is Err && res->Err_0@ == f,
            },
    {
        let text = listing.as_bytes();
        let lines = split(text, LINE_FEED);
        let ghost all = views(lines@);
        let ghost defs = def_views(interrupts@);
        let mut defines: Vec<Define> = Vec::new();
        assert(define_views(defines@) =~= Seq::<DefineView>::empty());
        let mut i: usize = 0;
        while i < lines.len()
            invariant
                i <= lines@.len(),
                lines@.len() <= MAX_LISTING + 1,
                all == views(lines@),
                all == spec_split(listing.spec_bytes(), LINE_FEED),
                defs == def_views(interrupts@),
                spec_directives(all, 0, defs, Seq::empty()) == spec_directives(
                    all,
                    i as int,
                    defs,
                    define_views(defines@),
                ),
            decreases lines@.len() - i,
        {
            assert(all[i as int] == lines@[i as int]@);
            match directive(lines[i], i + 1, interrupts, &mut defines) {
                Err(e) => {
                    return Err(e);
                },
                Ok(()) => {},
            }
            i += 1;
        }
        let ghost table = define_views(defines@);
        let ghost first = Assembly {
            out: Seq::empty(),
            labels: Seq::empty(),
            jumps: Seq::empty(),
        };
        let mut dest = buffer_new();
        put_byte(&mut dest, ATOM_ID);
        let mut labels: Vec<Label> = Vec::new();
        let mut jumps: Vec<Jump> = Vec::new();
        proof {
            assert(all.take(0) =~= Seq::<Seq<u8>>::empty());
            assert(assembly_of(buffer_bytes(dest), labels@, jumps@).out =~= first.out);
            assert(assembly_of(buffer_bytes(dest), labels@, jumps@).labels =~= first.labels);
            assert(assembly_of(buffer_bytes(dest), labels@, jumps@).jumps =~= first.jumps);
        }
        i = 0;
        while i < lines.len()
            invariant
                i <= lines@.len(),
                lines@.len() <= MAX_LISTING + 1,
                all == views(lines@),
                all == spec_split(listing.spec_bytes(), LINE_FEED),
                defs == def_views(interrupts@),
                table == define_views(defines@),
                first == (Assembly { out: Seq::empty(), labels: Seq::empty(), jumps: Seq::empty() }),
                spec_directives(all, 0, defs, Seq::empty()) == Ok::<
                    Seq<DefineView>,
                    ListingFault,
                >(table),
                spec_total(all) <= MAX_LISTING + 1,
                buffer_bytes(dest).len() >= 1,
                buffer_bytes(dest)[0] == ATOM_ID,
                buffer_bytes(dest).len() <= 1 + 4 * spec_total(all.take(i as int)),
                jumps_within(jump_views(jumps@), buffer_bytes(dest).len() - 1),
                spec_assemble(all, 0, table, defs, first) == spec_assemble(
                    all,
                    i as int,
                    table,
                    defs,
                    assembly_of(buffer_bytes(dest), labels@, jumps@),
                ),
            decreases lines@.len() - i,
        {
            proof {
                assert(all[i as int] == lines@[i as int]@);
                assert(all.take(i + 1).drop_last() =~= all.take(i as int));
                assert(all.take(i + 1).last() == all[i as int]);
                lemma_total_take(all, i + 1);
            }
            match place_line(
                &mut dest,
                &mut labels,
                &mut jumps,
                lines[i],
                i + 1,
                &defines,
                interrupts,
            ) {
                Err(e) => {
                    return Err(e);
                },
                Ok(()) => {},
            }
            i += 1;
        }
        let ghost done = assembly_of(buffer_bytes(dest), labels@, jumps@);
        assert(spec_assemble(all, 0, table, defs, first) == Ok::<Assembly, ListingFault>(done));
        assert(spec_compile(listing.spec_bytes(), defs) == match spec_resolve(
            done.out,
            done.jumps,
            done.labels,
            0,
        ) {
            Err(f) => Err(f),
            Ok(out) => Ok(seq![ATOM_ID] + out),
        });
        match resolve(&mut dest, &jumps, &labels) {
            Err(e) => {
                return Err(e);
            },
            Ok(()) => {},
        }
        let data = buffer_to_vec(&dest);
        Ok(Program { source: SOURCE_COMPILED, id: name.to_owned(), data })
    }
}

} // verus!
