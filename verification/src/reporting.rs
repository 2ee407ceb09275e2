//! Status lines and the dashboard: the engine's state as text.

use crate::atom::VMAtom;
use crate::decompile::{
    append_atom, append_decimal, spec_decimal_text, spec_decompile, spec_integer_text,
};
use crate::errors::RuntimeError;
use crate::virtmach::{MachineState, Runtime, VirtMach};
use vstd::prelude::*;
use vstd::string::{StrSliceExecFns, StringExecFns};

verus! {

/// `unit` written `n` times.
pub open spec fn spec_repeat(unit: Seq<char>, n: nat) -> Seq<char>
    decreases n,
{
    if n == 0 {
        Seq::empty()
    } else {
        spec_repeat(unit, (n - 1) as nat) + unit
    }
}

/// `piece` at the right of a field of the given width: `fill`, one
/// character, is written before it as often as the piece is short of the
/// width.
pub open spec fn spec_right(piece: Seq<char>, width: nat, fill: Seq<char>) -> Seq<char> {
    if piece.len() < width {
        spec_repeat(fill, (width - piece.len()) as nat) + piece
    } else {
        piece
    }
}

/// `piece` at the left of a field of the given width, with blanks behind it.
pub open spec fn spec_left(piece: Seq<char>, width: nat) -> Seq<char> {
    if piece.len() < width {
        piece + spec_repeat(" "@, (width - piece.len()) as nat)
    } else {
        piece
    }
}

/// At most the first `width` characters of `piece`, at the left of a field
/// of that width.
pub open spec fn spec_cut(piece: Seq<char>, width: nat) -> Seq<char> {
    if piece.len() > width {
        piece.take(width as int)
    } else {
        spec_left(piece, width)
    }
}

/// The character of a hexadecimal digit.
pub open spec fn spec_hex_digit(d: int, upper: bool) -> Seq<char> {
    if d < 10 {
        spec_decimal_text(d as nat)
    } else if d == 10 {
        if upper {
            "A"@
        } else {
            "a"@
        }
    } else if d == 11 {
        if upper {
            "B"@
        } else {
            "b"@
        }
    } else if d == 12 {
        if upper {
            "C"@
        } else {
            "c"@
        }
    } else if d == 13 {
        if upper {
            "D"@
        } else {
            "d"@
        }
    } else if d == 14 {
        if upper {
            "E"@
        } else {
            "e"@
        }
    } else {
        if upper {
            "F"@
        } else {
            "f"@
        }
    }
}

/// A natural number in hexadecimal digits, without leading zeros.
pub open spec fn spec_hex_text(n: nat, upper: bool) -> Seq<char>
    decreases n,
{
    if n < 16 {
        spec_hex_digit(n as int, upper)
    } else {
        spec_hex_text(n / 16, upper) + spec_hex_digit((n % 16) as int, upper)
    }
}

/// The name of a state.
pub open spec fn spec_state_name(state: Runtime) -> &'static str {
    match state {
        Runtime::Ini => "Ini",
        Runtime::Run => "Run",
        Runtime::Hlt => "Hlt",
        Runtime::Stp => "Stp",
        Runtime::Error => "Err",
    }
}

/// The name of a fault.
pub open spec fn spec_error_name(error: RuntimeError) -> &'static str {
    match error {
        RuntimeError::NoError => "NoError",
        RuntimeError::MismatchedAtomType => "MismatchedAtomType",
        RuntimeError::IllegalInstruction => "IllegalInstruction",
        RuntimeError::RegisterOutOfBounds => "RegisterOutOfBounds",
        RuntimeError::ProgramOutOfBounds => "ProgramOutOfBounds",
        RuntimeError::MemoryOutOfBounds => "MemoryOutOfBounds",
        RuntimeError::InstructionPointerOutOfBounds => "InstructionPointerOutOfBounds",
        RuntimeError::HeapOverflow => "HeapOverflow",
        RuntimeError::HeapUnderflow => "HeapUnderflow",
        RuntimeError::HeapCrash => "HeapCrash",
        RuntimeError::UnhandledInterrupt => "UnhandledInterrupt",
        RuntimeError::UnimplementedInterruptFunc => "UnimplementedInterruptFunc",
        RuntimeError::InterruptError => "InterruptError",
    }
}

/// A flag as a digit.
pub open spec fn spec_bit(flag: bool) -> Seq<char> {
    if flag {
        "1"@
    } else {
        "0"@
    }
}

/// A flag as its letter, or a dot where it is clear.
pub open spec fn spec_flag(flag: bool, letter: &str) -> Seq<char> {
    if flag {
        letter@
    } else {
        "."@
    }
}

/// The status of an engine in one line: the program's name in a field of
/// twelve, then state, number of the fault, program counter and stack
/// pointer, the last two in five digits.
pub open spec fn spec_status(s: MachineState) -> Seq<char> {
    spec_left(s.program.id, 12) + ": "@ + spec_state_name(s.state)@ + "-"@ + spec_decimal_text(
        s.error.spec_code() as nat,
    ) + "-"@ + spec_right(spec_decimal_text(s.processor.prog_cnt as nat), 5, "0"@) + "-"@
        + spec_right(spec_decimal_text(s.processor.stack_ptr as nat), 5, "0"@)
}

/// The atoms from number `from` on, each in a field of four and with a
/// comma and a blank between two of them.
pub open spec fn spec_row(values: Seq<VMAtom>, from: int) -> Seq<char>
    decreases values.len() - from,
{
    if from < 0 || from >= values.len() {
        Seq::empty()
    } else {
        (if from > 0 {
            ", "@
        } else {
            Seq::empty()
        }) + spec_right(spec_integer_text(values[from] as int), 4, " "@) + spec_row(
            values,
            from + 1,
        )
    }
}

/// The line that describes an engine for a log.
///
/// Without program, or with the program counter behind the end of the
/// program, the line says so behind the state. Otherwise it shows the
/// state, the program counter, the instruction there, the active register,
/// the stack pointer, the zero and carry flags, the registers and the
/// fault.
pub open spec fn spec_log(s: MachineState) -> Seq<char> {
    if s.program.data.len() == 0 {
        "["@ + spec_state_name(s.state)@ + "] no program loaded"@
    } else if s.processor.prog_cnt > s.program.data.len() {
        "["@ + spec_state_name(s.state)@ + "] program out of bounds"@
    } else {
        "["@ + spec_state_name(s.state)@ + "] "@ + spec_right(
            spec_decimal_text(s.processor.prog_cnt as nat),
            4,
            " "@,
        ) + " | "@ + spec_left(spec_decompile(s.program.data, s.processor.prog_cnt as int).0, 10)
            + " | R: "@ + spec_hex_text(s.processor.act_reg as nat, true) + " H: "@ + spec_right(
            spec_decimal_text(s.processor.stack_ptr as nat),
            2,
            " "@,
        ) + " | Z: "@ + spec_bit(s.processor.zero) + " C: "@ + spec_bit(s.processor.carry)
            + " | ["@ + spec_row(s.registers, 0) + "] | "@ + spec_error_name(s.error)@
    }
}

/// Whether the line for a log tells of trouble rather than of a state.
pub open spec fn spec_log_is_error(s: MachineState) -> bool {
    s.program.data.len() == 0 || s.processor.prog_cnt > s.program.data.len()
}

/// The rule between the parts of the dashboard.
pub open spec fn spec_rule() -> Seq<char> {
    "--------------------------------\n"@
}

/// The atoms from number `from` on as cells of seven, four cells to a line
/// after the first three.
pub open spec fn spec_cells(values: Seq<VMAtom>, from: int) -> Seq<char>
    decreases values.len() - from,
{
    if from < 0 || from >= values.len() {
        Seq::empty()
    } else {
        (if from % 4 == 3 {
            "\n"@
        } else {
            Seq::empty()
        }) + spec_right(spec_integer_text(values[from] as int), 7, " "@) + "|"@ + spec_cells(
            values,
            from + 1,
        )
    }
}

/// The head of the dashboard: fault or rule, program and counter, state
/// and flags, stack pointer and active register, cycle count.
#[verifier::opaque]
pub open spec fn spec_head(s: MachineState) -> Seq<char> {
    (if s.error == RuntimeError::NoError {
        spec_rule()
    } else {
        "-"@ + spec_error_name(s.error)@ + "-|\n"@
    }) + spec_cut(s.program.id, 7) + "|   "@ + spec_right(
        spec_hex_text(s.processor.prog_cnt as nat, false),
        4,
        "0"@,
    ) + "|STA@FLG|"@ + spec_state_name(s.state)@ + " "@ + spec_flag(s.processor.zero, "Z")
        + spec_flag(s.processor.carry, "C") + spec_flag(s.processor.sign, "S") + "|\nSTCK@RG|"@
        + spec_right(spec_decimal_text(s.processor.stack_ptr as nat), 4, " "@) + "  "@
        + spec_hex_text(s.processor.act_reg as nat, true) + "|CYCCNT@|"@ + spec_right(
        spec_decimal_text(s.cycle_cnt as nat),
        7,
        " "@,
    ) + "|\n"@
}

/// One row of the disassembly: a mark on the first row, the position in a
/// field of four, and the instruction there in a field of twelve.
pub open spec fn spec_shown_row(data: Seq<u8>, position: int, first: bool) -> Seq<char> {
    (if first {
        ">"@
    } else {
        " "@
    }) + spec_right(spec_decimal_text(position as nat), 4, " "@) + ":"@ + spec_left(
        spec_decompile(data, position).0,
        12,
    ) + "               \n"@
}

/// The rows of the disassembly from number `row` on. Row zero is the
/// heading; every other row shows the instruction at `position` and moves
/// behind it, or a dash where the program has ended. The first instruction
/// is marked.
pub open spec fn spec_rows(data: Seq<u8>, position: int, row: nat, rows: nat) -> Seq<char>
    decreases rows - row,
{
    if row >= rows {
        Seq::empty()
    } else if row == 0 {
        "@ADDR@OP@@ARG@@@@@@@@@@@@@@@@@@@\n"@ + spec_rows(data, position, 1, rows)
    } else if 0 <= position < data.len() {
        spec_shown_row(data, position, row == 1) + spec_rows(
            data,
            spec_decompile(data, position).1,
            row + 1,
            rows,
        )
    } else {
        "    -:---                   \n"@ + spec_rows(data, position, row + 1, rows)
    }
}

/// The dashboard of an engine.
///
/// Bit 0 of the mask asks for the head, bit 1 for the registers, bit 2 for
/// the memory; `rows` rows of disassembly follow, the first of them a
/// heading. A rule stands before the registers, the memory and the
/// disassembly.
pub open spec fn spec_dashboard(s: MachineState, mask: usize, rows: usize) -> Seq<char> {
    spec_part(mask % 2 == 1, spec_head(s)) + spec_part(
        (mask / 2) % 2 == 1,
        spec_table("REGS@@@|", s.registers),
    ) + spec_part((mask / 4) % 2 == 1, spec_table("MEMORY@|", s.memory)) + spec_part(
        rows != 0,
        spec_rule() + spec_rows(s.program.data, s.processor.prog_cnt as int, 0, rows as nat),
    )
}

/// A part of the dashboard that is shown or left out.
pub open spec fn spec_part(shown: bool, text: Seq<char>) -> Seq<char> {
    if shown {
        text
    } else {
        Seq::empty()
    }
}

/// A rule, a title and the atoms in cells below it.
#[verifier::opaque]
pub open spec fn spec_table(title: &str, values: Seq<VMAtom>) -> Seq<char> {
    spec_rule() + title@ + spec_cells(values, 0) + "\n"@
}

/// The name of a state.
pub fn state_name(state: Runtime) -> (name: &'static str)
    ensures
        name == spec_state_name(state),
{
    match state {
        Runtime::Ini => "Ini",
        Runtime::Run => "Run",
        Runtime::Hlt => "Hlt",
        Runtime::Stp => "Stp",
        Runtime::Error => "Err",
    }
}

/// The name of a fault.
pub fn error_name(error: RuntimeError) -> (name: &'static str)
    ensures
        name == spec_error_name(error),
{
    match error {
        RuntimeError::NoError => "NoError",
        RuntimeError::MismatchedAtomType => "MismatchedAtomType",
        RuntimeError::IllegalInstruction => "IllegalInstruction",
        RuntimeError::RegisterOutOfBounds => "RegisterOutOfBounds",
        RuntimeError::ProgramOutOfBounds => "ProgramOutOfBounds",
        RuntimeError::MemoryOutOfBounds => "MemoryOutOfBounds",
        RuntimeError::InstructionPointerOutOfBounds => "InstructionPointerOutOfBounds",
        RuntimeError::HeapOverflow => "HeapOverflow",
        RuntimeError::HeapUnderflow => "HeapUnderflow",
        RuntimeError::HeapCrash => "HeapCrash",
        RuntimeError::UnhandledInterrupt => "UnhandledInterrupt",
        RuntimeError::UnimplementedInterruptFunc => "UnimplementedInterruptFunc",
        RuntimeError::InterruptError => "InterruptError",
    }
}

/// Appends `unit` `n` times.
fn append_repeat(text: &mut String, unit: &str, n: usize)
    ensures
        final(text)@ == old(text)@ + spec_repeat(unit@, n as nat),
{
    let mut i: usize = 0;
    assert(text@ =~= old(text)@ + spec_repeat(unit@, 0));
    while i < n
        invariant
            i <= n,
            text@ == old(text)@ + spec_repeat(unit@, i as nat),
        decreases n - i,
    {
        text.append(unit);
        i += 1;
        assert(text@ =~= old(text)@ + spec_repeat(unit@, i as nat));
    }
}

/// Appends `piece` at the right of a field.
fn append_right(text: &mut String, piece: &str, width: usize, fill: &str)
    ensures
        final(text)@ == old(text)@ + spec_right(piece@, width as nat, fill@),
{
    let n: usize = piece.unicode_len();
    if n < width {
        append_repeat(text, fill, width - n);
    }
    text.append(piece);
    assert(text@ =~= old(text)@ + spec_right(piece@, width as nat, fill@));
}

/// Appends `piece` at the left of a field.
fn append_left(text: &mut String, piece: &str, width: usize)
    ensures
        final(text)@ == old(text)@ + spec_left(piece@, width as nat),
{
    let n: usize = piece.unicode_len();
    text.append(piece);
    if n < width {
        append_repeat(text, " ", width - n);
    }
    assert(text@ =~= old(text)@ + spec_left(piece@, width as nat));
}

/// Appends at most the first `width` characters of `piece`, at the left of
/// a field.
fn append_cut(text: &mut String, piece: &str, width: usize)
    ensures
        final(text)@ == old(text)@ + spec_cut(piece@, width as nat),
{
    let n: usize = piece.unicode_len();
    if n > width {
        text.append(piece.substring_char(0, width));
        assert(piece@.subrange(0, width as int) =~= piece@.take(width as int));
    } else {
        append_left(text, piece, width);
    }
}

/// A natural number in decimal digits.
fn decimal_string(n: usize) -> (text: String)
    ensures
        text@ == spec_decimal_text(n as nat),
{
    let mut text = String::new();
    append_decimal(&mut text, n as u64);
    assert(text@ =~= spec_decimal_text(n as nat));
    text
}

/// An atom in decimal digits.
fn atom_string(v: VMAtom) -> (text: String)
    ensures
        text@ == spec_integer_text(v as int),
{
    let mut text = String::new();
    append_atom(&mut text, v);
    assert(text@ =~= spec_integer_text(v as int));
    text
}

/// Appends a hexadecimal digit.
fn append_hex_digit(text: &mut String, d: u64, upper: bool)
    requires
        d < 16,
    ensures
        final(text)@ == old(text)@ + spec_hex_digit(d as int, upper),
{
    if d < 10 {
        append_decimal(text, d);
    } else if d == 10 {
        text.append(if upper { "A" } else { "a" });
    } else if d == 11 {
        text.append(if upper { "B" } else { "b" });
    } else if d == 12 {
        text.append(if upper { "C" } else { "c" });
    } else if d == 13 {
        text.append(if upper { "D" } else { "d" });
    } else if d == 14 {
        text.append(if upper { "E" } else { "e" });
    } else {
        text.append(if upper { "F" } else { "f" });
    }
}

/// Appends a natural number in hexadecimal digits.
fn append_hex(text: &mut String, n: u64, upper: bool)
    ensures
        final(text)@ == old(text)@ + spec_hex_text(n as nat, upper),
    decreases n,
{
    if n >= 16 {
        append_hex(text, n / 16, upper);
    }
    append_hex_digit(text, n % 16, upper);
    assert(text@ =~= old(text)@ + spec_hex_text(n as nat, upper));
}

/// A natural number in hexadecimal digits.
fn hex_string(n: usize, upper: bool) -> (text: String)
    ensures
        text@ == spec_hex_text(n as nat, upper),
{
    let mut text = String::new();
    append_hex(&mut text, n as u64, upper);
    assert(text@ =~= spec_hex_text(n as nat, upper));
    text
}

/// Appends the atoms as cells of seven.
fn append_cells(text: &mut String, values: &[VMAtom])
    ensures
        final(text)@ == old(text)@ + spec_cells(values@, 0),
{
    let mut i: usize = 0;
    while i < values.len()
        invariant
            i <= values@.len(),
            old(text)@ + spec_cells(values@, 0) == text@ + spec_cells(values@, i as int),
        decreases values@.len() - i,
    {
        let ghost before = text@;
        let ghost rest = spec_cells(values@, i + 1);
        if i % 4 == 3 {
            text.append("\n");
        }
        append_right(text, atom_string(values[i]).as_str(), 7, " ");
        text.append("|");
        assert(text@ + rest =~= before + spec_cells(values@, i as int));
        i += 1;
    }
    assert(text@ + Seq::<char>::empty() =~= text@);
}

/// Appends the atoms in fields of four with commas between them.
fn append_row(text: &mut String, values: &[VMAtom])
    ensures
        final(text)@ == old(text)@ + spec_row(values@, 0),
{
    let mut i: usize = 0;
    while i < values.len()
        invariant
            i <= values@.len(),
            old(text)@ + spec_row(values@, 0) == text@ + spec_row(values@, i as int),
        decreases values@.len() - i,
    {
        let ghost before = text@;
        let ghost rest = spec_row(values@, i + 1);
        if i > 0 {
            text.append(", ");
        }
        append_right(text, atom_string(values[i]).as_str(), 4, " ");
        assert(text@ + rest =~= before + spec_row(values@, i as int));
        i += 1;
    }
    assert(text@ + Seq::<char>::empty() =~= text@);
}

impl VirtMach {
    /// The line that describes the engine for a log: as an error where
    /// there is no program to describe, as a message otherwise. See
    /// [`spec_log`].
    #[verifier::rlimit(50)]
    pub fn log(&self) -> (line: Result<String, String>)
        ensures
            line is Err == spec_log_is_error(self@),
            line is Ok ==> line->Ok_0@ == spec_log(self@),
            line is Err ==> line->Err_0@ == spec_log(self@),
    {
        let mut text = String::from_str("[");
        text.append(state_name(self.state));
        if self.program.data.len() == 0 {
            text.append("] no program loaded");
            return Err(text);
        }
        if self.processor.prog_cnt > self.program.data.len() {
            text.append("] program out of bounds");
            return Err(text);
        }
        text.append("] ");
        append_right(&mut text, decimal_string(self.processor.prog_cnt).as_str(), 4, " ");
        text.append(" | ");
        let shown = VirtMach::decompile(&self.program, self.processor.prog_cnt);
        append_left(&mut text, shown.0.as_str(), 10);
        text.append(" | R: ");
        text.append(hex_string(self.processor.act_reg, true).as_str());
        text.append(" H: ");
        append_right(&mut text, decimal_string(self.processor.stack_ptr).as_str(), 2, " ");
        text.append(" | Z: ");
        text.append(if self.processor.zero { "1" } else { "0" });
        text.append(" C: ");
        text.append(if self.processor.carry { "1" } else { "0" });
        text.append(" | [");
        append_row(&mut text, self.registers.as_slice());
        text.append("] | ");
        text.append(error_name(self.error));
        assert(text@ =~= spec_log(self@));
        Ok(text)
    }

    /// Appends the status of the engine in one line; see [`spec_status`].
    #[verifier::rlimit(50)]
    pub fn write_status(&self, writer: &mut String)
        ensures
            final(writer)@ == old(writer)@ + spec_status(self@),
    {
        append_left(writer, self.program.id.as_str(), 12);
        writer.append(": ");
        writer.append(state_name(self.state));
        writer.append("-");
        append_decimal(writer, self.error.code() as u64);
        writer.append("-");
        append_right(writer, decimal_string(self.processor.prog_cnt).as_str(), 5, "0");
        writer.append("-");
        append_right(writer, decimal_string(self.processor.stack_ptr).as_str(), 5, "0");
        assert(writer@ =~= old(writer)@ + spec_status(self@));
    }

    /// The head of the dashboard.
    #[verifier::rlimit(50)]
    fn head_text(&self) -> (text: String)
        ensures
            text@ == spec_head(self@),
    {
        reveal(spec_head);
        let mut text = if self.error == RuntimeError::NoError {
            String::from_str("--------------------------------\n")
        } else {
            let mut fault = String::from_str("-");
            fault.append(error_name(self.error));
            fault.append("-|\n");
            fault
        };
        append_cut(&mut text, self.program.id.as_str(), 7);
        text.append("|   ");
        append_right(&mut text, hex_string(self.processor.prog_cnt, false).as_str(), 4, "0");
        text.append("|STA@FLG|");
        text.append(state_name(self.state));
        text.append(" ");
        text.append(if self.processor.zero { "Z" } else { "." });
        text.append(if self.processor.carry { "C" } else { "." });
        text.append(if self.processor.sign { "S" } else { "." });
        text.append("|\nSTCK@RG|");
        append_right(&mut text, decimal_string(self.processor.stack_ptr).as_str(), 4, " ");
        text.append("  ");
        text.append(hex_string(self.processor.act_reg, true).as_str());
        text.append("|CYCCNT@|");
        append_right(&mut text, decimal_string(self.cycle_cnt).as_str(), 7, " ");
        text.append("|\n");
        text
    }

    /// One row of the disassembly, and the position behind its instruction.
    fn shown_row(&self, position: usize, first: bool) -> (row: (String, usize))
        ensures
            row.0@ == spec_shown_row(self@.program.data, position as int, first),
            row.1 == spec_decompile(self@.program.data, position as int).1,
    {
        let mut text = String::from_str(if first { ">" } else { " " });
        append_right(&mut text, decimal_string(position).as_str(), 4, " ");
        text.append(":");
        let shown = VirtMach::decompile(&self.program, position);
        append_left(&mut text, shown.0.as_str(), 12);
        text.append("               \n");
        (text, shown.1)
    }

    /// Appends the rows of the disassembly.
    #[verifier::rlimit(50)]
    fn write_rows(&self, writer: &mut String, rows: usize)
        ensures
            final(writer)@ == old(writer)@ + spec_rows(
                self@.program.data,
                self@.processor.prog_cnt as int,
                0,
                rows as nat,
            ),
    {
        let ghost data = self@.program.data;
        let ghost all = spec_rows(data, self@.processor.prog_cnt as int, 0, rows as nat);
        let mut position: usize = self.processor.prog_cnt;
        let mut row: usize = 0;
        while row < rows
            invariant
                row <= rows,
                data == self@.program.data,
                old(writer)@ + all == writer@ + spec_rows(
                    data,
                    position as int,
                    row as nat,
                    rows as nat,
                ),
            decreases rows - row,
        {
            let ghost before = writer@;
            let ghost here = spec_rows(data, position as int, row as nat, rows as nat);
            if row == 0 {
                writer.append("@ADDR@OP@@ARG@@@@@@@@@@@@@@@@@@@\n");
                assert(writer@ + spec_rows(data, position as int, 1, rows as nat) =~= before
                    + here);
            } else if position < self.program.data.len() {
                let shown = self.shown_row(position, row == 1);
                writer.append(shown.0.as_str());
                assert(writer@ + spec_rows(data, shown.1 as int, (row + 1) as nat, rows as nat)
                    =~= before + here);
                position = shown.1;
            } else {
                writer.append("    -:---                   \n");
                assert(writer@ + spec_rows(data, position as int, (row + 1) as nat, rows as nat)
                    =~= before + here);
            }
            row += 1;
        }
        assert(writer@ + Seq::<char>::empty() =~= writer@);
    }

    /// A rule, a title and the atoms in cells below it.
    fn table_text(title: &str, values: &[VMAtom]) -> (text: String)
        ensures
            text@ == spec_table(title, values@),
    {
        reveal(spec_table);
        let mut text = String::from_str("--------------------------------\n");
        text.append(title);
        append_cells(&mut text, values);
        text.append("\n");
        text
    }

    /// The rule and the rows of the disassembly.
    fn listing_text(&self, rows: usize) -> (text: String)
        ensures
            text@ == spec_rule() + spec_rows(
                self@.program.data,
                self@.processor.prog_cnt as int,
                0,
                rows as nat,
            ),
    {
        let mut text = String::from_str("--------------------------------\n");
        self.write_rows(&mut text, rows);
        text
    }

    /// Appends the dashboard of the engine; see [`spec_dashboard`].
    #[verifier::rlimit(50)]
    pub fn write_dashboard(&self, writer: &mut String, mask: usize, disassm_lines: usize)
        ensures
            final(writer)@ == old(writer)@ + spec_dashboard(self@, mask, disassm_lines),
    {
        let ghost head = spec_part(mask % 2 == 1, spec_head(self@));
        let ghost registers = spec_part(
            (mask / 2) % 2 == 1,
            spec_table("REGS@@@|", self@.registers),
        );
        let ghost memory = spec_part((mask / 4) % 2 == 1, spec_table("MEMORY@|", self@.memory));
        let ghost rows = spec_part(
            disassm_lines != 0,
            spec_rule() + spec_rows(
                self@.program.data,
                self@.processor.prog_cnt as int,
                0,
                disassm_lines as nat,
            ),
        );
        let mut board = String::new();
        if mask % 2 == 1 {
            board.append(self.head_text().as_str());
        }
        assert(board@ =~= head);
        let ghost first = board@;
        if (mask / 2) % 2 == 1 {
            board.append(VirtMach::table_text("REGS@@@|", self.registers.as_slice()).as_str());
        }
        assert(board@ =~= first + registers);
        let ghost second = board@;
        if (mask / 4) % 2 == 1 {
            board.append(VirtMach::table_text("MEMORY@|", self.memory.as_slice()).as_str());
        }
        assert(board@ =~= second + memory);
        let ghost third = board@;
        if disassm_lines != 0 {
            board.append(self.listing_text(disassm_lines).as_str());
        }
        assert(board@ =~= third + rows);
        assert(board@ == head + registers + memory + rows);
        writer.append(board.as_str());
    }
}

} // verus!
