//! Decoding for display: one encoded instruction back to mnemonic text.

use crate::assemble::{mnemonic, spec_mnemonic};
use crate::atom::{decode_atom, spec_decode_atom, VMAtom};
use crate::opcodes::OpCode;
use crate::program::Program;
use crate::virtmach::VirtMach;
use vstd::prelude::*;
use vstd::string::StringExecFns;

verus! {

/// The character of a decimal digit.
pub open spec fn spec_digit(d: int) -> char {
    if d == 0 {
        '0'
    } else if d == 1 {
        '1'
    } else if d == 2 {
        '2'
    } else if d == 3 {
        '3'
    } else if d == 4 {
        '4'
    } else if d == 5 {
        '5'
    } else if d == 6 {
        '6'
    } else if d == 7 {
        '7'
    } else if d == 8 {
        '8'
    } else {
        '9'
    }
}

/// A natural number in decimal digits, without leading zeros.
pub open spec fn spec_decimal_text(n: nat) -> Seq<char>
    decreases n,
{
    if n < 10 {
        seq![spec_digit(n as int)]
    } else {
        spec_decimal_text(n / 10).push(spec_digit((n % 10) as int))
    }
}

/// An integer in decimal digits, with a minus sign where it is negative.
pub open spec fn spec_integer_text(v: int) -> Seq<char> {
    if v < 0 {
        seq!['-'] + spec_decimal_text((-v) as nat)
    } else {
        spec_decimal_text(v as nat)
    }
}

/// The text of the instruction at `position` in `data`, and the position
/// behind the instruction.
///
/// A position outside the program gives a question mark and position zero.
/// A byte that is no instruction gives a question mark, padded to the width
/// of a mnemonic. An opcode without operand gives its mnemonic. `reg` shows
/// its high nibble as a register, `int` as a number. Any other opcode shows
/// a register, or behind `#` the immediate that follows the byte, which
/// takes two bytes more. The position behind the instruction stops at the
/// largest machine word.
pub open spec fn spec_decompile(data: Seq<u8>, position: int) -> (Seq<char>, int) {
    if position < 0 || position >= data.len() {
        ("?"@, 0)
    } else {
        let byte = data[position];
        let nibble = (byte / 16) as nat;
        match OpCode::spec_from_byte(byte) {
            None => ("?  "@, position + 1),
            Some(op) => if op.spec_bare() {
                (spec_mnemonic(op)@, position + 1)
            } else if op == OpCode::INT {
                (spec_mnemonic(op)@ + " "@ + spec_decimal_text(nibble), position + 1)
            } else if op == OpCode::REG || nibble != 15 {
                (spec_mnemonic(op)@ + " r"@ + spec_decimal_text(nibble), position + 1)
            } else {
                (
                    spec_mnemonic(op)@ + " #"@ + spec_integer_text(
                        spec_decode_atom(data, position + 1) as int,
                    ),
                    if position + 3 <= usize::MAX {
                        position + 3
                    } else {
                        usize::MAX as int
                    },
                )
            },
        }
    }
}

/// The text of a decimal digit.
fn digit_text(d: u64) -> (text: &'static str)
    requires
        d < 10,
    ensures
        text@ == seq![spec_digit(d as int)],
{
    proof {
        reveal_strlit("0");
        reveal_strlit("1");
        reveal_strlit("2");
        reveal_strlit("3");
        reveal_strlit("4");
        reveal_strlit("5");
        reveal_strlit("6");
        reveal_strlit("7");
        reveal_strlit("8");
        reveal_strlit("9");
    }
    let text = if d == 0 {
        "0"
    } else if d == 1 {
        "1"
    } else if d == 2 {
        "2"
    } else if d == 3 {
        "3"
    } else if d == 4 {
        "4"
    } else if d == 5 {
        "5"
    } else if d == 6 {
        "6"
    } else if d == 7 {
        "7"
    } else if d == 8 {
        "8"
    } else {
        "9"
    };
    assert(text@ =~= seq![spec_digit(d as int)]);
    text
}

/// Appends a natural number in decimal digits.
pub fn append_decimal(text: &mut String, n: u64)
    ensures
        final(text)@ == old(text)@ + spec_decimal_text(n as nat),
    decreases n,
{
    if n >= 10 {
        append_decimal(text, n / 10);
    }
    let ghost before = text@;
    text.append(digit_text(n % 10));
    assert(text@ =~= old(text)@ + spec_decimal_text(n as nat));
}

/// Appends an atom in decimal digits, with a minus sign where it is
/// negative.
pub fn append_atom(text: &mut String, v: VMAtom)
    ensures
        final(text)@ == old(text)@ + spec_integer_text(v as int),
{
    proof {
        reveal_strlit("-");
    }
    if v < 0 {
        text.append("-");
        append_decimal(text, (-(v as i32)) as u64);
        assert(text@ =~= old(text)@ + spec_integer_text(v as int));
    } else {
        append_decimal(text, v as u64);
    }
}

impl VirtMach {
    /// The text of the instruction at `position` in the program's bytes, and
    /// the position behind the instruction; see [`spec_decompile`].
    pub fn decompile(program: &Program, position: usize) -> (shown: (String, usize))
        ensures
            shown.0@ == spec_decompile(program@.data, position as int).0,
            shown.1 == spec_decompile(program@.data, position as int).1,
    {
        if position >= program.data.len() {
            return (String::from_str("?"), 0);
        }
        let byte: u8 = program.data[position];
        let nibble: u64 = (byte / 16) as u64;
        match OpCode::from_byte(byte) {
            None => (String::from_str("?  "), position + 1),
            Some(op) => {
                let mut text = String::from_str(mnemonic(op));
                if op.bare() {
                    (text, position + 1)
                } else if byte % 16 == 9 {
                    text.append(" ");
                    append_decimal(&mut text, nibble);
                    (text, position + 1)
                } else if byte % 16 == 0 || nibble != 15 {
                    text.append(" r");
                    append_decimal(&mut text, nibble);
                    (text, position + 1)
                } else {
                    text.append(" #");
                    append_atom(&mut text, decode_atom(program.data.as_slice(), position + 1));
                    let next: usize = if position <= usize::MAX - 3 {
                        position + 3
                    } else {
                        usize::MAX
                    };
                    (text, next)
                }
            },
        }
    }
}

} // verus!
