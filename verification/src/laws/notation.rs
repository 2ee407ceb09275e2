//! The written form of instructions: what the assembler reads, what the
//! decoder shows, and that the two agree.

use crate::assemble::{
    operand_byte, spec_first_word, spec_instruction, spec_line, spec_mnemonic, spec_opcode_at,
    spec_opcode_from, spec_opcode_named, spec_operation, spec_strip_comment, with_immediate,
    with_register,
};
use crate::atom::{atom_bytes, lemma_atom_round_trip};
use crate::compile::{
    spec_lookup, spec_parse_argument, ArgumentView, DefineView, LISTING_REGISTERS,
};
use crate::decompile::{spec_decimal_text, spec_decompile, spec_integer_text};
use crate::interrupts::DefView;
use crate::opcodes::OpCode;
use crate::text::{
    all_digits, decimal, is_space, spec_find, spec_lower, spec_parse_int, spec_split, spec_trim,
    spec_trim_end, spec_trim_start, BLANK, CLOSE, COLON, HASH, LETTER_R, MINUS, OPEN, SEMICOLON,
    ZERO,
};
use vstd::prelude::*;
use vstd::string::{is_ascii_spec_bytes, StringSliceAdditionalSpecFns};
use vstd::utf8::{encode_utf8, is_ascii_chars, is_ascii_chars_encode_utf8};

verus! {

/// How the instruction of an opcode with a register, a number or no
/// argument is shown: the mnemonic, and behind a blank the register as `r`
/// and its number, the immediate as `#` and its value, or the table index
/// of an `int` as a bare number.
pub open spec fn spec_shown(op: OpCode, argument: ArgumentView) -> Seq<char> {
    match argument {
        ArgumentView::Register(r) => spec_mnemonic(op)@ + " r"@ + spec_decimal_text(r as nat),
        ArgumentView::Atom(v) => if op == OpCode::INT {
            spec_mnemonic(op)@ + " "@ + spec_decimal_text(v as nat)
        } else {
            spec_mnemonic(op)@ + " #"@ + spec_integer_text(v as int)
        },
        _ => spec_mnemonic(op)@,
    }
}

/// The three letters of a mnemonic as bytes.
spec fn letters(op: OpCode) -> Seq<u8> {
    match op {
        OpCode::REG => seq![114u8, 101, 103],
        OpCode::SET => seq![115u8, 101, 116],
        OpCode::LOA => seq![108u8, 111, 97],
        OpCode::STO => seq![115u8, 116, 111],
        OpCode::PSH => seq![112u8, 115, 104],
        OpCode::POP => seq![112u8, 111, 112],
        OpCode::ADD => seq![97u8, 100, 100],
        OpCode::SUB => seq![115u8, 117, 98],
        OpCode::CAL => seq![99u8, 97, 108],
        OpCode::INT => seq![105u8, 110, 116],
        OpCode::JMP => seq![106u8, 109, 112],
        OpCode::JPZ => seq![106u8, 112, 122],
        OpCode::JPC => seq![106u8, 112, 99],
        OpCode::JPS => seq![106u8, 112, 115],
        OpCode::RET => seq![114u8, 101, 116],
        OpCode::CLR => seq![99u8, 108, 114],
        OpCode::INV => seq![105u8, 110, 118],
        OpCode::NEG => seq![110u8, 101, 103],
        OpCode::BRK => seq![98u8, 114, 107],
        OpCode::HLT => seq![104u8, 108, 116],
        OpCode::END => seq![101u8, 110, 100],
    }
}

proof fn lemma_letters(op: OpCode)
    ensures
        spec_mnemonic(op).spec_bytes() == letters(op),
        spec_lower(letters(op)) == letters(op),
{
    broadcast use is_ascii_spec_bytes;

    reveal_strlit("reg");
    reveal_strlit("set");
    reveal_strlit("loa");
    reveal_strlit("sto");
    reveal_strlit("psh");
    reveal_strlit("pop");
    reveal_strlit("add");
    reveal_strlit("sub");
    reveal_strlit("cal");
    reveal_strlit("int");
    reveal_strlit("jmp");
    reveal_strlit("jpz");
    reveal_strlit("jpc");
    reveal_strlit("jps");
    reveal_strlit("ret");
    reveal_strlit("clr");
    reveal_strlit("inv");
    reveal_strlit("neg");
    reveal_strlit("brk");
    reveal_strlit("hlt");
    reveal_strlit("end");
    let text = spec_mnemonic(op);
    assert(text@.len() == 3);
    assert(vstd::string::is_ascii(text));
    assert(text.spec_bytes() =~= letters(op));
    assert(spec_lower(letters(op)) =~= letters(op));
}

/// No two opcodes share a mnemonic.
proof fn lemma_letters_differ(a: OpCode, b: OpCode)
    requires
        a != b,
    ensures
        letters(a) != letters(b),
{
    let x = letters(a);
    let y = letters(b);
    assert(x[0] != y[0] || x[1] != y[1] || x[2] != y[2]);
}

proof fn lemma_named_from(op: OpCode, number: int, from: int)
    requires
        0 <= from <= number < 21,
        spec_opcode_at(number) == op,
        forall|k: int| from <= k < number ==> spec_opcode_at(k) != op,
    ensures
        spec_opcode_from(spec_mnemonic(op).spec_bytes(), from) == Some(op),
    decreases number - from,
{
    lemma_letters(op);
    if from < number {
        lemma_letters(spec_opcode_at(from));
        lemma_letters_differ(spec_opcode_at(from), op);
        lemma_named_from(op, number, from + 1);
    }
}

/// The number of an opcode in the order of the instruction set.
spec fn number_of(op: OpCode) -> int {
    match op {
        OpCode::REG => 0,
        OpCode::SET => 1,
        OpCode::LOA => 2,
        OpCode::STO => 3,
        OpCode::PSH => 4,
        OpCode::POP => 5,
        OpCode::ADD => 6,
        OpCode::SUB => 7,
        OpCode::CAL => 8,
        OpCode::INT => 9,
        OpCode::JMP => 10,
        OpCode::JPZ => 11,
        OpCode::JPC => 12,
        OpCode::JPS => 13,
        OpCode::RET => 14,
        OpCode::CLR => 15,
        OpCode::INV => 16,
        OpCode::NEG => 17,
        OpCode::BRK => 18,
        OpCode::HLT => 19,
        OpCode::END => 20,
    }
}

/// Every mnemonic names its own opcode.
pub proof fn lemma_mnemonic_names_its_opcode(op: OpCode)
    ensures
        spec_opcode_named(spec_mnemonic(op).spec_bytes()) == Some(op),
{
    lemma_named_from(op, number_of(op), 0);
}

/// A word names an opcode only where it is the opcode's mnemonic, whatever
/// the case of its letters.
pub proof fn lemma_named_opcode_has_the_mnemonic(word: Seq<u8>, from: int)
    requires
        0 <= from,
        spec_opcode_from(word, from) is Some,
    ensures
        spec_lower(word) == spec_mnemonic(spec_opcode_from(word, from)->0).spec_bytes(),
    decreases 21 - from,
{
    if from < 21 && spec_lower(word) != spec_mnemonic(spec_opcode_at(from)).spec_bytes() {
        lemma_named_opcode_has_the_mnemonic(word, from + 1);
    }
}

/// An instruction byte made of an opcode with operand and a nibble selects
/// that opcode again and holds the nibble.
pub proof fn lemma_operand_byte(op: OpCode, nibble: int)
    requires
        !op.spec_bare(),
        0 <= nibble < 16,
    ensures
        OpCode::spec_from_byte(operand_byte(op, nibble)) == Some(op),
        operand_byte(op, nibble) / 16 == nibble,
        operand_byte(op, nibble) % 16 == op.spec_byte(),
{
}

/// The byte of an opcode without operand selects that opcode again.
pub proof fn lemma_bare_byte(op: OpCode)
    requires
        op.spec_bare(),
    ensures
        OpCode::spec_from_byte(op.spec_byte()) == Some(op),
{
}

/// Assembling and then decoding for display gives the instruction back.
///
/// Whatever bytes stand before and after it: where an opcode with a
/// register, a number or no argument assembles, the bytes that it assembles
/// to are shown as that opcode with that argument, and the position behind
/// the instruction is the position behind those bytes.
#[verifier::rlimit(50)]
pub proof fn lemma_assembled_is_shown(
    op: OpCode,
    argument: ArgumentView,
    line: usize,
    defs: Seq<DefView>,
    before: Seq<u8>,
    after: Seq<u8>,
)
    requires
        argument is Register || argument is Atom || argument is Empty,
        argument matches ArgumentView::Register(r) ==> r < 15,
        spec_operation(op, argument, line, defs) is Ok,
        before.len() + 3 <= usize::MAX,
    ensures
        spec_decompile(
            before + spec_operation(op, argument, line, defs)->Ok_0.bytes + after,
            before.len() as int,
        ) == (
            spec_shown(op, argument),
            (before.len() + spec_operation(op, argument, line, defs)->Ok_0.bytes.len()) as int,
        ),
{
    let bytes = spec_operation(op, argument, line, defs)->Ok_0.bytes;
    let data = before + bytes + after;
    let at = before.len() as int;
    match argument {
        ArgumentView::Register(r) => {
            lemma_operand_byte(op, r as int);
            assert(bytes == with_register(op, r as int));
            assert(data[at] == bytes[0]);
        },
        ArgumentView::Atom(v) => {
            if op == OpCode::INT {
                lemma_operand_byte(op, v as int);
                assert(data[at] == bytes[0]);
            } else {
                lemma_operand_byte(op, 15);
                lemma_atom_round_trip(v);
                assert(bytes == with_immediate(op, v));
                assert(data[at] == bytes[0]);
                assert(data[at + 1] == atom_bytes(v)[0]);
                assert(data[at + 2] == atom_bytes(v)[1]);
            }
        },
        _ => {
            lemma_bare_byte(op);
            assert(data[at] == bytes[0]);
        },
    }
}

/// A natural number in decimal digits, as bytes.
pub open spec fn spec_decimal_bytes(n: nat) -> Seq<u8>
    decreases n,
{
    if n < 10 {
        seq![(ZERO + n) as u8]
    } else {
        spec_decimal_bytes(n / 10).push((ZERO + n % 10) as u8)
    }
}

/// An integer in decimal digits, with a minus sign where it is negative, as
/// bytes.
pub open spec fn spec_integer_bytes(v: int) -> Seq<u8> {
    if v < 0 {
        seq![MINUS] + spec_decimal_bytes((-v) as nat)
    } else {
        spec_decimal_bytes(v as nat)
    }
}

/// How a listing writes the argument of an instruction: a register as `r`
/// and its number, a number as `#` and its value, nothing for none.
pub open spec fn spec_written_argument(argument: ArgumentView) -> Seq<u8> {
    match argument {
        ArgumentView::Register(r) => seq![LETTER_R] + spec_decimal_bytes(r as nat),
        ArgumentView::Atom(v) => seq![HASH] + spec_integer_bytes(v as int),
        _ => Seq::empty(),
    }
}

/// How a listing writes the instruction of an opcode with a register, a
/// number or no argument: the mnemonic, and behind a blank the argument.
pub open spec fn spec_written(op: OpCode, argument: ArgumentView) -> Seq<u8> {
    if argument is Register || argument is Atom {
        spec_mnemonic(op).spec_bytes() + seq![BLANK] + spec_written_argument(argument)
    } else {
        spec_mnemonic(op).spec_bytes()
    }
}

/// Whether every byte is a small letter, a digit, `#` or `-`: what the
/// written form of an instruction is made of, besides the blank.
spec fn wordy(s: Seq<u8>) -> bool {
    forall|i: int|
        0 <= i < s.len() ==> (97 <= #[trigger] s[i] <= 122) || (48 <= s[i] <= 57) || s[i] == HASH
            || s[i] == MINUS
}

proof fn lemma_decimal_bytes(n: nat)
    ensures
        spec_decimal_bytes(n).len() >= 1,
        all_digits(spec_decimal_bytes(n)),
        decimal(spec_decimal_bytes(n)) == n,
        wordy(spec_decimal_bytes(n)),
    decreases n,
{
    let text = spec_decimal_bytes(n);
    if n < 10 {
        assert(text.drop_last() =~= Seq::<u8>::empty());
        assert(decimal(text.drop_last()) == 0);
    } else {
        lemma_decimal_bytes(n / 10);
        assert(text.drop_last() =~= spec_decimal_bytes(n / 10));
        assert(text.last() == (ZERO + n % 10) as u8);
        assert forall|i: int| 0 <= i < text.len() implies ZERO <= #[trigger] text[i] <= 57 by {
            if i < text.len() - 1 {
                assert(text[i] == spec_decimal_bytes(n / 10)[i]);
            }
        }
    }
}

proof fn lemma_find_absent(s: Seq<u8>, b: u8)
    requires
        forall|i: int| 0 <= i < s.len() ==> #[trigger] s[i] != b,
    ensures
        spec_find(s, b) == s.len(),
    decreases s.len(),
{
    if s.len() > 0 {
        assert(s[0] != b);
        assert forall|i: int| 0 <= i < s.skip(1).len() implies #[trigger] s.skip(1)[i] != b by {
            assert(s.skip(1)[i] == s[i + 1]);
        }
        lemma_find_absent(s.skip(1), b);
    }
}

proof fn lemma_find_first(a: Seq<u8>, b: Seq<u8>, sep: u8)
    requires
        forall|i: int| 0 <= i < a.len() ==> #[trigger] a[i] != sep,
    ensures
        spec_find(a + seq![sep] + b, sep) == a.len(),
    decreases a.len(),
{
    let s = a + seq![sep] + b;
    if a.len() > 0 {
        assert(s[0] == a[0]);
        assert(s.skip(1) =~= a.skip(1) + seq![sep] + b);
        assert forall|i: int| 0 <= i < a.skip(1).len() implies #[trigger] a.skip(1)[i] != sep by {
            assert(a.skip(1)[i] == a[i + 1]);
        }
        lemma_find_first(a.skip(1), b, sep);
    } else {
        assert(s[0] == sep);
    }
}

proof fn lemma_trim_nothing(s: Seq<u8>)
    requires
        s.len() > 0 ==> !is_space(s[0]) && !is_space(s.last()),
    ensures
        spec_trim(s) == s,
{
    assert(spec_trim_start(s) == s);
    assert(spec_trim_end(s) == s);
}

proof fn lemma_wordy(s: Seq<u8>)
    requires
        wordy(s),
    ensures
        spec_trim(s) == s,
        spec_find(s, BLANK) == s.len(),
        spec_find(s, SEMICOLON) == s.len(),
        spec_find(s, OPEN) == s.len(),
        s.len() > 0 ==> s.last() != COLON && s.last() != CLOSE,
{
    if s.len() > 0 {
        assert((97 <= s[0] <= 122) || (48 <= s[0] <= 57) || s[0] == HASH || s[0] == MINUS);
        let z = s.len() - 1;
        assert((97 <= s[z] <= 122) || (48 <= s[z] <= 57) || s[z] == HASH || s[z] == MINUS);
    }
    lemma_trim_nothing(s);
    lemma_find_absent(s, BLANK);
    lemma_find_absent(s, SEMICOLON);
    lemma_find_absent(s, OPEN);
}

/// The names of the extremes start with a letter.
proof fn lemma_extremes_are_words()
    ensures
        "min".spec_bytes().len() == 3,
        "max".spec_bytes().len() == 3,
        "min".spec_bytes()[0] == 109,
        "max".spec_bytes()[0] == 109,
{
    broadcast use is_ascii_spec_bytes;

    reveal_strlit("min");
    reveal_strlit("max");
    assert(vstd::string::is_ascii("min"));
    assert(vstd::string::is_ascii("max"));
}

proof fn lemma_written_argument(argument: ArgumentView, defines: Seq<DefineView>)
    requires
        argument matches ArgumentView::Register(r) ==> r < LISTING_REGISTERS,
        argument is Register || argument is Atom || argument is Empty,
        spec_lookup(defines, spec_written_argument(argument)) is None,
    ensures
        spec_parse_argument(spec_written_argument(argument), defines) == argument,
        wordy(spec_written_argument(argument)),
        argument is Empty <==> spec_written_argument(argument).len() == 0,
{
    let text = spec_written_argument(argument);
    match argument {
        ArgumentView::Register(r) => {
            let digits = spec_decimal_bytes(r as nat);
            lemma_decimal_bytes(r as nat);
            assert(text.skip(1) =~= digits);
            assert(text[1] == digits[0]);
            assert(ZERO <= digits[0] <= 57);
            assert(spec_parse_int(digits) == Some(r as int));
            assert forall|i: int| 0 <= i < text.len() implies (97 <= #[trigger] text[i] <= 122)
                || (48 <= text[i] <= 57) || text[i] == HASH || text[i] == MINUS by {
                if i > 0 {
                    assert(text[i] == digits[i - 1]);
                }
            }
        },
        ArgumentView::Atom(v) => {
            let number = spec_integer_bytes(v as int);
            let size = if v < 0 {
                (-v) as nat
            } else {
                v as nat
            };
            let digits = spec_decimal_bytes(size);
            lemma_decimal_bytes(size);
            assert(text.skip(1) =~= number);
            assert(ZERO <= digits[0] <= 57);
            if v < 0 {
                assert(number.skip(1) =~= digits);
                assert(number[0] == MINUS);
                assert(spec_parse_int(number) == Some(v as int));
            } else {
                assert(number[0] == digits[0]);
                assert(spec_parse_int(number) == Some(v as int));
            }
            lemma_extremes_are_words();
            assert forall|i: int| 0 <= i < text.len() implies (97 <= #[trigger] text[i] <= 122)
                || (48 <= text[i] <= 57) || text[i] == HASH || text[i] == MINUS by {
                if i > 0 {
                    assert(text[i] == number[i - 1]);
                    if v < 0 && i > 1 {
                        assert(number[i - 1] == digits[i - 2]);
                    }
                }
            }
        },
        _ => {},
    }
}

/// No byte of `a` or of `b` is `sep`, and so none of `a`, a blank and `b`.
proof fn lemma_joined_lacks(a: Seq<u8>, b: Seq<u8>, sep: u8)
    requires
        sep != BLANK,
        forall|i: int| 0 <= i < a.len() ==> #[trigger] a[i] != sep,
        forall|i: int| 0 <= i < b.len() ==> #[trigger] b[i] != sep,
    ensures
        spec_find(a + seq![BLANK] + b, sep) == (a + seq![BLANK] + b).len(),
{
    let s = a + seq![BLANK] + b;
    assert forall|i: int| 0 <= i < s.len() implies #[trigger] s[i] != sep by {
        if i < a.len() {
            assert(s[i] == a[i]);
        } else if i > a.len() {
            assert(s[i] == b[i - a.len() - 1]);
        }
    }
    lemma_find_absent(s, sep);
}

/// Two words with a blank between them split into the two words.
proof fn lemma_split_pair(a: Seq<u8>, b: Seq<u8>)
    requires
        forall|i: int| 0 <= i < a.len() ==> #[trigger] a[i] != BLANK,
        forall|i: int| 0 <= i < b.len() ==> #[trigger] b[i] != BLANK,
    ensures
        spec_split(a + seq![BLANK] + b, BLANK) == seq![a, b],
{
    let s = a + seq![BLANK] + b;
    lemma_find_first(a, b, BLANK);
    lemma_find_absent(b, BLANK);
    assert(s.take(a.len() as int) =~= a);
    assert(s.skip(a.len() as int + 1) =~= b);
    assert(spec_split(b, BLANK) =~= seq![b]);
    assert(spec_split(s, BLANK) =~= seq![a, b]);
}

/// A word is made of bytes that are neither a blank nor a semicolon.
proof fn lemma_wordy_bytes(s: Seq<u8>)
    requires
        wordy(s),
    ensures
        forall|i: int| 0 <= i < s.len() ==> #[trigger] s[i] != BLANK,
        forall|i: int| 0 <= i < s.len() ==> #[trigger] s[i] != SEMICOLON,
        s.len() > 0 ==> s.last() != COLON && s.last() != CLOSE && !is_space(s.last())
            && !is_space(s[0]),
{
    if s.len() > 0 {
        let z = s.len() - 1;
        assert((97 <= s[0] <= 122) || (48 <= s[0] <= 57) || s[0] == HASH || s[0] == MINUS);
        assert((97 <= s[z] <= 122) || (48 <= s[z] <= 57) || s[z] == HASH || s[z] == MINUS);
    }
}

/// The written form of an instruction is one or two words without white
/// space around them, without comment, and without the marks of a
/// directive, a label or a call.
#[verifier::rlimit(80)]
proof fn lemma_written_shape(op: OpCode, argument: ArgumentView, defines: Seq<DefineView>)
    requires
        argument is Register || argument is Atom || argument is Empty,
        argument matches ArgumentView::Register(r) ==> r < LISTING_REGISTERS,
        spec_lookup(defines, spec_written_argument(argument)) is None,
    ensures
        ({
            let text = spec_written(op, argument);
            let name = spec_mnemonic(op).spec_bytes();
            let written = spec_written_argument(argument);
            &&& text.len() > 0
            &&& text[0] != HASH
            &&& text.last() != COLON
            &&& text.last() != CLOSE
            &&& spec_trim(text) == text
            &&& spec_strip_comment(text) == text
            &&& spec_trim(name) == name
            &&& spec_trim(written) == written
            &&& argument is Empty ==> spec_split(text, BLANK) == seq![name]
            &&& !(argument is Empty) ==> spec_split(text, BLANK) == seq![name, written]
                && written.len() > 0
        }),
{
    let name = spec_mnemonic(op).spec_bytes();
    let written = spec_written_argument(argument);
    let text = spec_written(op, argument);
    lemma_letters(op);
    lemma_written_argument(argument, defines);
    assert(name.len() == 3);
    assert(97 <= name[0] <= 122 && 97 <= name[1] <= 122 && 97 <= name[2] <= 122) by {
        assert(name == letters(op));
    }
    assert(wordy(name));
    lemma_wordy(name);
    lemma_wordy(written);
    lemma_wordy_bytes(name);
    lemma_wordy_bytes(written);
    if argument is Empty {
        assert(text == name);
        assert(spec_strip_comment(text) =~= text);
        assert(spec_split(text, BLANK) =~= seq![text]);
    } else {
        assert(text == name + seq![BLANK] + written);
        assert(text[0] == name[0]);
        assert(text.last() == written.last());
        lemma_trim_nothing(text);
        lemma_joined_lacks(name, written, SEMICOLON);
        assert(spec_strip_comment(text) =~= text);
        lemma_split_pair(name, written);
    }
}

/// The written form of an instruction assembles, as an instruction line, to
/// the bytes of the opcode with its argument.
proof fn lemma_written_instruction(
    op: OpCode,
    argument: ArgumentView,
    line: usize,
    defines: Seq<DefineView>,
    defs: Seq<DefView>,
)
    requires
        argument is Register || argument is Atom || argument is Empty,
        argument matches ArgumentView::Register(r) ==> r < LISTING_REGISTERS,
        spec_lookup(defines, spec_written_argument(argument)) is None,
    ensures
        spec_instruction(spec_written(op, argument), line, defines, defs) == spec_operation(
            op,
            argument,
            line,
            defs,
        ),
{
    let name = spec_mnemonic(op).spec_bytes();
    let written = spec_written_argument(argument);
    let text = spec_written(op, argument);
    lemma_written_shape(op, argument, defines);
    lemma_letters(op);
    lemma_mnemonic_names_its_opcode(op);
    lemma_written_argument(argument, defines);
    let pieces = spec_split(text, BLANK);
    assert(spec_trim(pieces[0]) == name);
    assert(name.len() == 3);
    if argument is Empty {
        assert(spec_first_word(pieces, 1) =~= Seq::<u8>::empty());
        assert(spec_first_word(pieces, 1) == written);
    } else {
        assert(spec_first_word(pieces, 1) == written);
    }
}

/// A listing that writes an instruction in the form in which it is shown
/// assembles to that instruction.
///
/// Take an opcode with a register that a listing can name, with a number, or
/// with no argument, and write it as the mnemonic and, behind a blank, the
/// argument. Where no define stands for the written argument, the line
/// assembles as the opcode with that argument does: to the bytes of the
/// instruction and nothing else, or to the fault of the pair.
pub proof fn lemma_written_assembles(
    op: OpCode,
    argument: ArgumentView,
    line: usize,
    defines: Seq<DefineView>,
    defs: Seq<DefView>,
)
    requires
        argument is Register || argument is Atom || argument is Empty,
        argument matches ArgumentView::Register(r) ==> r < LISTING_REGISTERS,
        spec_lookup(defines, spec_written_argument(argument)) is None,
    ensures
        spec_line(spec_written(op, argument), line, defines, defs) == spec_operation(
            op,
            argument,
            line,
            defs,
        ),
{
    reveal(spec_line);
    let text = spec_written(op, argument);
    lemma_written_shape(op, argument, defines);
    lemma_written_instruction(op, argument, line, defines, defs);
    assert(spec_trim(spec_strip_comment(spec_trim(text))) == text);
}

/// The characters of a text as bytes, one for one.
spec fn narrowed(chars: Seq<char>) -> Seq<u8> {
    Seq::new(chars.len(), |i: int| chars[i] as u8)
}

proof fn lemma_narrowed_concat(a: Seq<char>, b: Seq<char>)
    requires
        is_ascii_chars(a),
        is_ascii_chars(b),
    ensures
        is_ascii_chars(a + b),
        narrowed(a + b) == narrowed(a) + narrowed(b),
{
    assert forall|i: int| 0 <= i < (a + b).len() implies '\0' <= #[trigger] (a + b)[i]
        <= '\u{7f}' by {
        if i < a.len() {
            assert((a + b)[i] == a[i]);
        } else {
            assert((a + b)[i] == b[i - a.len()]);
        }
    }
    assert(narrowed(a + b) =~= narrowed(a) + narrowed(b));
}

proof fn lemma_decimal_text(n: nat)
    ensures
        is_ascii_chars(spec_decimal_text(n)),
        narrowed(spec_decimal_text(n)) == spec_decimal_bytes(n),
    decreases n,
{
    let text = spec_decimal_text(n);
    if n >= 10 {
        lemma_decimal_text(n / 10);
        let head = spec_decimal_text(n / 10);
        assert forall|i: int| 0 <= i < text.len() implies '\0' <= #[trigger] text[i]
            <= '\u{7f}' by {
            if i < head.len() {
                assert(text[i] == head[i]);
            }
        }
        assert forall|i: int| 0 <= i < text.len() implies narrowed(text)[i] == spec_decimal_bytes(
            n,
        )[i] by {
            if i < head.len() {
                assert(text[i] == head[i]);
                assert(narrowed(head)[i] == spec_decimal_bytes(n / 10)[i]);
            }
        }
    }
    assert(narrowed(text) =~= spec_decimal_bytes(n));
}

proof fn lemma_mnemonic_text(op: OpCode)
    ensures
        is_ascii_chars(spec_mnemonic(op)@),
        narrowed(spec_mnemonic(op)@) == spec_mnemonic(op).spec_bytes(),
{
    broadcast use is_ascii_spec_bytes;

    reveal_strlit("reg");
    reveal_strlit("set");
    reveal_strlit("loa");
    reveal_strlit("sto");
    reveal_strlit("psh");
    reveal_strlit("pop");
    reveal_strlit("add");
    reveal_strlit("sub");
    reveal_strlit("cal");
    reveal_strlit("int");
    reveal_strlit("jmp");
    reveal_strlit("jpz");
    reveal_strlit("jpc");
    reveal_strlit("jps");
    reveal_strlit("ret");
    reveal_strlit("clr");
    reveal_strlit("inv");
    reveal_strlit("neg");
    reveal_strlit("brk");
    reveal_strlit("hlt");
    reveal_strlit("end");
    let text = spec_mnemonic(op);
    assert(text@.len() == 3);
    assert(vstd::string::is_ascii(text));
    assert(narrowed(text@) =~= text.spec_bytes());
}

/// What is shown of an instruction is, byte for byte, what a listing
/// writes for it.
///
/// For an opcode with a register, with no argument, or with a number where
/// the opcode is not `int`, the text that shows the instruction is plain
/// ASCII and its bytes are the written form of the instruction.
pub proof fn lemma_shown_is_written(op: OpCode, argument: ArgumentView)
    requires
        argument is Register || argument is Empty || (argument is Atom && op != OpCode::INT),
    ensures
        is_ascii_chars(spec_shown(op, argument)),
        encode_utf8(spec_shown(op, argument)) == spec_written(op, argument),
{
    let name = spec_mnemonic(op)@;
    lemma_mnemonic_text(op);
    reveal_strlit(" r");
    reveal_strlit(" #");
    match argument {
        ArgumentView::Register(r) => {
            let digits = spec_decimal_text(r as nat);
            lemma_decimal_text(r as nat);
            assert(is_ascii_chars(" r"@));
            lemma_narrowed_concat(name, " r"@);
            lemma_narrowed_concat(name + " r"@, digits);
            assert(narrowed(" r"@) =~= seq![BLANK, LETTER_R]);
            assert(narrowed(spec_shown(op, argument)) =~= spec_written(op, argument));
        },
        ArgumentView::Atom(v) => {
            let size = if v < 0 {
                (-v) as nat
            } else {
                v as nat
            };
            let digits = spec_decimal_text(size);
            lemma_decimal_text(size);
            let number = spec_integer_text(v as int);
            if v < 0 {
                assert(is_ascii_chars(seq!['-']));
                lemma_narrowed_concat(seq!['-'], digits);
                assert(narrowed(seq!['-']) =~= seq![MINUS]);
            }
            assert(is_ascii_chars(number));
            assert(narrowed(number) == spec_integer_bytes(v as int));
            assert(is_ascii_chars(" #"@));
            lemma_narrowed_concat(name, " #"@);
            lemma_narrowed_concat(name + " #"@, number);
            assert(narrowed(" #"@) =~= seq![BLANK, HASH]);
            assert(narrowed(spec_shown(op, argument)) =~= spec_written(op, argument));
        },
        _ => {},
    }
    let shown = spec_shown(op, argument);
    is_ascii_chars_encode_utf8(shown);
    assert(encode_utf8(shown) =~= narrowed(shown));
}

/// Assembling what is shown of an instruction gives the instruction back.
///
/// Take an opcode with a register that a listing can name, with no
/// argument, or with a number where the opcode is not `int`. Where no
/// define stands for the argument as it is shown, a line that holds the
/// text that shows the instruction assembles as the opcode with that
/// argument does.
pub proof fn lemma_shown_assembles(
    op: OpCode,
    argument: ArgumentView,
    line: usize,
    defines: Seq<DefineView>,
    defs: Seq<DefView>,
)
    requires
        argument is Register || argument is Empty || (argument is Atom && op != OpCode::INT),
        argument matches ArgumentView::Register(r) ==> r < LISTING_REGISTERS,
        spec_lookup(defines, spec_written_argument(argument)) is None,
    ensures
        spec_line(encode_utf8(spec_shown(op, argument)), line, defines, defs) == spec_operation(
            op,
            argument,
            line,
            defs,
        ),
{
    lemma_shown_is_written(op, argument);
    lemma_written_assembles(op, argument, line, defines, defs);
}

} // verus!
