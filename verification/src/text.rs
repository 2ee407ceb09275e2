//! Byte-string helpers with which the assembler takes a listing apart:
//! trimming, searching, splitting and reading decimal numbers.

use vstd::prelude::*;
use vstd::slice::slice_subrange;
use vstd::string::StringSliceAdditionalSpecFns;
use vstd::utf8::valid_utf8;

verus! {

/// The line feed between two lines.
pub const LINE_FEED: u8 = 10;

/// The blank between two words.
pub const BLANK: u8 = 32;

/// `#`, which opens a directive and an immediate.
pub const HASH: u8 = 35;

/// `(`, which opens the inputs of a call.
pub const OPEN: u8 = 40;

/// `)`, which closes the inputs of a call.
pub const CLOSE: u8 = 41;

/// `+`, a sign.
pub const PLUS: u8 = 43;

/// `,`, between the items of a list.
pub const COMMA: u8 = 44;

/// `-`, a sign.
pub const MINUS: u8 = 45;

/// `.`, between the name of a definition and that of a function.
pub const DOT: u8 = 46;

/// `0`, the least digit.
pub const ZERO: u8 = 48;

/// `9`, the greatest digit.
pub const NINE: u8 = 57;

/// `:`, which ends a label.
pub const COLON: u8 = 58;

/// `;`, which opens a comment.
pub const SEMICOLON: u8 = 59;

/// `=`, between the outputs of a call and its name.
pub const EQUALS: u8 = 61;

/// `_`, the wildcard.
pub const UNDERSCORE: u8 = 95;

/// `r`, which opens a register.
pub const LETTER_R: u8 = 114;

/// ASCII white space: blank, tab, line feed, vertical tab, form feed and
/// carriage return.
pub open spec fn is_space(b: u8) -> bool {
    b == BLANK || (9 <= b && b <= 13)
}

/// `s` without its leading white space.
pub open spec fn spec_trim_start(s: Seq<u8>) -> Seq<u8>
    decreases s.len(),
{
    if s.len() > 0 && is_space(s[0]) {
        spec_trim_start(s.skip(1))
    } else {
        s
    }
}

/// `s` without its trailing white space.
pub open spec fn spec_trim_end(s: Seq<u8>) -> Seq<u8>
    decreases s.len(),
{
    if s.len() > 0 && is_space(s.last()) {
        spec_trim_end(s.drop_last())
    } else {
        s
    }
}

/// `s` without leading and trailing white space.
pub open spec fn spec_trim(s: Seq<u8>) -> Seq<u8> {
    spec_trim_end(spec_trim_start(s))
}

/// Index of the first `b` in `s`, or the length of `s` where there is none.
pub open spec fn spec_find(s: Seq<u8>, b: u8) -> int
    decreases s.len(),
{
    if s.len() == 0 {
        0
    } else if s[0] == b {
        0
    } else {
        1 + spec_find(s.skip(1), b)
    }
}

/// The pieces of `s` between occurrences of `sep`, in order. There is one
/// piece more than there are separators; pieces may be empty.
pub open spec fn spec_split(s: Seq<u8>, sep: u8) -> Seq<Seq<u8>>
    decreases s.len(),
{
    let i = spec_find(s, sep);
    if 0 <= i < s.len() {
        seq![s.take(i)] + spec_split(s.skip(i + 1), sep)
    } else {
        seq![s]
    }
}

/// The pieces that are not empty, in order.
pub open spec fn spec_non_empty(pieces: Seq<Seq<u8>>) -> Seq<Seq<u8>>
    decreases pieces.len(),
{
    if pieces.len() == 0 {
        Seq::empty()
    } else if pieces[0].len() == 0 {
        spec_non_empty(pieces.skip(1))
    } else {
        seq![pieces[0]] + spec_non_empty(pieces.skip(1))
    }
}

/// Length of all pieces together, each counted with one separator.
pub open spec fn spec_total(pieces: Seq<Seq<u8>>) -> nat
    decreases pieces.len(),
{
    if pieces.len() == 0 {
        0
    } else {
        spec_total(pieces.drop_last()) + pieces.last().len() + 1
    }
}

/// The byte strings that a vector of slices holds.
pub open spec fn views(pieces: Seq<&[u8]>) -> Seq<Seq<u8>> {
    Seq::new(pieces.len(), |i: int| pieces[i]@)
}

/// An upper-case ASCII letter becomes lower case; any other byte stays.
pub open spec fn lower_byte(b: u8) -> u8 {
    if 65 <= b && b <= 90 {
        (b + 32) as u8
    } else {
        b
    }
}

/// `s` with its upper-case ASCII letters in lower case.
pub open spec fn spec_lower(s: Seq<u8>) -> Seq<u8> {
    Seq::new(s.len(), |i: int| lower_byte(s[i]))
}

/// Whether every byte of `s` is an ASCII digit.
pub open spec fn all_digits(s: Seq<u8>) -> bool {
    forall|i: int| 0 <= i < s.len() ==> ZERO <= #[trigger] s[i] <= NINE
}

/// The number that the digits of `s` spell in base ten.
pub open spec fn decimal(s: Seq<u8>) -> int
    decreases s.len(),
{
    if s.len() == 0 {
        0
    } else {
        decimal(s.drop_last()) * 10 + (s.last() - ZERO)
    }
}

/// The integer that `s` spells: an optional sign, `+` or `-`, and then at
/// least one digit and nothing else.
pub open spec fn spec_parse_int(s: Seq<u8>) -> Option<int> {
    if s.len() > 0 && s[0] == PLUS {
        if s.len() > 1 && all_digits(s.skip(1)) {
            Some(decimal(s.skip(1)))
        } else {
            None
        }
    } else if s.len() > 0 && s[0] == MINUS {
        if s.len() > 1 && all_digits(s.skip(1)) {
            Some(-decimal(s.skip(1)))
        } else {
            None
        }
    } else if s.len() > 0 && all_digits(s) {
        Some(decimal(s))
    } else {
        None
    }
}

/// The integer that `s` spells, where it lies between `low` and `high`.
pub open spec fn spec_parse_within(s: Seq<u8>, low: int, high: int) -> Option<int> {
    match spec_parse_int(s) {
        Some(v) => if low <= v <= high {
            Some(v)
        } else {
            None
        },
        None => None,
    }
}

pub proof fn lemma_find_bounds(s: Seq<u8>, b: u8)
    ensures
        0 <= spec_find(s, b) <= s.len(),
        spec_find(s, b) < s.len() ==> s[spec_find(s, b)] == b,
        forall|j: int| 0 <= j < spec_find(s, b) ==> s[j] != b,
    decreases s.len(),
{
    if s.len() > 0 && s[0] != b {
        lemma_find_bounds(s.skip(1), b);
        assert forall|j: int| 0 <= j < spec_find(s, b) implies s[j] != b by {
            if j > 0 {
                assert(s.skip(1)[j - 1] == s[j]);
            }
        }
    }
}

/// The pieces of a split are at most one more than the bytes split, and
/// together with their separators they are as long as what was split.
pub proof fn lemma_split_total(s: Seq<u8>, sep: u8)
    ensures
        1 <= spec_split(s, sep).len() <= s.len() + 1,
        spec_total(spec_split(s, sep)) == s.len() + 1,
    decreases s.len(),
{
    lemma_find_bounds(s, sep);
    let i = spec_find(s, sep);
    if 0 <= i < s.len() {
        let rest = spec_split(s.skip(i + 1), sep);
        lemma_split_total(s.skip(i + 1), sep);
        lemma_total_prepend(s.take(i), rest);
    } else {
        assert(seq![s].drop_last() =~= Seq::<Seq<u8>>::empty());
        assert(seq![s].last() == s);
        assert(spec_total(seq![s].drop_last()) == 0);
    }
}

/// All pieces together are at least as long as any one of them and one
/// separator for each.
pub proof fn lemma_total_lower(pieces: Seq<Seq<u8>>, k: int)
    requires
        0 <= k < pieces.len(),
    ensures
        spec_total(pieces) >= pieces[k].len() + pieces.len(),
    decreases pieces.len(),
{
    if k < pieces.len() - 1 {
        lemma_total_lower(pieces.drop_last(), k);
    } else {
        lemma_total_count(pieces.drop_last());
    }
}

/// The first `n` pieces are together no longer than all of them.
pub proof fn lemma_total_take(pieces: Seq<Seq<u8>>, n: int)
    requires
        0 <= n <= pieces.len(),
    ensures
        spec_total(pieces.take(n)) <= spec_total(pieces),
    decreases pieces.len() - n,
{
    if n < pieces.len() {
        assert(pieces.take(n + 1).drop_last() =~= pieces.take(n));
        lemma_total_take(pieces, n + 1);
    } else {
        assert(pieces.take(n) =~= pieces);
    }
}

proof fn lemma_total_count(pieces: Seq<Seq<u8>>)
    ensures
        spec_total(pieces) >= pieces.len(),
    decreases pieces.len(),
{
    if pieces.len() > 0 {
        lemma_total_count(pieces.drop_last());
    }
}

proof fn lemma_total_prepend(first: Seq<u8>, rest: Seq<Seq<u8>>)
    ensures
        spec_total(seq![first] + rest) == first.len() + 1 + spec_total(rest),
    decreases rest.len(),
{
    let all = seq![first] + rest;
    if rest.len() == 0 {
        assert(all.drop_last() =~= Seq::<Seq<u8>>::empty());
        assert(all.last() == first);
        assert(spec_total(all.drop_last()) == 0);
    } else {
        assert(all.drop_last() =~= seq![first] + rest.drop_last());
        assert(all.last() == rest.last());
        lemma_total_prepend(first, rest.drop_last());
    }
}

/// Whether `b` is ASCII white space.
pub fn space(b: u8) -> (r: bool)
    ensures
        r == is_space(b),
{
    b == BLANK || (9 <= b && b <= 13)
}

/// The slice without leading and trailing ASCII white space.
pub fn trim(s: &[u8]) -> (t: &[u8])
    ensures
        t@ == spec_trim(s@),
        t@.len() <= s@.len(),
{
    let n: usize = s.len();
    let mut i: usize = 0;
    assert(s@.skip(0) =~= s@);
    while i < n && space(s[i])
        invariant
            i <= n,
            n == s@.len(),
            spec_trim_start(s@) == spec_trim_start(s@.skip(i as int)),
        decreases n - i,
    {
        assert(s@.skip(i as int).skip(1) =~= s@.skip(i + 1));
        i += 1;
    }
    let mut j: usize = n;
    assert(s@.skip(i as int) =~= s@.subrange(i as int, n as int));
    while j > i && space(s[j - 1])
        invariant
            i <= j <= n,
            n == s@.len(),
            spec_trim(s@) == spec_trim_end(s@.subrange(i as int, j as int)),
        decreases j,
    {
        assert(s@.subrange(i as int, j as int).drop_last() =~= s@.subrange(i as int, j - 1));
        j -= 1;
    }
    slice_subrange(s, i, j)
}

/// Index of the first `b` in `s`, or the length of `s` where there is none.
pub fn find(s: &[u8], b: u8) -> (i: usize)
    ensures
        i == spec_find(s@, b),
        i <= s@.len(),
        i < s@.len() ==> s@[i as int] == b,
{
    let n: usize = s.len();
    let mut i: usize = 0;
    assert(s@.skip(0) =~= s@);
    while i < n && s[i] != b
        invariant
            i <= n,
            n == s@.len(),
            spec_find(s@, b) == i + spec_find(s@.skip(i as int), b),
        decreases n - i,
    {
        assert(s@.skip(i as int).skip(1) =~= s@.skip(i + 1));
        i += 1;
    }
    i
}

/// The pieces of `s` between occurrences of `sep`, in order.
pub fn split(s: &[u8], sep: u8) -> (pieces: Vec<&[u8]>)
    ensures
        views(pieces@) == spec_split(s@, sep),
        1 <= pieces@.len() <= s@.len() + 1,
        spec_total(views(pieces@)) == s@.len() + 1,
{
    let n: usize = s.len();
    let mut pieces: Vec<&[u8]> = Vec::new();
    let mut start: usize = 0;
    proof {
        lemma_split_total(s@, sep);
        assert(s@.skip(0) =~= s@);
        assert(views(pieces@) + spec_split(s@.skip(0), sep) =~= spec_split(s@, sep));
    }
    loop
        invariant_except_break
            start <= n,
            n == s@.len(),
            spec_split(s@, sep) == views(pieces@) + spec_split(s@.skip(start as int), sep),
        ensures
            views(pieces@) == spec_split(s@, sep),
        decreases n - start,
    {
        let rest = slice_subrange(s, start, n);
        assert(rest@ =~= s@.skip(start as int));
        let i: usize = find(rest, sep);
        if i < rest.len() {
            let piece = slice_subrange(rest, 0, i);
            let ghost before = views(pieces@);
            pieces.push(piece);
            proof {
                assert(piece@ =~= rest@.take(i as int));
                assert(rest@.skip(i + 1) =~= s@.skip(start + i + 1));
                assert(views(pieces@) =~= before + seq![piece@]);
                assert(views(pieces@) + spec_split(s@.skip(start + i + 1), sep) =~= before + (
                seq![rest@.take(i as int)] + spec_split(rest@.skip(i + 1), sep)));
            }
            start = start + i + 1;
        } else {
            let ghost before = views(pieces@);
            pieces.push(rest);
            proof {
                assert(views(pieces@) =~= before + seq![rest@]);
                lemma_find_bounds(rest@, sep);
            }
            break ;
        }
    }
    pieces
}

/// The pieces that are not empty, in order.
pub fn non_empty<'a>(pieces: &Vec<&'a [u8]>) -> (kept: Vec<&'a [u8]>)
    ensures
        views(kept@) == spec_non_empty(views(pieces@)),
{
    let mut kept: Vec<&[u8]> = Vec::new();
    let mut i: usize = 0;
    proof {
        assert(views(pieces@).skip(0) =~= views(pieces@));
        assert(views(kept@) + spec_non_empty(views(pieces@)) =~= spec_non_empty(views(pieces@)));
    }
    while i < pieces.len()
        invariant
            i <= pieces@.len(),
            spec_non_empty(views(pieces@)) == views(kept@) + spec_non_empty(
                views(pieces@).skip(i as int),
            ),
        decreases pieces@.len() - i,
    {
        let ghost rest = views(pieces@).skip(i as int);
        let ghost before = views(kept@);
        assert(rest.skip(1) =~= views(pieces@).skip(i + 1));
        assert(rest[0] == pieces@[i as int]@);
        if pieces[i].len() > 0 {
            kept.push(pieces[i]);
            assert(views(kept@) =~= before + seq![pieces@[i as int]@]);
            assert(views(kept@) + spec_non_empty(rest.skip(1)) =~= before + (seq![rest[0]]
                + spec_non_empty(rest.skip(1))));
        }
        i += 1;
    }
    assert(views(pieces@).skip(i as int) =~= Seq::<Seq<u8>>::empty());
    assert(views(kept@) + Seq::<Seq<u8>>::empty() =~= views(kept@));
    kept
}

/// Whether the two slices hold the same bytes.
pub fn same(a: &[u8], b: &[u8]) -> (r: bool)
    ensures
        r == (a@ == b@),
{
    if a.len() != b.len() {
        return false;
    }
    let mut i: usize = 0;
    while i < a.len()
        invariant
            i <= a@.len(),
            a@.len() == b@.len(),
            forall|j: int| 0 <= j < i ==> a@[j] == b@[j],
        decreases a@.len() - i,
    {
        if a[i] != b[i] {
            return false;
        }
        i += 1;
    }
    assert(a@ =~= b@);
    true
}

/// Whether `a`, with its upper-case ASCII letters in lower case, is `b`.
pub fn same_lower(a: &[u8], b: &[u8]) -> (r: bool)
    ensures
        r == (spec_lower(a@) == b@),
{
    if a.len() != b.len() {
        return false;
    }
    let mut i: usize = 0;
    while i < a.len()
        invariant
            i <= a@.len(),
            a@.len() == b@.len(),
            forall|j: int| 0 <= j < i ==> lower_byte(a@[j]) == b@[j],
        decreases a@.len() - i,
    {
        let c: u8 = a[i];
        let low: u8 = if 65 <= c && c <= 90 {
            c + 32
        } else {
            c
        };
        if low != b[i] {
            assert(spec_lower(a@)[i as int] != b@[i as int]);
            return false;
        }
        i += 1;
    }
    assert(spec_lower(a@) =~= b@);
    true
}

/// `core::str::from_utf8`, with its error dropped: the bytes as text where
/// they are valid UTF-8, nothing where they are not.
#[verifier::external_body]
pub(crate) fn utf8(bytes: &[u8]) -> (text: Option<&str>)
    ensures
        text is Some == valid_utf8(bytes@),
        text is Some ==> text->0.spec_bytes() == bytes@,
{
    core::str::from_utf8(bytes).ok()
}

/// A copy of the bytes of a string.
pub fn bytes_of(s: &str) -> (v: Vec<u8>)
    ensures
        v@ == s.spec_bytes(),
{
    vstd::slice::slice_to_vec(s.as_bytes())
}

/// Digits above this count for nothing but "too large".
const DECIMAL_CAP: u32 = 1_000_000;

/// Reads the digits of `s` as a number in base ten. The result is `None`
/// where `s` is empty or holds a byte that is no digit; otherwise it is the
/// number, or `DECIMAL_CAP` where the number is at least that.
fn read_digits(s: &[u8]) -> (r: Option<u32>)
    ensures
        r is Some <==> s@.len() > 0 && all_digits(s@),
        r is Some ==> r->0 <= DECIMAL_CAP && (r->0 < DECIMAL_CAP ==> r->0 == decimal(s@)) && (r->0
            == DECIMAL_CAP ==> decimal(s@) >= DECIMAL_CAP),
{
    if s.len() == 0 {
        return None;
    }
    let mut acc: u32 = 0;
    let mut i: usize = 0;
    assert(s@.take(0) =~= Seq::<u8>::empty());
    while i < s.len()
        invariant
            i <= s@.len(),
            all_digits(s@.take(i as int)),
            acc <= DECIMAL_CAP,
            acc < DECIMAL_CAP ==> acc == decimal(s@.take(i as int)),
            acc == DECIMAL_CAP ==> decimal(s@.take(i as int)) >= DECIMAL_CAP,
        decreases s@.len() - i,
    {
        let c: u8 = s[i];
        if c < ZERO || c > NINE {
            return None;
        }
        proof {
            let next = s@.take(i + 1);
            assert(next.drop_last() =~= s@.take(i as int));
            assert(next.last() == c);
            assert forall|j: int| 0 <= j < next.len() implies ZERO <= #[trigger] next[j]
                <= NINE by {
                if j < i {
                    assert(s@.take(i as int)[j] == next[j]);
                }
            }
        }
        let digit: u32 = (c - ZERO) as u32;
        if acc >= DECIMAL_CAP / 10 {
            acc = DECIMAL_CAP;
        } else {
            acc = acc * 10 + digit;
        }
        i += 1;
    }
    assert(s@.take(i as int) =~= s@);
    Some(acc)
}

/// Reads an optional sign and digits as an integer, where it lies between
/// `low` and `high`.
pub fn parse_within(s: &[u8], low: i32, high: i32) -> (r: Option<i32>)
    requires
        -1_000_000 < low,
        high < 1_000_000,
    ensures
        r is Some == spec_parse_within(s@, low as int, high as int) is Some,
        r is Some ==> r->0 == spec_parse_within(s@, low as int, high as int)->0,
{
    let negative: bool = s.len() > 0 && s[0] == MINUS;
    let signed: bool = s.len() > 0 && (s[0] == PLUS || s[0] == MINUS);
    let digits = if signed {
        slice_subrange(s, 1, s.len())
    } else {
        s
    };
    assert(signed ==> digits@ =~= s@.skip(1));
    match read_digits(digits) {
        None => None,
        Some(magnitude) => {
            if magnitude >= DECIMAL_CAP {
                None
            } else {
                let value: i32 = if negative {
                    -(magnitude as i32)
                } else {
                    magnitude as i32
                };
                if low <= value && value <= high {
                    Some(value)
                } else {
                    None
                }
            }
        },
    }
}

} // verus!
