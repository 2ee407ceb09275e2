//! The machine word and its two-byte little-endian form in a byte buffer.

use bytes::Buf;
use bytes::BufMut;
use bytes::BytesMut;
use vstd::prelude::*;
use vstd::slice::slice_subrange;

verus! {

/// The machine word: registers, memory cells and immediates hold one.
pub type VMAtom = i16;

/// A program address as jumps and calls compute with it.
pub type VMAddr = i16;

/// The tag that opens every compiled program; it names the atom's width.
pub const ATOM_ID: u8 = 2;

/// Bytes that one atom takes in a program.
pub const ATOM_SIZE: usize = 2;

/// The two bytes of an atom, low byte first, in two's complement.
pub open spec fn atom_bytes(a: VMAtom) -> Seq<u8> {
    seq![(a as int % 256) as u8, ((a as int / 256) % 256) as u8]
}

/// The atom that two bytes stand for, low byte first, in two's complement.
pub open spec fn atom_from_bytes(low: u8, high: u8) -> VMAtom {
    let unsigned = low as int + 256 * (high as int);
    if unsigned >= 32768 {
        (unsigned - 65536) as VMAtom
    } else {
        unsigned as VMAtom
    }
}

/// The immediate at `pos` in `bytes`: the atom of the two bytes there, or the
/// least atom where fewer than two bytes are left.
pub open spec fn spec_decode_atom(bytes: Seq<u8>, pos: int) -> VMAtom {
    if 0 <= pos && pos + 2 <= bytes.len() {
        atom_from_bytes(bytes[pos], bytes[pos + 1])
    } else {
        VMAtom::MIN
    }
}

/// Decoding undoes encoding.
pub proof fn lemma_atom_round_trip(a: VMAtom)
    ensures
        atom_bytes(a).len() == 2,
        atom_from_bytes(atom_bytes(a)[0], atom_bytes(a)[1]) == a,
{
}

/// Encoding undoes decoding.
pub proof fn lemma_bytes_round_trip(low: u8, high: u8)
    ensures
        atom_bytes(atom_from_bytes(low, high)) == seq![low, high],
{
    assert(atom_bytes(atom_from_bytes(low, high)) =~= seq![low, high]);
}

/// `bytes::Buf::get_i16_le` on a byte slice: reads the first two bytes as a
/// little-endian signed integer. The slice must hold two bytes; on a shorter
/// one the outside function panics.
#[verifier::external_body]
fn get_atom(bytes: &[u8]) -> (a: VMAtom)
    requires
        bytes@.len() >= 2,
    ensures
        a == atom_from_bytes(bytes@[0], bytes@[1]),
{
    let mut cursor = bytes;
    cursor.get_i16_le()
}

/// Reads the immediate at `pos`, or the least atom where fewer than two bytes
/// are left in the buffer.
pub fn decode_atom(bytes: &[u8], pos: usize) -> (a: VMAtom)
    ensures
        a == spec_decode_atom(bytes@, pos as int),
{
    if pos <= bytes.len() && bytes.len() - pos >= 2 {
        let tail = slice_subrange(bytes, pos, bytes.len());
        get_atom(tail)
    } else {
        VMAtom::MIN
    }
}

#[verifier::external_type_specification]
#[verifier::external_body]
pub struct ExBytesMut(BytesMut);

/// The bytes that an output buffer holds, in order.
pub uninterp spec fn buffer_bytes(buffer: BytesMut) -> Seq<u8>;

/// Largest length up to which the library grows an output buffer.
pub const BUFFER_LIMIT: usize = 0x7fff_ffff;

/// `bytes::BytesMut::new`: an output buffer that holds no bytes.
#[verifier::external_body]
pub(crate) fn buffer_new() -> (buffer: BytesMut)
    ensures
        buffer_bytes(buffer) == Seq::<u8>::empty(),
{
    BytesMut::new()
}

/// `bytes::BytesMut::len`: the number of bytes in the buffer.
#[verifier::external_body]
pub(crate) fn buffer_len(buffer: &BytesMut) -> (n: usize)
    ensures
        n == buffer_bytes(*buffer).len(),
{
    buffer.len()
}

/// `bytes::BufMut::put_u8` on a `BytesMut`: appends one byte. The outside
/// function grows the buffer as needed and panics only where the new length
/// would pass `isize::MAX`, which the bound keeps away from.
#[verifier::external_body]
pub(crate) fn put_byte(buffer: &mut BytesMut, byte: u8)
    requires
        buffer_bytes(*old(buffer)).len() < BUFFER_LIMIT,
    ensures
        buffer_bytes(*final(buffer)) == buffer_bytes(*old(buffer)).push(byte),
{
    buffer.put_u8(byte)
}

/// `bytes::BufMut::put_i16_le` on a `BytesMut`: appends the two bytes of the
/// atom, low byte first.
#[verifier::external_body]
pub(crate) fn put_atom(buffer: &mut BytesMut, a: VMAtom)
    requires
        buffer_bytes(*old(buffer)).len() + 2 <= BUFFER_LIMIT,
    ensures
        buffer_bytes(*final(buffer)) == buffer_bytes(*old(buffer)) + atom_bytes(a),
{
    buffer.put_i16_le(a)
}

/// `bytes::BufMut::put_i16_le` on the tail of a `BytesMut` from `at` on:
/// overwrites the two bytes at `at` with those of the atom, low byte first,
/// and leaves the others and the length as they were. The two bytes must lie
/// inside the buffer; the outside function panics where they do not.
#[verifier::external_body]
pub(crate) fn patch_atom(buffer: &mut BytesMut, at: usize, a: VMAtom)
    requires
        at + 2 <= buffer_bytes(*old(buffer)).len(),
    ensures
        buffer_bytes(*final(buffer)) == buffer_bytes(*old(buffer)).update(
            at as int,
            atom_bytes(a)[0],
        ).update(at + 1, atom_bytes(a)[1]),
{
    let mut tail = &mut buffer[at..];
    tail.put_i16_le(a)
}

/// `to_vec` on the bytes that a `BytesMut` dereferences to: a copy of the
/// buffer's bytes, in order.
#[verifier::external_body]
pub(crate) fn buffer_to_vec(buffer: &BytesMut) -> (bytes: Vec<u8>)
    ensures
        bytes@ == buffer_bytes(*buffer),
{
    buffer.to_vec()
}

} // verus!
