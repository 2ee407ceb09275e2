//! A writer into a fixed buffer of bytes.

use crate::text::utf8;
use vstd::prelude::*;
use vstd::slice::slice_subrange;
use vstd::string::StringSliceAdditionalSpecFns;
use vstd::utf8::valid_utf8;

verus! {

/// Text written into a buffer that the caller lends. What does not fit is
/// dropped.
pub struct Writer<'a> {
    buf: &'a mut [u8],
    pos: usize,
}

impl<'a> Writer<'a> {
    /// The bytes written so far.
    pub closed spec fn written(&self) -> Seq<u8> {
        self.buf@.take(self.pos as int)
    }

    /// The number of bytes that the buffer holds at most.
    pub closed spec fn capacity(&self) -> nat {
        self.buf@.len()
    }

    /// No more is written than the buffer holds.
    pub closed spec fn wf(&self) -> bool {
        self.pos <= self.buf@.len()
    }

    /// A writer at the start of the buffer.
    pub fn from_buffer(buf: &'a mut [u8]) -> (writer: Writer<'a>)
        ensures
            writer.wf(),
            writer.written() == Seq::<u8>::empty(),
            writer.capacity() == old(buf)@.len(),
    {
        let writer = Writer { buf, pos: 0 };
        assert(writer.written() =~= Seq::<u8>::empty());
        writer
    }

    /// What was written, as text; nothing where it is no valid UTF-8.
    pub fn to_str(&self) -> (text: &str)
        requires
            self.wf(),
        ensures
            valid_utf8(self.written()) ==> text.spec_bytes() == self.written(),
            !valid_utf8(self.written()) ==> text@ == Seq::<char>::empty(),
    {
        let written = slice_subrange(&*self.buf, 0, self.pos);
        match utf8(written) {
            Some(text) => text,
            None => {
                proof {
                    reveal_strlit("");
                }
                ""
            },
        }
    }

    /// Writes the bytes of `s` as far as they fit; the result tells whether
    /// all of them did.
    pub fn write_str(&mut self, s: &str) -> (fits: bool)
        requires
            old(self).wf(),
        ensures
            final(self).wf(),
            final(self).capacity() == old(self).capacity(),
            fits == (old(self).written().len() + s.spec_bytes().len() <= old(self).capacity()),
            fits ==> final(self).written() == old(self).written() + s.spec_bytes(),
            !fits ==> final(self).written() == old(self).written() + s.spec_bytes().take(
                old(self).capacity() - old(self).written().len(),
            ),
    {
        let bytes = s.as_bytes();
        let mut i: usize = 0;
        while i < bytes.len()
            invariant
                i <= bytes@.len(),
                self.wf(),
                self.capacity() == old(self).capacity(),
                self.written() == old(self).written() + bytes@.take(i as int),
                bytes@ == s.spec_bytes(),
            decreases bytes@.len() - i,
        {
            if self.pos >= self.buf.len() {
                assert(self.written().len() == self.pos);
                assert(self.written().len() == old(self).written().len() + i);
                return false;
            }
            let ghost before = self.written();
            self.buf[self.pos] = bytes[i];
            self.pos += 1;
            assert(self.written() =~= before.push(bytes@[i as int]));
            assert(bytes@.take(i + 1) =~= bytes@.take(i as int).push(bytes@[i as int]));
            i += 1;
        }
        assert(bytes@.take(i as int) =~= bytes@);
        true
    }
}

} // verus!
