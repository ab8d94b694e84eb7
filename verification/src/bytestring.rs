//! A fixed buffer of bytes that text is written into.

use vstd::prelude::*;
use vstd::string::StringSliceAdditionalSpecFns;
use vstd::utf8::valid_utf8;

verus! {

/// The error of `core::fmt`, which carries nothing.
#[verifier::external_type_specification]
#[verifier::external_body]
pub struct ExFmtError(core::fmt::Error);

/// `core::str::from_utf8` without its error: the text is there exactly
/// when the bytes are well-formed UTF-8, and it is encoded by exactly
/// these bytes.
#[verifier::external_body]
fn str_from_utf8(bytes: &[u8]) -> (text: Option<&str>)
    ensures
        text.is_some() <==> valid_utf8(bytes@),
        text.is_some() ==> text.unwrap().spec_bytes() == bytes@,
{
    core::str::from_utf8(bytes).ok()
}

/// A byte buffer of `N` bytes with a write cursor. Text written past the
/// end is dropped.
#[derive(Debug)]
pub struct ByteStringWriter<const N: usize> {
    buf: [u8; N],
    cursor: usize,
}

/// `buf` with `text` laid over it from index `at` on, as far as it fits.
pub open spec fn overwritten(buf: Seq<u8>, at: nat, text: Seq<u8>) -> Seq<u8> {
    Seq::new(
        buf.len(),
        |i: int|
            if at <= i < at + text.len() {
                text[i - at]
            } else {
                buf[i]
            },
    )
}

impl<const N: usize> ByteStringWriter<N> {
    #[verifier::type_invariant]
    spec fn cursor_in_buffer(&self) -> bool {
        self.cursor <= N
    }

    /// The bytes of the buffer.
    pub closed spec fn bytes(&self) -> Seq<u8> {
        self.buf@
    }

    /// The index that the next byte is written to; `N` when the buffer is
    /// full.
    pub closed spec fn position(&self) -> nat {
        self.cursor as nat
    }

    /// A writer over `buf`, which starts to overwrite it at its first byte.
    pub fn new(buf: [u8; N]) -> (writer: Self)
        ensures
            writer.bytes() == buf@,
            writer.position() == 0,
    {
        Self { buf, cursor: 0 }
    }

    /// The index that the next byte is written to. It never leaves the
    /// buffer.
    pub fn cursor(&self) -> (at: usize)
        ensures
            at == self.position(),
            at <= N,
    {
        proof {
            use_type_invariant(self);
        }
        self.cursor
    }

    /// The bytes of the buffer, written or not.
    pub fn as_bytes(&self) -> (bytes: &[u8; N])
        ensures
            bytes@ == self.bytes(),
    {
        &self.buf
    }

    /// The whole buffer as text, where it is well-formed UTF-8.
    pub fn as_str(&self) -> (text: Option<&str>)
        ensures
            text.is_some() <==> valid_utf8(self.bytes()),
            text.is_some() ==> text.unwrap().spec_bytes() == self.bytes(),
    {
        str_from_utf8(self.buf.as_slice())
    }

    /// The whole buffer as text.
    pub fn deref(&self) -> (text: &str)
        requires
            valid_utf8(self.bytes()),
        ensures
            text.spec_bytes() == self.bytes(),
    {
        match str_from_utf8(self.buf.as_slice()) {
            Some(text) => text,
            None => vstd::pervasive::unreached(),
        }
    }
}

impl<const N: usize> Clone for ByteStringWriter<N> {
    fn clone(&self) -> (copy: Self)
        ensures
            copy == *self,
    {
        proof {
            use_type_invariant(self);
        }
        Self { buf: self.buf, cursor: self.cursor }
    }
}

impl Default for ByteStringWriter<32> {
    /// A writer over 32 spaces.
    fn default() -> (writer: Self)
        ensures
            writer.bytes() == Seq::new(32, |i: int| 0x20u8),
            writer.position() == 0,
    {
        let writer = Self { buf: [0x20u8; 32], cursor: 0 };
        assert(writer.bytes() =~= Seq::new(32, |i: int| 0x20u8));
        writer
    }
}

impl<const N: usize> core::fmt::Write for ByteStringWriter<N> {
    /// Writes the bytes of `s` at the cursor and moves the cursor behind
    /// them. What does not fit is dropped without an error.
    fn write_str(&mut self, s: &str) -> (r: core::fmt::Result)
        ensures
            r.is_ok(),
            final(self).bytes() == overwritten(
                old(self).bytes(),
                old(self).position(),
                s.spec_bytes(),
            ),
            final(self).position() == if old(self).position() + s.spec_bytes().len() <= N {
                old(self).position() + s.spec_bytes().len()
            } else {
                N as nat
            },
    {
        proof {
            use_type_invariant(&*self);
        }
        let text = s.as_bytes();
        let mut i: usize = 0;
        while i < text.len()
            invariant
                i <= text.len(),
                text@ == s.spec_bytes(),
                self.buf@ == overwritten(
                    old(self).buf@,
                    old(self).cursor as nat,
                    text@.take(i as int),
                ),
                self.cursor == if old(self).cursor + i <= N {
                    old(self).cursor + i
                } else {
                    N as int
                },
            decreases text.len() - i,
        {
            if self.cursor < N {
                self.buf[self.cursor] = text[i];
                self.cursor += 1;
            }
            i += 1;
            assert(self.buf@ =~= overwritten(
                old(self).buf@,
                old(self).cursor as nat,
                text@.take(i as int),
            ));
        }
        assert(text@.take(i as int) =~= text@);
        Ok(())
    }
}

} // verus!
