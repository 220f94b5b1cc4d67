//! A fixed-capacity, append-only byte buffer that backs an entity tag's text.
//!
//! The buffer holds at most [`MAX_SIZE`] bytes. Writes are all-or-nothing: an
//! input that does not fit leaves the buffer untouched. The content can be
//! read back as UTF-8 text once every write kept it valid UTF-8.

use vstd::prelude::*;
use vstd::string::StringSliceAdditionalSpecFns;
use vstd::utf8::{decode_utf8, encode_utf8, valid_utf8};

verus! {

/// The fixed ceiling, in bytes, for the content of a [`Buffer`].
///
/// One size governs every buffer; entity-tag text is conventionally short, so
/// this ceiling avoids any need for growth.
pub const MAX_SIZE: usize = 62;

/// An append-only byte sequence of at most [`MAX_SIZE`] bytes.
///
/// Created empty, grown only by [`Buffer::write_bytes`], never shrunk.
/// Two buffers compare equal exactly when they hold the same bytes.
#[derive(Clone, Debug, PartialEq, Eq)]
pub struct Buffer {
    bytes: Vec<u8>,
}

impl View for Buffer {
    type V = Seq<u8>;

    closed spec fn view(&self) -> Seq<u8> {
        self.bytes@
    }
}

impl Buffer {
    /// The buffer never holds more than [`MAX_SIZE`] bytes.
    pub open spec fn wf(&self) -> bool {
        self@.len() <= MAX_SIZE
    }

    /// Creates a new, empty buffer.
    pub fn new() -> (r: Buffer)
        ensures
            r.wf(),
            r@ == Seq::<u8>::empty(),
    {
        Buffer { bytes: Vec::new() }
    }

    /// Returns the number of bytes that can still be written.
    pub fn available_len(&self) -> (r: usize)
        requires
            self.wf(),
        ensures
            r == MAX_SIZE - self@.len(),
    {
        MAX_SIZE - self.bytes.len()
    }

    /// Appends `bytes` to the buffer.
    ///
    /// If the input does not fit in the remaining space the buffer is left
    /// unchanged and `false` is returned; otherwise the whole input is
    /// appended, after the bytes already present, and `true` is returned.
    pub fn write_bytes(&mut self, bytes: &[u8]) -> (r: bool)
        requires
            old(self).wf(),
        ensures
            final(self).wf(),
            r == (bytes@.len() <= MAX_SIZE - old(self)@.len()),
            r ==> final(self)@ == old(self)@ + bytes@,
            !r ==> final(self)@ == old(self)@,
    {
        if bytes.len() > MAX_SIZE - self.bytes.len() {
            return false;
        }
        let mut i: usize = 0;
        while i < bytes.len()
            invariant
                i <= bytes@.len(),
                bytes@.len() <= MAX_SIZE - old(self)@.len(),
                self.bytes@ == old(self)@ + bytes@.subrange(0, i as int),
            decreases bytes@.len() - i,
        {
            self.bytes.push(bytes[i]);
            proof {
                assert(old(self)@ + bytes@.subrange(0, i as int) + seq![bytes@[i as int]] =~= old(
                    self,
                )@ + bytes@.subrange(0, i + 1));
            }
            i = i + 1;
        }
        proof {
            assert(bytes@.subrange(0, bytes@.len() as int) =~= bytes@);
        }
        true
    }

    /// Compares the content of two buffers byte for byte.
    pub fn content_eq(&self, other: &Buffer) -> (r: bool)
        ensures
            r == (self@ == other@),
    {
        let r = self.bytes == other.bytes;
        proof {
            if r {
                assert(self@ =~= other@);
            }
        }
        r
    }

    /// Returns the buffer's content as a borrowed UTF-8 string.
    ///
    /// Callable once every write kept the content valid UTF-8; the result is
    /// empty when nothing has been written yet.
    pub fn as_str(&self) -> (r: &str)
        requires
            valid_utf8(self@),
        ensures
            r@ == decode_utf8(self@),
    {
        let r = str_of_utf8(self.bytes.as_slice());
        proof {
            broadcast use vstd::utf8::decode_utf8_encode_utf8, vstd::utf8::encode_utf8_decode_utf8;

            assert(encode_utf8(r@) == encode_utf8(decode_utf8(self@)));
            assert(decode_utf8(encode_utf8(r@)) == r@);
        }
        r
    }
}

/// After a successful write of valid UTF-8 input, the text read back from
/// the buffer is the text it held before followed by the input's text: what
/// successive writes append is read back in order, unchanged.
pub proof fn lemma_append_text(a: Seq<u8>, b: Seq<u8>)
    requires
        valid_utf8(a),
        valid_utf8(b),
    ensures
        valid_utf8(a + b),
        decode_utf8(a + b) == decode_utf8(a) + decode_utf8(b),
{
    broadcast use vstd::utf8::valid_utf8_concat, vstd::utf8::decode_utf8_encode_utf8, vstd::utf8::encode_utf8_decode_utf8;

    crate::text::lemma_encode_utf8_concat(decode_utf8(a), decode_utf8(b));
    assert(encode_utf8(decode_utf8(a) + decode_utf8(b)) =~= a + b);
    assert(decode_utf8(encode_utf8(decode_utf8(a) + decode_utf8(b))) == decode_utf8(a)
        + decode_utf8(b));
}

/// Relies on `core::str::from_utf8`: on valid UTF-8 input it returns the
/// borrowed string over exactly those bytes.
#[verifier::external_body]
fn str_of_utf8(bytes: &[u8]) -> (r: &str)
    requires
        valid_utf8(bytes@),
    ensures
        r.spec_bytes() =~= bytes@,
{
    core::str::from_utf8(bytes).unwrap()
}

} // verus!
