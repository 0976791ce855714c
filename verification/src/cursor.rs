//! A read position over a received payload.
//!
//! Every read either returns all of what it was asked for and moves the
//! position behind it, or fails with `Truncated` and leaves the position where
//! it was.

use vstd::prelude::*;
use crate::error::ProtocolError;
use crate::le::{i32_at, u16_at, u16_from_le, u32_as_signed, u32_at, u32_from_le};

verus! {

/// What `String::from_utf8_lossy` makes of a byte sequence: its text, with
/// each invalid UTF-8 sequence replaced by U+FFFD.
pub uninterp spec fn utf8_lossy(bytes: Seq<u8>) -> Seq<char>;

/// Where `pos + len` lies, if `len` bytes can be read at `pos`.
pub open spec fn fixed_end(buf: Seq<u8>, pos: int, len: int) -> Option<int> {
    if 0 <= pos && 0 <= len && pos + len <= buf.len() {
        Some(pos + len)
    } else {
        None
    }
}

/// Where a length-prefixed string that starts at `pos` ends: behind the two
/// bytes of its length and as many bytes as they say.
pub open spec fn string_end(buf: Seq<u8>, pos: int) -> Option<int> {
    match fixed_end(buf, pos, 2) {
        None => None,
        Some(body) => fixed_end(buf, body, u16_at(buf, pos) as int),
    }
}

/// How many bytes of `s` stand before its first zero byte; all of them when
/// it holds none.
pub open spec fn nul_position(s: Seq<u8>) -> int
    decreases s.len(),
{
    if s.len() == 0 || s[0] == 0 {
        0
    } else {
        1 + nul_position(s.drop_first())
    }
}

/// The text of the length-prefixed string at `pos`: its bytes up to the
/// first zero byte, decoded permissively.
pub open spec fn text_at(buf: Seq<u8>, pos: int) -> Seq<char> {
    let body = buf.subrange(pos + 2, pos + 2 + u16_at(buf, pos));
    utf8_lossy(body.take(nul_position(body)))
}

/// `nul_position` is the index of the first zero byte, or the length.
pub proof fn lemma_nul_position(s: Seq<u8>)
    ensures
        0 <= nul_position(s) <= s.len(),
        forall|i: int| 0 <= i < nul_position(s) ==> s[i] != 0,
        nul_position(s) < s.len() ==> s[nul_position(s)] == 0,
    decreases s.len(),
{
    if s.len() == 0 || s[0] == 0 {
    } else {
        let t = s.drop_first();
        lemma_nul_position(t);
        assert forall|i: int| 0 <= i < nul_position(s) implies s[i] != 0 by {
            if i > 0 {
                assert(s[i] == t[i - 1]);
            }
        }
        if nul_position(s) < s.len() {
            assert(s[nul_position(s)] == t[nul_position(t)]);
        }
    }
}

/// Any index below which no byte is zero, and which is the length or holds a
/// zero byte, is `nul_position`.
pub proof fn lemma_nul_position_unique(s: Seq<u8>, n: int)
    requires
        0 <= n <= s.len(),
        forall|i: int| 0 <= i < n ==> s[i] != 0,
        n < s.len() ==> s[n] == 0,
    ensures
        nul_position(s) == n,
{
    lemma_nul_position(s);
    let m = nul_position(s);
    if m < n {
        assert(s[m] != 0);
    } else if n < m {
        assert(s[n] != 0);
    }
}

/// Calls `String::from_utf8_lossy` and takes the result as an owned string.
/// The contract only names the result: the text is a function of the bytes.
#[verifier::external_body]
fn decode_lossy(bytes: &[u8]) -> (s: String)
    ensures
        s@ == utf8_lossy(bytes@),
{
    String::from_utf8_lossy(bytes).into_owned()
}

/// A read position in a byte buffer.
pub struct Cursor<'a> {
    buf: &'a [u8],
    pos: usize,
}

impl<'a> Cursor<'a> {
    #[verifier::type_invariant]
    spec fn in_bounds(self) -> bool {
        self.pos <= self.buf@.len()
    }

    /// The buffer that the cursor reads.
    pub closed spec fn bytes(&self) -> Seq<u8> {
        self.buf@
    }

    /// How many bytes have been read.
    pub closed spec fn position(&self) -> int {
        self.pos as int
    }

    /// A cursor at the start of `buf`.
    pub fn new(buf: &'a [u8]) -> (c: Self)
        ensures
            c.bytes() == buf@,
            c.position() == 0,
    {
        Cursor { buf, pos: 0 }
    }

    /// The number of bytes read so far.
    pub fn consumed(&self) -> (n: usize)
        ensures
            n == self.position(),
            n <= self.bytes().len(),
    {
        proof {
            use_type_invariant(self);
        }
        self.pos
    }

    /// Reads the next `len` bytes.
    pub fn read_bytes(&mut self, len: usize) -> (r: Result<&'a [u8], ProtocolError>)
        ensures
            final(self).bytes() == old(self).bytes(),
            match r {
                Ok(s) => fixed_end(old(self).bytes(), old(self).position(), len as int) == Some(
                    final(self).position(),
                ) && s@ == old(self).bytes().subrange(
                    old(self).position(),
                    old(self).position() + len,
                ),
                Err(e) => e == ProtocolError::Truncated && fixed_end(
                    old(self).bytes(),
                    old(self).position(),
                    len as int,
                ) is None && final(self).position() == old(self).position(),
            },
    {
        proof {
            use_type_invariant(&*self);
        }
        let buf: &'a [u8] = self.buf;
        if len > buf.len() - self.pos {
            return Err(ProtocolError::Truncated);
        }
        let start: usize = self.pos;
        let end: usize = start + len;
        self.pos = end;
        Ok(&buf[start..end])
    }

    /// Passes over the next `len` bytes.
    pub fn skip(&mut self, len: usize) -> (r: Result<(), ProtocolError>)
        ensures
            final(self).bytes() == old(self).bytes(),
            match r {
                Ok(_) => fixed_end(old(self).bytes(), old(self).position(), len as int) == Some(
                    final(self).position(),
                ),
                Err(e) => e == ProtocolError::Truncated && fixed_end(
                    old(self).bytes(),
                    old(self).position(),
                    len as int,
                ) is None && final(self).position() == old(self).position(),
            },
    {
        match self.read_bytes(len) {
            Ok(_) => Ok(()),
            Err(e) => Err(e),
        }
    }

    /// Reads a little-endian `u16`.
    pub fn read_u16(&mut self) -> (r: Result<u16, ProtocolError>)
        ensures
            final(self).bytes() == old(self).bytes(),
            match r {
                Ok(v) => fixed_end(old(self).bytes(), old(self).position(), 2) == Some(
                    final(self).position(),
                ) && v == u16_at(old(self).bytes(), old(self).position()),
                Err(e) => e == ProtocolError::Truncated && fixed_end(
                    old(self).bytes(),
                    old(self).position(),
                    2,
                ) is None && final(self).position() == old(self).position(),
            },
    {
        match self.read_bytes(2) {
            Ok(b) => Ok(u16_from_le(b[0], b[1])),
            Err(e) => Err(e),
        }
    }

    /// Reads a little-endian `u32`.
    pub fn read_u32(&mut self) -> (r: Result<u32, ProtocolError>)
        ensures
            final(self).bytes() == old(self).bytes(),
            match r {
                Ok(v) => fixed_end(old(self).bytes(), old(self).position(), 4) == Some(
                    final(self).position(),
                ) && v == u32_at(old(self).bytes(), old(self).position()),
                Err(e) => e == ProtocolError::Truncated && fixed_end(
                    old(self).bytes(),
                    old(self).position(),
                    4,
                ) is None && final(self).position() == old(self).position(),
            },
    {
        match self.read_bytes(4) {
            Ok(b) => Ok(u32_from_le(b[0], b[1], b[2], b[3])),
            Err(e) => Err(e),
        }
    }

    /// Reads a little-endian `i32`.
    pub fn read_i32(&mut self) -> (r: Result<i32, ProtocolError>)
        ensures
            final(self).bytes() == old(self).bytes(),
            match r {
                Ok(v) => fixed_end(old(self).bytes(), old(self).position(), 4) == Some(
                    final(self).position(),
                ) && v == i32_at(old(self).bytes(), old(self).position()),
                Err(e) => e == ProtocolError::Truncated && fixed_end(
                    old(self).bytes(),
                    old(self).position(),
                    4,
                ) is None && final(self).position() == old(self).position(),
            },
    {
        match self.read_u32() {
            Ok(v) => Ok(u32_as_signed(v)),
            Err(e) => Err(e),
        }
    }

    /// Reads a string: a `u16` length, then that many bytes, of which those
    /// before the first zero byte are the text.
    pub fn read_string(&mut self) -> (r: Result<String, ProtocolError>)
        ensures
            final(self).bytes() == old(self).bytes(),
            match r {
                Ok(s) => string_end(old(self).bytes(), old(self).position()) == Some(
                    final(self).position(),
                ) && s@ == text_at(old(self).bytes(), old(self).position()),
                Err(e) => e == ProtocolError::Truncated && string_end(
                    old(self).bytes(),
                    old(self).position(),
                ) is None && final(self).position() == old(self).position(),
            },
    {
        proof {
            use_type_invariant(&*self);
        }
        let start: usize = self.pos;
        let len: u16 = match self.read_u16() {
            Ok(v) => v,
            Err(e) => { return Err(e); },
        };
        let body: &[u8] = match self.read_bytes(len as usize) {
            Ok(b) => b,
            Err(e) => {
                self.pos = start;
                return Err(e);
            },
        };
        let mut n: usize = 0;
        while n < body.len() && body[n] != 0
            invariant
                n <= body@.len(),
                forall|i: int| 0 <= i < n ==> body@[i] != 0,
            decreases body@.len() - n,
        {
            n += 1;
        }
        proof {
            lemma_nul_position_unique(body@, n as int);
        }
        Ok(decode_lossy(&body[0..n]))
    }
}

} // verus!
