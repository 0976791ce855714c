//! Little-endian integers, as the daemon's protocol writes them.

use vstd::prelude::*;

verus! {

/// The `u16` whose little-endian form starts at `pos` in `buf`.
pub open spec fn u16_at(buf: Seq<u8>, pos: int) -> u16 {
    (buf[pos] as int + 256 * (buf[pos + 1] as int)) as u16
}

/// The `u32` whose little-endian form starts at `pos` in `buf`.
pub open spec fn u32_at(buf: Seq<u8>, pos: int) -> u32 {
    (buf[pos] as int + 256 * (buf[pos + 1] as int) + 65536 * (buf[pos + 2] as int) + 16777216 * (
    buf[pos + 3] as int)) as u32
}

/// The signed reading of a 32-bit pattern (two's complement).
pub open spec fn as_signed(v: u32) -> i32 {
    if v < 0x8000_0000 {
        v as i32
    } else {
        (v as int - 0x1_0000_0000) as i32
    }
}

/// The `i32` whose little-endian form starts at `pos` in `buf`.
pub open spec fn i32_at(buf: Seq<u8>, pos: int) -> i32 {
    as_signed(u32_at(buf, pos))
}

/// The two bytes of `v`, least significant first.
pub open spec fn u16_le(v: u16) -> Seq<u8> {
    seq![(v % 256) as u8, (v / 256) as u8]
}

/// The four bytes of `v`, least significant first.
pub open spec fn u32_le(v: u32) -> Seq<u8> {
    seq![
        (v % 256) as u8,
        (v / 256 % 256) as u8,
        (v / 65536 % 256) as u8,
        (v / 16777216) as u8,
    ]
}

/// Reading back what `u16_le` wrote gives the value again, wherever the two
/// bytes stand in a buffer.
pub proof fn lemma_u16_le_roundtrip(v: u16, buf: Seq<u8>, pos: int)
    requires
        0 <= pos,
        pos + 2 <= buf.len(),
        buf.subrange(pos, pos + 2) == u16_le(v),
    ensures
        u16_at(buf, pos) == v,
{
    assert(buf[pos] == buf.subrange(pos, pos + 2)[0]);
    assert(buf[pos + 1] == buf.subrange(pos, pos + 2)[1]);
}

/// Reading back what `u32_le` wrote gives the value again, wherever the four
/// bytes stand in a buffer.
pub proof fn lemma_u32_le_roundtrip(v: u32, buf: Seq<u8>, pos: int)
    requires
        0 <= pos,
        pos + 4 <= buf.len(),
        buf.subrange(pos, pos + 4) == u32_le(v),
    ensures
        u32_at(buf, pos) == v,
{
    let s = buf.subrange(pos, pos + 4);
    assert(buf[pos] == s[0]);
    assert(buf[pos + 1] == s[1]);
    assert(buf[pos + 2] == s[2]);
    assert(buf[pos + 3] == s[3]);
    let n: int = v as int;
    let hi: int = n / 256;
    let top: int = hi / 256;
    assert(n == 256 * hi + n % 256);
    assert(hi == 256 * top + hi % 256);
    assert(top == 256 * (top / 256) + top % 256);
    assert(n / 65536 == top);
    assert(n / 16777216 == top / 256);
    assert(top / 256 < 256);
}

/// The four bytes of a number are its digits to the base 256.
proof fn lemma_u32_digits(b0: u8, b1: u8, b2: u8, b3: u8)
    ensures
        u32_le((b0 as int + 256 * (b1 as int) + 65536 * (b2 as int) + 16777216 * (b3 as int)) as u32)
            == seq![b0, b1, b2, b3],
{
    let v: int = b0 as int + 256 * (b1 as int) + 65536 * (b2 as int) + 16777216 * (b3 as int);
    let hi: int = b1 as int + 256 * (b2 as int) + 65536 * (b3 as int);
    let top: int = b2 as int + 256 * (b3 as int);
    assert(v == 256 * hi + b0);
    assert(hi == 256 * top + b1);
    assert(v % 256 == b0 && v / 256 == hi);
    assert(hi % 256 == b1 && hi / 256 == top);
    assert(top % 256 == b2 && top / 256 == b3);
    assert(v / 65536 == top) by {
        assert(v == 65536 * top + (256 * (b1 as int) + b0));
    }
    assert(v / 16777216 == b3 as int) by {
        assert(v == 16777216 * (b3 as int) + (65536 * (b2 as int) + 256 * (b1 as int) + b0));
    }
    assert(u32_le(v as u32) =~= seq![b0, b1, b2, b3]);
}

/// Writing the four bytes read at `pos` gives those bytes again.
pub proof fn lemma_u32_at_roundtrip(buf: Seq<u8>, pos: int)
    requires
        0 <= pos,
        pos + 4 <= buf.len(),
    ensures
        u32_le(u32_at(buf, pos)) == buf.subrange(pos, pos + 4),
{
    lemma_u32_digits(buf[pos], buf[pos + 1], buf[pos + 2], buf[pos + 3]);
    assert(buf.subrange(pos, pos + 4) =~= seq![buf[pos], buf[pos + 1], buf[pos + 2], buf[pos + 3]]);
}

/// Decodes two bytes, least significant first.
pub fn u16_from_le(b0: u8, b1: u8) -> (v: u16)
    ensures
        v == b0 as int + 256 * (b1 as int),
{
    (b0 as u16) + (b1 as u16) * 256
}

/// Decodes four bytes, least significant first.
pub fn u32_from_le(b0: u8, b1: u8, b2: u8, b3: u8) -> (v: u32)
    ensures
        v == b0 as int + 256 * (b1 as int) + 65536 * (b2 as int) + 16777216 * (b3 as int),
{
    (b0 as u32) + (b1 as u32) * 256 + (b2 as u32) * 65536 + (b3 as u32) * 16777216
}

/// Reads a 32-bit pattern as a signed number.
pub fn u32_as_signed(v: u32) -> (s: i32)
    ensures
        s == as_signed(v),
{
    if v < 0x8000_0000 {
        v as i32
    } else {
        let below: u32 = 0xFFFF_FFFF - v;
        -(below as i32) - 1
    }
}

/// Appends the two bytes of `v` to `out`, least significant first.
pub fn push_u16_le(out: &mut Vec<u8>, v: u16)
    ensures
        final(out)@ == old(out)@ + u16_le(v),
{
    out.push((v % 256) as u8);
    out.push((v / 256) as u8);
    assert(out@ =~= old(out)@ + u16_le(v));
}

/// Appends the four bytes of `v` to `out`, least significant first.
pub fn push_u32_le(out: &mut Vec<u8>, v: u32)
    ensures
        final(out)@ == old(out)@ + u32_le(v),
{
    out.push((v % 256) as u8);
    out.push((v / 256 % 256) as u8);
    out.push((v / 65536 % 256) as u8);
    out.push((v / 16777216) as u8);
    assert(out@ =~= old(out)@ + u32_le(v));
}

} // verus!
