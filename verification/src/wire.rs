//! Fixed-width big-endian fields: the two- and four-byte integers that
//! every layer of the codec reads and writes.

use vstd::prelude::*;

use crate::types::ErrorKind;
use crate::types::ParseError;

verus! {

/// The 16-bit value denoted by two big-endian bytes.
pub open spec fn spec_u16_be(hi: u8, lo: u8) -> u16 {
    ((hi as u16) << 8) | (lo as u16)
}

/// The two big-endian bytes of a 16-bit value.
pub open spec fn spec_u16_bytes(v: u16) -> Seq<u8> {
    seq![(v >> 8) as u8, (v & 0xFF) as u8]
}

/// The 32-bit value denoted by four big-endian bytes.
pub open spec fn spec_u32_be(b0: u8, b1: u8, b2: u8, b3: u8) -> u32 {
    ((b0 as u32) << 24) | ((b1 as u32) << 16) | ((b2 as u32) << 8) | (b3 as u32)
}

/// The four big-endian bytes of a 32-bit value.
pub open spec fn spec_u32_bytes(v: u32) -> Seq<u8> {
    seq![(v >> 24) as u8, ((v >> 16) & 0xFF) as u8, ((v >> 8) & 0xFF) as u8, (v & 0xFF) as u8]
}

/// Reading a 16-bit field at `pos`: the value, or a truncation fault at
/// `pos` when fewer than two bytes remain.
pub open spec fn spec_read_u16(buf: Seq<u8>, pos: int) -> Result<u16, ParseError> {
    if 0 <= pos && pos + 2 <= buf.len() {
        Ok(spec_u16_be(buf[pos], buf[pos + 1]))
    } else {
        Err(ParseError { kind: ErrorKind::Truncated, offset: pos as usize })
    }
}

/// Reading a 32-bit field at `pos`: the value, or a truncation fault at
/// `pos` when fewer than four bytes remain.
pub open spec fn spec_read_u32(buf: Seq<u8>, pos: int) -> Result<u32, ParseError> {
    if 0 <= pos && pos + 4 <= buf.len() {
        Ok(spec_u32_be(buf[pos], buf[pos + 1], buf[pos + 2], buf[pos + 3]))
    } else {
        Err(ParseError { kind: ErrorKind::Truncated, offset: pos as usize })
    }
}

/// Reads the big-endian 16-bit field at `pos`.
pub fn read_u16(buf: &[u8], pos: usize) -> (r: Result<u16, ParseError>)
    ensures
        r == spec_read_u16(buf@, pos as int),
{
    if pos < buf.len() && buf.len() - pos >= 2 {
        Ok(((buf[pos] as u16) << 8) | (buf[pos + 1] as u16))
    } else {
        Err(ParseError { kind: ErrorKind::Truncated, offset: pos })
    }
}

/// Reads the big-endian 32-bit field at `pos`.
pub fn read_u32(buf: &[u8], pos: usize) -> (r: Result<u32, ParseError>)
    ensures
        r == spec_read_u32(buf@, pos as int),
{
    if pos < buf.len() && buf.len() - pos >= 4 {
        Ok(
            ((buf[pos] as u32) << 24) | ((buf[pos + 1] as u32) << 16) | ((buf[pos + 2] as u32) << 8)
                | (buf[pos + 3] as u32),
        )
    } else {
        Err(ParseError { kind: ErrorKind::Truncated, offset: pos })
    }
}

/// Appends a 16-bit value to `out` as two big-endian bytes.
pub fn push_u16(out: &mut Vec<u8>, v: u16)
    ensures
        final (out)@ == old(out)@ + spec_u16_bytes(v),
{
    out.push((v >> 8) as u8);
    out.push((v & 0xFF) as u8);
    assert(out@ =~= old(out)@ + spec_u16_bytes(v));
}

/// Appends a 32-bit value to `out` as four big-endian bytes.
pub fn push_u32(out: &mut Vec<u8>, v: u32)
    ensures
        final (out)@ == old(out)@ + spec_u32_bytes(v),
{
    out.push((v >> 24) as u8);
    out.push(((v >> 16) & 0xFF) as u8);
    out.push(((v >> 8) & 0xFF) as u8);
    out.push((v & 0xFF) as u8);
    assert(out@ =~= old(out)@ + spec_u32_bytes(v));
}

/// Appends every byte of `bytes` to `out`.
pub fn push_bytes(out: &mut Vec<u8>, bytes: &[u8])
    ensures
        final (out)@ == old(out)@ + bytes@,
{
    let mut j: usize = 0;
    while j < bytes.len()
        invariant
            j <= bytes.len(),
            out@ == old(out)@ + bytes@.take(j as int),
        decreases bytes.len() - j,
    {
        out.push(bytes[j]);
        assert(out@ =~= old(out)@ + bytes@.take(j as int + 1));
        j = j + 1;
    }
    assert(out@ =~= old(out)@ + bytes@);
}

/// A window into a buffer region known to hold `enc` is the matching
/// window into `enc` itself.
pub proof fn lemma_sub_subrange(buf: Seq<u8>, pos: int, enc: Seq<u8>, a: int, b: int)
    requires
        0 <= pos,
        pos + enc.len() <= buf.len(),
        buf.subrange(pos, pos + enc.len() as int) == enc,
        0 <= a <= b <= enc.len(),
    ensures
        buf.subrange(pos + a, pos + b) == enc.subrange(a, b),
{
    assert forall|k: int| 0 <= k < b - a implies buf.subrange(pos + a, pos + b)[k] == enc.subrange(
        a,
        b,
    )[k] by {
        assert(buf.subrange(pos + a, pos + b)[k] == buf[pos + a + k]);
        assert(buf.subrange(pos, pos + enc.len() as int)[a + k] == buf[pos + a + k]);
        assert(enc.subrange(a, b)[k] == enc[a + k]);
    }
    assert(buf.subrange(pos + a, pos + b) =~= enc.subrange(a, b));
}

/// A concatenation splits back into its two parts.
pub proof fn lemma_concat_prefix(a: Seq<u8>, b: Seq<u8>)
    ensures
        (a + b).subrange(0, a.len() as int) == a,
        (a + b).subrange(a.len() as int, (a + b).len() as int) == b,
{
    assert((a + b).subrange(0, a.len() as int) =~= a);
    assert((a + b).subrange(a.len() as int, (a + b).len() as int) =~= b);
}

/// The byte at relative index `k` of a buffer region known to hold
/// `enc` is `enc[k]`.
pub proof fn lemma_sub_index(buf: Seq<u8>, pos: int, enc: Seq<u8>, k: int)
    requires
        0 <= pos,
        pos + enc.len() <= buf.len(),
        buf.subrange(pos, pos + enc.len() as int) == enc,
        0 <= k < enc.len(),
    ensures
        buf[pos + k] == enc[k],
{
    assert(buf.subrange(pos, pos + enc.len() as int)[k] == buf[pos + k]);
}

/// Reading back the two bytes written for a 16-bit value gives that
/// value.
pub proof fn lemma_u16_round_trip(v: u16)
    ensures
        spec_u16_be((v >> 8) as u8, (v & 0xFF) as u8) == v,
{
    assert(((((v >> 8) as u8) as u16) << 8) | (((v & 0xFF) as u8) as u16) == v) by (bit_vector);
}

/// Reading back the four bytes written for a 32-bit value gives that
/// value.
pub proof fn lemma_u32_round_trip(v: u32)
    ensures
        spec_u32_be((v >> 24) as u8, ((v >> 16) & 0xFF) as u8, ((v >> 8) & 0xFF) as u8, (v
            & 0xFF) as u8) == v,
{
    assert(((((v >> 24) as u8) as u32) << 24) | (((((v >> 16) & 0xFF) as u8) as u32) << 16) | (((((v
        >> 8) & 0xFF) as u8) as u32) << 8) | (((v & 0xFF) as u8) as u32) == v) by (bit_vector);
}

} // verus!
