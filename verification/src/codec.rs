//! Canonical byte encoding of the primitive values that the chain hashes
//! and signs. Every commitment (transaction hash, block hash, state root)
//! is the digest of a byte string produced by these functions, so each one
//! carries an exact specification.

use vstd::prelude::*;

verus! {

/// The little-endian byte encoding of a 64-bit integer.
pub open spec fn spec_u64_le(x: u64) -> Seq<u8> {
    seq![
        (x & 0xff) as u8,
        ((x >> 8) & 0xff) as u8,
        ((x >> 16) & 0xff) as u8,
        ((x >> 24) & 0xff) as u8,
        ((x >> 32) & 0xff) as u8,
        ((x >> 40) & 0xff) as u8,
        ((x >> 48) & 0xff) as u8,
        ((x >> 56) & 0xff) as u8,
    ]
}

/// The little-endian byte encoding of a 32-bit integer.
pub open spec fn spec_u32_le(x: u32) -> Seq<u8> {
    seq![
        (x & 0xff) as u8,
        ((x >> 8) & 0xff) as u8,
        ((x >> 16) & 0xff) as u8,
        ((x >> 24) & 0xff) as u8,
    ]
}

/// A byte string prefixed with its own length, so that adjacent
/// variable-length fields cannot run into each other.
pub open spec fn spec_len_prefixed(b: Seq<u8>) -> Seq<u8> {
    spec_u64_le(b.len() as u64) + b
}

/// The canonical encoding of a string: its UTF-8 bytes, length-prefixed.
pub open spec fn spec_str_enc(s: Seq<char>) -> Seq<u8> {
    spec_len_prefixed(vstd::utf8::encode_utf8(s))
}

/// The 64-bit integer read back from the first 8 bytes, little-endian.
pub open spec fn spec_le_u64(b: Seq<u8>) -> u64
    recommends
        b.len() >= 8,
{
    (b[0] as u64) | ((b[1] as u64) << 8) | ((b[2] as u64) << 16) | ((b[3] as u64) << 24)
        | ((b[4] as u64) << 32) | ((b[5] as u64) << 40) | ((b[6] as u64) << 48)
        | ((b[7] as u64) << 56)
}

/// Appends the little-endian encoding of `x` to `out`.
pub fn push_u64_le(out: &mut Vec<u8>, x: u64)
    ensures
        final(out)@ == old(out)@ + spec_u64_le(x),
{
    let b0: u64 = x & 0xff;
    let b1: u64 = (x >> 8) & 0xff;
    let b2: u64 = (x >> 16) & 0xff;
    let b3: u64 = (x >> 24) & 0xff;
    let b4: u64 = (x >> 32) & 0xff;
    let b5: u64 = (x >> 40) & 0xff;
    let b6: u64 = (x >> 48) & 0xff;
    let b7: u64 = (x >> 56) & 0xff;
    assert(b0 < 256 && b1 < 256 && b2 < 256 && b3 < 256 && b4 < 256 && b5 < 256 && b6 < 256
        && b7 < 256) by (bit_vector)
        requires
            b0 == x & 0xff,
            b1 == (x >> 8) & 0xff,
            b2 == (x >> 16) & 0xff,
            b3 == (x >> 24) & 0xff,
            b4 == (x >> 32) & 0xff,
            b5 == (x >> 40) & 0xff,
            b6 == (x >> 48) & 0xff,
            b7 == (x >> 56) & 0xff,
    ;
    out.push(b0 as u8);
    out.push(b1 as u8);
    out.push(b2 as u8);
    out.push(b3 as u8);
    out.push(b4 as u8);
    out.push(b5 as u8);
    out.push(b6 as u8);
    out.push(b7 as u8);
    assert(out@ =~= old(out)@ + spec_u64_le(x));
}

/// Appends the little-endian encoding of `x` to `out`.
pub fn push_u32_le(out: &mut Vec<u8>, x: u32)
    ensures
        final(out)@ == old(out)@ + spec_u32_le(x),
{
    let b0: u32 = x & 0xff;
    let b1: u32 = (x >> 8) & 0xff;
    let b2: u32 = (x >> 16) & 0xff;
    let b3: u32 = (x >> 24) & 0xff;
    assert(b0 < 256 && b1 < 256 && b2 < 256 && b3 < 256) by (bit_vector)
        requires
            b0 == x & 0xff,
            b1 == (x >> 8) & 0xff,
            b2 == (x >> 16) & 0xff,
            b3 == (x >> 24) & 0xff,
    ;
    out.push(b0 as u8);
    out.push(b1 as u8);
    out.push(b2 as u8);
    out.push(b3 as u8);
    assert(out@ =~= old(out)@ + spec_u32_le(x));
}

/// Appends `bytes`, prefixed with its length, to `out`.
pub fn push_len_prefixed(out: &mut Vec<u8>, bytes: &[u8])
    ensures
        final(out)@ == old(out)@ + spec_len_prefixed(bytes@),
{
    push_u64_le(out, bytes.len() as u64);
    let mut i: usize = 0;
    while i < bytes.len()
        invariant
            i <= bytes@.len(),
            out@ == old(out)@ + spec_u64_le(bytes@.len() as u64) + bytes@.subrange(0, i as int),
        decreases bytes@.len() - i,
    {
        out.push(bytes[i]);
        i = i + 1;
        assert(out@ =~= old(out)@ + spec_u64_le(bytes@.len() as u64) + bytes@.subrange(
            0,
            i as int,
        ));
    }
    assert(bytes@.subrange(0, bytes@.len() as int) =~= bytes@);
}

/// Appends the canonical encoding of the string `s` to `out`.
pub fn push_str_enc(out: &mut Vec<u8>, s: &str)
    ensures
        final(out)@ == old(out)@ + spec_str_enc(s@),
{
    push_len_prefixed(out, s.as_bytes());
}

/// Reads a 64-bit little-endian integer from the front of `b`.
pub fn read_le_u64(b: &[u8]) -> (r: u64)
    requires
        b@.len() >= 8,
    ensures
        r == spec_le_u64(b@),
{
    let r0: u64 = b[0] as u64;
    let r1: u64 = (b[1] as u64) << 8;
    let r2: u64 = (b[2] as u64) << 16;
    let r3: u64 = (b[3] as u64) << 24;
    let r4: u64 = (b[4] as u64) << 32;
    let r5: u64 = (b[5] as u64) << 40;
    let r6: u64 = (b[6] as u64) << 48;
    let r7: u64 = (b[7] as u64) << 56;
    r0 | r1 | r2 | r3 | r4 | r5 | r6 | r7
}

} // verus!
