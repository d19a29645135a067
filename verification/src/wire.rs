//! Big-endian encodings of the fixed-width header fields.
//!
//! Every integer on the wire is big-endian. The spec functions below are the
//! mathematical definition of those encodings; the exec functions are proved
//! against them.

use vstd::prelude::*;

verus! {

/// The two big-endian bytes of a 16-bit value.
pub open spec fn spec_u16_to_be_bytes(x: u16) -> Seq<u8> {
    seq![((x >> 8) & 0xff) as u8, (x & 0xff) as u8]
}

/// The 16-bit value held by two big-endian bytes.
pub open spec fn spec_u16_from_be_bytes(s: Seq<u8>) -> u16
    recommends
        s.len() == 2,
{
    (s[0] as u16) << 8 | (s[1] as u16)
}

/// The four big-endian bytes of a 32-bit value.
pub open spec fn spec_u32_to_be_bytes(x: u32) -> Seq<u8> {
    seq![
        ((x >> 24) & 0xff) as u8,
        ((x >> 16) & 0xff) as u8,
        ((x >> 8) & 0xff) as u8,
        (x & 0xff) as u8,
    ]
}

/// The 32-bit value held by four big-endian bytes.
pub open spec fn spec_u32_from_be_bytes(s: Seq<u8>) -> u32
    recommends
        s.len() == 4,
{
    (s[0] as u32) << 24 | (s[1] as u32) << 16 | (s[2] as u32) << 8 | (s[3] as u32)
}

/// Encoding then decoding a 16-bit value gives the value back.
pub proof fn lemma_u16_be_encode_decode(x: u16)
    ensures
        spec_u16_to_be_bytes(x).len() == 2,
        spec_u16_from_be_bytes(spec_u16_to_be_bytes(x)) == x,
{
    let b0 = ((x >> 8) & 0xff) as u8;
    let b1 = (x & 0xff) as u8;
    assert(b0 == ((x >> 8) & 0xff) as u8 && b1 == (x & 0xff) as u8 ==> (b0 as u16) << 8 | (
    b1 as u16) == x) by (bit_vector);
}

/// Encoding then decoding a 32-bit value gives the value back.
pub proof fn lemma_u32_be_encode_decode(x: u32)
    ensures
        spec_u32_to_be_bytes(x).len() == 4,
        spec_u32_from_be_bytes(spec_u32_to_be_bytes(x)) == x,
{
    let b0 = ((x >> 24) & 0xff) as u8;
    let b1 = ((x >> 16) & 0xff) as u8;
    let b2 = ((x >> 8) & 0xff) as u8;
    let b3 = (x & 0xff) as u8;
    assert(b0 == ((x >> 24) & 0xff) as u8 && b1 == ((x >> 16) & 0xff) as u8 && b2 == ((x >> 8)
        & 0xff) as u8 && b3 == (x & 0xff) as u8 ==> (b0 as u32) << 24 | (b1 as u32) << 16 | (
    b2 as u32) << 8 | (b3 as u32) == x) by (bit_vector);
}

/// Decoding then re-encoding four bytes gives the bytes back.
pub proof fn lemma_u32_be_decode_encode(s: Seq<u8>)
    requires
        s.len() == 4,
    ensures
        spec_u32_to_be_bytes(spec_u32_from_be_bytes(s)) == s,
{
    let x = spec_u32_from_be_bytes(s);
    let b0 = s[0];
    let b1 = s[1];
    let b2 = s[2];
    let b3 = s[3];
    assert(x == (b0 as u32) << 24 | (b1 as u32) << 16 | (b2 as u32) << 8 | (b3 as u32) ==> ((x
        >> 24) & 0xff) as u8 == b0 && ((x >> 16) & 0xff) as u8 == b1 && ((x >> 8) & 0xff) as u8
        == b2 && (x & 0xff) as u8 == b3) by (bit_vector);
    assert(spec_u32_to_be_bytes(x) =~= s);
}

/// Append the two big-endian bytes of `x` to `buf`.
pub fn push_u16_be(buf: &mut Vec<u8>, x: u16)
    ensures
        final(buf)@ == old(buf)@ + spec_u16_to_be_bytes(x),
{
    proof {
        assert((x >> 8) & 0xff < 256 && x & 0xff < 256) by (bit_vector);
    }
    buf.push(((x >> 8) & 0xff) as u8);
    buf.push((x & 0xff) as u8);
    assert(buf@ =~= old(buf)@ + spec_u16_to_be_bytes(x));
}

/// Append the four big-endian bytes of `x` to `buf`.
pub fn push_u32_be(buf: &mut Vec<u8>, x: u32)
    ensures
        final(buf)@ == old(buf)@ + spec_u32_to_be_bytes(x),
{
    proof {
        assert((x >> 24) & 0xff < 256 && (x >> 16) & 0xff < 256 && (x >> 8) & 0xff < 256 && x & 0xff
            < 256) by (bit_vector);
    }
    buf.push(((x >> 24) & 0xff) as u8);
    buf.push(((x >> 16) & 0xff) as u8);
    buf.push(((x >> 8) & 0xff) as u8);
    buf.push((x & 0xff) as u8);
    assert(buf@ =~= old(buf)@ + spec_u32_to_be_bytes(x));
}

/// The four big-endian bytes of `x` as a fresh vector.
pub fn u32_to_be_vec(x: u32) -> (r: Vec<u8>)
    ensures
        r@ == spec_u32_to_be_bytes(x),
{
    let mut r: Vec<u8> = Vec::new();
    push_u32_be(&mut r, x);
    assert(r@ =~= spec_u32_to_be_bytes(x));
    r
}

/// Read a 32-bit big-endian value from a four-byte slice.
pub fn u32_from_be_slice(s: &[u8]) -> (x: u32)
    requires
        s@.len() == 4,
    ensures
        x == spec_u32_from_be_bytes(s@),
{
    let b0 = *vstd::slice::slice_index_get(s, 0);
    let b1 = *vstd::slice::slice_index_get(s, 1);
    let b2 = *vstd::slice::slice_index_get(s, 2);
    let b3 = *vstd::slice::slice_index_get(s, 3);
    (b0 as u32) << 24 | (b1 as u32) << 16 | (b2 as u32) << 8 | (b3 as u32)
}

} // verus!
