//! Big-endian byte order helpers shared by the header and payload codecs.
use vstd::prelude::*;

verus! {

/// The `u16` encoded big-endian by the two bytes `b0 b1`.
pub open spec fn be16(b0: u8, b1: u8) -> u16 {
    ((b0 as u16) << 8) | (b1 as u16)
}

/// High byte of the big-endian encoding of `v`.
pub open spec fn be16_hi(v: u16) -> u8 {
    (v >> 8) as u8
}

/// Low byte of the big-endian encoding of `v`.
pub open spec fn be16_lo(v: u16) -> u8 {
    (v & 0xff) as u8
}

/// The `u32` encoded big-endian by the four bytes `b0 b1 b2 b3`.
pub open spec fn be32(b0: u8, b1: u8, b2: u8, b3: u8) -> u32 {
    ((b0 as u32) << 24) | ((b1 as u32) << 16) | ((b2 as u32) << 8) | (b3 as u32)
}

/// First (most significant) byte of the big-endian encoding of `v`.
pub open spec fn be32_b0(v: u32) -> u8 {
    (v >> 24) as u8
}

/// Second byte of the big-endian encoding of `v`.
pub open spec fn be32_b1(v: u32) -> u8 {
    ((v >> 16) & 0xff) as u8
}

/// Third byte of the big-endian encoding of `v`.
pub open spec fn be32_b2(v: u32) -> u8 {
    ((v >> 8) & 0xff) as u8
}

/// Fourth (least significant) byte of the big-endian encoding of `v`.
pub open spec fn be32_b3(v: u32) -> u8 {
    (v & 0xff) as u8
}

/// Decoding the two bytes of an encoded `u16` gives the value back, and
/// encoding a decoded value gives the bytes back.
pub proof fn lemma_be16_roundtrip(v: u16, b0: u8, b1: u8)
    by (bit_vector)
    ensures
        be16_hi(be16(b0, b1)) == b0,
        be16_lo(be16(b0, b1)) == b1,
        be16(be16_hi(v), be16_lo(v)) == v,
{
}

/// Decoding the four bytes of an encoded `u32` gives the value back, and
/// encoding a decoded value gives the bytes back.
pub proof fn lemma_be32_roundtrip(v: u32, b0: u8, b1: u8, b2: u8, b3: u8)
    by (bit_vector)
    ensures
        be32_b0(be32(b0, b1, b2, b3)) == b0,
        be32_b1(be32(b0, b1, b2, b3)) == b1,
        be32_b2(be32(b0, b1, b2, b3)) == b2,
        be32_b3(be32(b0, b1, b2, b3)) == b3,
        be32(be32_b0(v), be32_b1(v), be32_b2(v), be32_b3(v)) == v,
{
}

/// Reads a big-endian `u16` from two bytes.
pub fn read_be_u16(b0: u8, b1: u8) -> (r: u16)
    ensures
        r == be16(b0, b1),
{
    ((b0 as u16) << 8) | (b1 as u16)
}

/// Reads a big-endian `u32` from four bytes.
pub fn read_be_u32(b0: u8, b1: u8, b2: u8, b3: u8) -> (r: u32)
    ensures
        r == be32(b0, b1, b2, b3),
{
    ((b0 as u32) << 24) | ((b1 as u32) << 16) | ((b2 as u32) << 8) | (b3 as u32)
}

/// Splits a `u16` into its big-endian bytes.
pub fn split_be_u16(v: u16) -> (r: (u8, u8))
    ensures
        r.0 == be16_hi(v),
        r.1 == be16_lo(v),
        be16(r.0, r.1) == v,
{
    proof {
        lemma_be16_roundtrip(v, 0, 0);
    }
    ((v >> 8) as u8, (v & 0xff) as u8)
}

/// Splits a `u32` into its big-endian bytes.
pub fn split_be_u32(v: u32) -> (r: (u8, u8, u8, u8))
    ensures
        r.0 == be32_b0(v),
        r.1 == be32_b1(v),
        r.2 == be32_b2(v),
        r.3 == be32_b3(v),
        be32(r.0, r.1, r.2, r.3) == v,
{
    proof {
        lemma_be32_roundtrip(v, 0, 0, 0, 0);
    }
    (
        (v >> 24) as u8,
        ((v >> 16) & 0xff) as u8,
        ((v >> 8) & 0xff) as u8,
        (v & 0xff) as u8,
    )
}

} // verus!
