//! Codec for the 4-byte TP header that follows a SOME/IP header when the TP
//! flag is set.
use vstd::prelude::*;

use crate::bytes::{be32, be32_b0, be32_b1, be32_b2, be32_b3, read_be_u32, split_be_u32};
use crate::err;

verus! {

/// Additional header when a packet contains a TP header (transporting large
/// SOME/IP messages).
///
/// The offset is kept private so that the alignment invariant (a multiple of
/// 16) cannot be broken; construct a header through [`TpHeader::new`] or
/// [`TpHeader::with_offset`] and read the fields through [`TpHeader::offset`]
/// and [`TpHeader::more_segment`].
#[derive(Clone, Copy, Debug, Eq, PartialEq, Structural)]
pub struct TpHeader {
    /// Offset of the payload relative to the start of the completely
    /// assembled payload. Always a multiple of 16.
    offset: u32,
    /// Flag signaling that more packets should follow.
    more_segment: bool,
}

impl TpHeader {
    /// The offset invariant every TP header keeps: a multiple of 16.
    #[verifier::type_invariant]
    closed spec fn inv(self) -> bool {
        self.offset % 16 == 0
    }

    /// The offset field of the header.
    pub closed spec fn spec_offset(&self) -> u32 {
        self.offset
    }

    /// The more-segments flag of the header.
    pub closed spec fn spec_more_segment(&self) -> bool {
        self.more_segment
    }

    /// Creates a TP header with offset 0 and the given more-segments flag.
    pub fn new(more_segment: bool) -> (r: TpHeader)
        ensures
            r.spec_offset() == 0,
            r.spec_more_segment() == more_segment,
    {
        TpHeader { offset: 0, more_segment }
    }

    /// Creates a TP header with the given offset and more-segments flag if
    /// the offset is a multiple of 16. Otherwise a
    /// `TpOffsetNotMultipleOf16` error is returned.
    pub fn with_offset(offset: u32, more_segment: bool) -> (r: Result<TpHeader, err::ValueError>)
        ensures
            offset % 16 == 0 ==> (r matches Ok(h) && h.spec_offset() == offset
                && h.spec_more_segment() == more_segment),
            offset % 16 != 0 ==> r == Err::<TpHeader, _>(err::ValueError::TpOffsetNotMultipleOf16(
                offset,
            )),
    {
        if 0 != offset % 16 {
            Err(err::ValueError::TpOffsetNotMultipleOf16(offset))
        } else {
            Ok(TpHeader { offset, more_segment })
        }
    }

    /// Returns the offset field of the TP header. The offset defines the
    /// position of this segment's payload in the assembled payload.
    pub fn offset(&self) -> (r: u32)
        ensures
            r == self.spec_offset(),
            r % 16 == 0,
    {
        proof {
            use_type_invariant(self);
        }
        self.offset
    }

    /// Returns the more-segments flag: true for every segment but the last
    /// of a TP stream.
    pub fn more_segment(&self) -> (r: bool)
        ensures
            r == self.spec_more_segment(),
    {
        self.more_segment
    }

    /// Sets the more-segments flag.
    pub fn set_more_segment(&mut self, more_segment: bool)
        ensures
            final(self).spec_offset() == old(self).spec_offset(),
            final(self).spec_more_segment() == more_segment,
    {
        proof {
            use_type_invariant(&*self);
        }
        *self = TpHeader { offset: self.offset, more_segment };
    }

    /// Sets the offset field of the header and returns `Ok(())` on success.
    /// The value must be a multiple of 16; otherwise the value is not set
    /// and a `TpOffsetNotMultipleOf16` error is returned.
    pub fn set_offset(&mut self, value: u32) -> (r: Result<(), err::ValueError>)
        ensures
            value % 16 == 0 ==> (r is Ok && final(self).spec_offset() == value
                && final(self).spec_more_segment() == old(self).spec_more_segment()),
            value % 16 != 0 ==> (r == Err::<(), _>(err::ValueError::TpOffsetNotMultipleOf16(value))
                && *final(self) == *old(self)),
    {
        if 0 != value % 16 {
            Err(err::ValueError::TpOffsetNotMultipleOf16(value))
        } else {
            *self = TpHeader { offset: value, more_segment: self.more_segment };
            Ok(())
        }
    }

    /// Reads a TP header from the start of a slice.
    pub fn read_from_slice(slice: &[u8]) -> (r: Result<TpHeader, err::SdReadError>)
        ensures
            slice@.len() >= 4 ==> (r matches Ok(h) && h == spec_parse_tp_header(slice@)),
            slice@.len() < 4 ==> (r matches Err(e) && (e matches
                err::SdReadError::UnexpectedEndOfSlice(l) && l == 4)),
    {
        if slice.len() < 4 {
            Err(err::SdReadError::UnexpectedEndOfSlice(4))
        } else {
            let b3 = slice[3];
            let more_segment = 0 != (b3 & 0x1);
            let offset = read_be_u32(slice[0], slice[1], slice[2], b3 & 0xf0);
            proof {
                lemma_masked_offset_aligned(slice@[0], slice@[1], slice@[2], slice@[3]);
            }
            Ok(TpHeader { offset, more_segment })
        }
    }

    /// Writes the header to the start of a slice, leaving the rest of the
    /// slice unchanged. Fails without touching the slice when fewer than
    /// four bytes of space are available.
    pub fn write_to_slice(&self, slice: &mut [u8]) -> (r: Result<(), err::SliceWriteSpaceError>)
        ensures
            old(slice)@.len() >= 4 ==> (r is Ok && final(slice)@ == spec_tp_header_bytes(*self)
                + old(slice)@.skip(4)),
            old(slice)@.len() < 4 ==> (r == Err::<(), _>(err::SliceWriteSpaceError {
                required_len: 4,
                len: old(slice)@.len() as usize,
                layer: err::Layer::SomeipTpHeader,
            }) && final(slice)@ == old(slice)@),
    {
        if slice.len() < 4 {
            Err(err::SliceWriteSpaceError {
                required_len: 4,
                len: slice.len(),
                layer: err::Layer::SomeipTpHeader,
            })
        } else {
            let buffer = self.to_bytes();
            slice[0] = buffer[0];
            slice[1] = buffer[1];
            slice[2] = buffer[2];
            slice[3] = buffer[3];
            proof {
                assert(final(slice)@ =~= spec_tp_header_bytes(*self) + old(slice)@.skip(4));
            }
            Ok(())
        }
    }

    /// Encodes the header as its four wire bytes.
    pub fn to_bytes(&self) -> (r: [u8; 4])
        ensures
            r@ == spec_tp_header_bytes(*self),
    {
        proof {
            use_type_invariant(self);
        }
        let (b0, b1, b2, b3) = split_be_u32(self.offset);
        let last = if self.more_segment {
            b3 | 0x1
        } else {
            b3
        };
        let result = [b0, b1, b2, last];
        proof {
            assert(result@ =~= spec_tp_header_bytes(*self));
        }
        result
    }
}

impl Default for TpHeader {
    /// A TP header with offset 0 and the more-segments flag cleared.
    fn default() -> (r: Self)
        ensures
            r.spec_offset() == 0,
            r.spec_more_segment() == false,
    {
        TpHeader { offset: 0, more_segment: false }
    }
}

/// The four bytes a TP header is written as: the offset (whose low four bits
/// are zero) big-endian, with the low bit carrying the more-segments flag.
pub open spec fn spec_tp_header_bytes(h: TpHeader) -> Seq<u8> {
    seq![
        be32_b0(h.spec_offset()),
        be32_b1(h.spec_offset()),
        be32_b2(h.spec_offset()),
        if h.spec_more_segment() {
            be32_b3(h.spec_offset()) | 0x1
        } else {
            be32_b3(h.spec_offset())
        },
    ]
}

/// The TP header encoded by the first four bytes of `s`: the low four bits
/// of the last byte are masked out of the offset, and bit 0 carries the
/// more-segments flag.
pub open spec fn spec_parse_tp_header(s: Seq<u8>) -> TpHeader
    recommends
        s.len() >= 4,
{
    spec_tp_header(be32(s[0], s[1], s[2], s[3] & 0xf0), (s[3] & 0x1) != 0)
}

/// The TP header with the given offset and more-segments flag.
pub closed spec fn spec_tp_header(offset: u32, more_segment: bool) -> TpHeader {
    TpHeader { offset, more_segment }
}

/// The fields of [`spec_tp_header`] read back as given.
pub broadcast proof fn lemma_spec_tp_header(offset: u32, more_segment: bool)
    ensures
        (#[trigger] spec_tp_header(offset, more_segment)).spec_offset() == offset,
        spec_tp_header(offset, more_segment).spec_more_segment() == more_segment,
{
}

/// Masking the low four bits of the last offset byte yields an offset that
/// is a multiple of 16.
proof fn lemma_masked_offset_aligned(b0: u8, b1: u8, b2: u8, b3: u8)
    by (bit_vector)
    ensures
        be32(b0, b1, b2, b3 & 0xf0) % 16 == 0,
{
}

/// Parsing the four bytes a TP header was written as gives the header back.
pub proof fn lemma_tp_header_roundtrip(h: TpHeader)
    requires
        h.spec_offset() % 16 == 0,
    ensures
        spec_parse_tp_header(spec_tp_header_bytes(h)) == h,
{
    let o = h.spec_offset();
    assert(o % 16 == 0 ==> ((be32_b3(o) & 0x1) == 0 && ((be32_b3(o) | 0x1) & 0x1) == 1 && (be32_b3(
        o,
    ) & 0xf0) == be32_b3(o) && ((be32_b3(o) | 0x1) & 0xf0) == be32_b3(o))) by (bit_vector);
    crate::bytes::lemma_be32_roundtrip(o, 0, 0, 0, 0);
    assert(spec_parse_tp_header(spec_tp_header_bytes(h)).spec_offset() == o);
    assert(spec_parse_tp_header(spec_tp_header_bytes(h)).spec_more_segment()
        == h.spec_more_segment());
}

} // verus!
