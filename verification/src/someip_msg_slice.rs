//! Zero-copy view of a validated SOME/IP message inside a byte buffer.
use vstd::prelude::*;

use crate::bytes::{be32, read_be_u32};
use crate::err;
use crate::message_type::{spec_message_type_of_raw, MessageType};
use crate::someip_header::{spec_parse_header_base, SomeipHeader};
use crate::tp_header::{spec_parse_tp_header, TpHeader};

verus! {

/// A slice containing a validated SOME/IP header & the payload of that
/// message. The view borrows the caller's buffer; it is trimmed to exactly
/// `length + 8` bytes.
#[derive(Clone, Copy, Debug, Eq, PartialEq)]
pub struct SomeipMsgSlice<'a> {
    /// If true a TP header follows the SOME/IP header.
    tp: bool,
    slice: &'a [u8],
}

/// The result of validating the start of `s` as one SOME/IP message: on
/// success, whether the message carries a TP header and its total length
/// (`length + 8`); otherwise the first error in validation order.
///
/// On targets whose pointer width cannot hold `length + 8` the required
/// length reported for an over-long message saturates at `usize::MAX`.
pub open spec fn spec_from_slice_result(s: Seq<u8>) -> Result<(bool, int), err::SomeipSliceError> {
    if s.len() < 16 {
        Err(
            err::SomeipSliceError::Len(
                err::LenError {
                    required_len: 16,
                    len: s.len() as usize,
                    len_source: err::LenSource::Slice,
                    layer: err::Layer::SomeipHeader,
                },
            ),
        )
    } else {
        let length = be32(s[4], s[5], s[6], s[7]);
        if length < 8 {
            Err(err::SomeipSliceError::Content(err::SomeipHeaderError::LengthFieldTooSmall(length)))
        } else if length + 8 > usize::MAX {
            Err(
                err::SomeipSliceError::Len(
                    err::LenError {
                        required_len: usize::MAX,
                        len: s.len() as usize,
                        len_source: err::LenSource::SomeipHeaderLength,
                        layer: err::Layer::SomeipPayload,
                    },
                ),
            )
        } else if s.len() < length + 8 {
            Err(
                err::SomeipSliceError::Len(
                    err::LenError {
                        required_len: (length + 8) as usize,
                        len: s.len() as usize,
                        len_source: err::LenSource::SomeipHeaderLength,
                        layer: err::Layer::SomeipPayload,
                    },
                ),
            )
        } else if s[12] != 1 {
            Err(
                err::SomeipSliceError::Content(
                    err::SomeipHeaderError::UnsupportedProtocolVersion(s[12]),
                ),
            )
        } else if (s[14] & 0x20) != 0 && length < 12 {
            Err(err::SomeipSliceError::Content(err::SomeipHeaderError::LengthFieldTooSmall(length)))
        } else if spec_message_type_of_raw(s[14]) is None {
            Err(err::SomeipSliceError::Content(err::SomeipHeaderError::UnknownMessageType(s[14])))
        } else {
            Ok((((s[14] & 0x20) != 0), length + 8))
        }
    }
}

/// Validating the start of a byte sequence reads only its first 16 bytes and
/// its length, so it gives the same result on any sequence that agrees on
/// both.
pub proof fn lemma_from_slice_result_prefix(s1: Seq<u8>, s2: Seq<u8>)
    requires
        s1.len() == s2.len(),
        s1.len() >= 16,
        forall|i: int| 0 <= i < 16 ==> s1[i] == s2[i],
    ensures
        spec_from_slice_result(s1) == spec_from_slice_result(s2),
{
    assert(s1[4] == s2[4] && s1[5] == s2[5] && s1[6] == s2[6] && s1[7] == s2[7] && s1[12]
        == s2[12] && s1[14] == s2[14]);
}

/// The header a message slice decodes to: the fixed header with the TP
/// header attached when the TP flag is set.
pub open spec fn spec_slice_to_header(s: Seq<u8>) -> SomeipHeader
    recommends
        spec_parse_header_base(s) is Ok,
{
    let base = spec_parse_header_base(s)->Ok_0.0;
    let tp = spec_parse_header_base(s)->Ok_0.1;
    SomeipHeader {
        tp_header: if tp {
            Some(spec_parse_tp_header(s.skip(16)))
        } else {
            None
        },
        ..base
    }
}

/// Parsing a fixed header reads only the first 16 bytes, so it gives the
/// same result on any sequence that agrees on them.
proof fn lemma_parse_header_base_prefix(s1: Seq<u8>, s2: Seq<u8>)
    requires
        s1.len() >= 16,
        s2.len() >= 16,
        forall|i: int| 0 <= i < 16 ==> s1[i] == s2[i],
    ensures
        spec_parse_header_base(s1) == spec_parse_header_base(s2),
{
    assert(s1[0] == s2[0] && s1[1] == s2[1] && s1[2] == s2[2] && s1[3] == s2[3] && s1[4] == s2[4]
        && s1[5] == s2[5] && s1[6] == s2[6] && s1[7] == s2[7] && s1[8] == s2[8] && s1[9] == s2[9]
        && s1[10] == s2[10] && s1[11] == s2[11] && s1[12] == s2[12] && s1[13] == s2[13] && s1[14]
        == s2[14] && s1[15] == s2[15]);
}

/// Round trip of a whole message: validating the bytes a header was written
/// as, followed by any payload of the length the header declares, succeeds;
/// the decoded header is the written one and the payload bytes are returned
/// exactly.
pub proof fn lemma_msg_roundtrip(h: SomeipHeader, payload: Seq<u8>)
    requires
        h.length >= 8,
        h.tp_header matches Some(tp) ==> (h.length >= 12 && tp.spec_offset() % 16 == 0),
        payload.len() == h.length - 8 - (if h.tp_header is Some {
            4int
        } else {
            0int
        }),
        8 + h.length <= usize::MAX,
    ensures
        ({
            let bytes = crate::someip_header::spec_header_bytes(h) + payload;
            &&& bytes.len() == 8 + h.length
            &&& spec_from_slice_result(bytes) == Ok::<_, err::SomeipSliceError>(
                (h.tp_header is Some, 8 + h.length),
            )
            &&& spec_slice_to_header(bytes) == h
            &&& bytes.skip(
                if h.tp_header is Some {
                    20int
                } else {
                    16int
                },
            ) == payload
        }),
{
    let base = crate::someip_header::spec_header_base_bytes(h);
    let hb = crate::someip_header::spec_header_bytes(h);
    let bytes = hb + payload;
    crate::someip_header::lemma_header_roundtrip(h);
    assert(hb.take(16) == base);
    assert(hb.len() == if h.tp_header is Some {
        20int
    } else {
        16int
    });
    assert(bytes.len() == 8 + h.length);
    assert forall|i: int| 0 <= i < 16 implies bytes[i] == base[i] by {
        assert(bytes[i] == hb[i]);
        assert(hb[i] == hb.take(16)[i]);
    }
    lemma_parse_header_base_prefix(bytes, base);
    crate::bytes::lemma_be32_roundtrip(h.length, 0, 0, 0, 0);
    assert(be32(bytes[4], bytes[5], bytes[6], bytes[7]) == h.length);
    // the parse of the base succeeds, so the protocol version and message
    // type bytes are as written
    assert(spec_parse_header_base(bytes) == Ok::<_, err::SomeipHeaderError>(
        (SomeipHeader { tp_header: None, ..h }, h.tp_header is Some),
    ));
    assert(bytes[12] == 1);
    assert(spec_message_type_of_raw(bytes[14]) is Some);
    assert(((bytes[14] & 0x20) != 0) == (h.tp_header is Some));
    assert(spec_from_slice_result(bytes) == Ok::<_, err::SomeipSliceError>(
        (h.tp_header is Some, 8 + h.length),
    ));
    match h.tp_header {
        Some(tp) => {
            crate::tp_header::lemma_tp_header_roundtrip(tp);
            let tpb = crate::tp_header::spec_tp_header_bytes(tp);
            assert(hb.skip(16) == tpb);
            assert(bytes.skip(16)[0] == tpb[0] && bytes.skip(16)[1] == tpb[1] && bytes.skip(16)[2]
                == tpb[2] && bytes.skip(16)[3] == tpb[3]) by {
                assert(hb[16] == hb.skip(16)[0] && hb[17] == hb.skip(16)[1] && hb[18] == hb.skip(
                    16,
                )[2] && hb[19] == hb.skip(16)[3]);
            }
            assert(spec_parse_tp_header(bytes.skip(16)) == spec_parse_tp_header(tpb));
            assert(spec_slice_to_header(bytes) == h);
            assert(bytes.skip(20) =~= payload);
        },
        None => {
            assert(spec_slice_to_header(bytes) == h);
            assert(bytes.skip(16) =~= payload);
        },
    }
}

impl<'a> View for SomeipMsgSlice<'a> {
    type V = Seq<u8>;

    /// The bytes of the message: header, TP header if present, and payload.
    closed spec fn view(&self) -> Seq<u8> {
        self.slice@
    }
}

impl<'a> SomeipMsgSlice<'a> {
    /// What every constructed message slice guarantees: the bytes hold a
    /// valid fixed header whose TP flag matches the stored flag, and the
    /// slice is trimmed to exactly `length + 8` bytes (at least 20 when a TP
    /// header is present).
    #[verifier::type_invariant]
    closed spec fn inv(self) -> bool {
        &&& self.slice@.len() >= 16
        &&& spec_from_slice_result(self.slice@) == Ok::<_, err::SomeipSliceError>(
            (self.tp, self.slice@.len() as int),
        )
    }

    /// Whether a TP header follows the SOME/IP header.
    pub closed spec fn spec_is_tp(&self) -> bool {
        self.tp
    }

    /// Validates the start of a slice as one SOME/IP message and returns a
    /// view of exactly that message.
    ///
    /// The validation order and the reported errors follow
    /// [`spec_from_slice_result`]: a slice shorter than a fixed header and a
    /// slice shorter than `length + 8` give a length error; a length field
    /// below 8 (below 12 with the TP flag set), a protocol version other
    /// than 1 and an unknown message type give a content error.
    pub fn from_slice(slice: &'a [u8]) -> (r: Result<SomeipMsgSlice<'a>, err::SomeipSliceError>)
        ensures
            (spec_from_slice_result(slice@) matches Ok(p) ==> (r matches Ok(m) && m.spec_is_tp()
                == p.0 && m@ == slice@.take(p.1))),
            (spec_from_slice_result(slice@) matches Err(e) ==> r == Err::<SomeipMsgSlice<'a>, _>(
                e,
            )),
    {
        if slice.len() < crate::SOMEIP_HEADER_LENGTH {
            return Err(
                err::SomeipSliceError::Len(
                    err::LenError {
                        required_len: 16,
                        len: slice.len(),
                        len_source: err::LenSource::Slice,
                        layer: err::Layer::SomeipHeader,
                    },
                ),
            );
        }
        let length = read_be_u32(slice[4], slice[5], slice[6], slice[7]);
        if length < crate::SOMEIP_LEN_OFFSET_TO_PAYLOAD {
            return Err(
                err::SomeipSliceError::Content(err::SomeipHeaderError::LengthFieldTooSmall(length)),
            );
        }
        let length_usize = length as usize;
        if length_usize > usize::MAX - 8 {
            return Err(
                err::SomeipSliceError::Len(
                    err::LenError {
                        required_len: usize::MAX,
                        len: slice.len(),
                        len_source: err::LenSource::SomeipHeaderLength,
                        layer: err::Layer::SomeipPayload,
                    },
                ),
            );
        }
        let total_length = length_usize + 8;
        if slice.len() < total_length {
            return Err(
                err::SomeipSliceError::Len(
                    err::LenError {
                        required_len: total_length,
                        len: slice.len(),
                        len_source: err::LenSource::SomeipHeaderLength,
                        layer: err::Layer::SomeipPayload,
                    },
                ),
            );
        }
        let protocol_version = slice[12];
        if crate::SOMEIP_PROTOCOL_VERSION != protocol_version {
            return Err(
                err::SomeipSliceError::Content(
                    err::SomeipHeaderError::UnsupportedProtocolVersion(protocol_version),
                ),
            );
        }
        let message_type = slice[14];
        let tp = 0 != message_type & crate::SOMEIP_HEADER_MESSAGE_TYPE_TP_FLAG;
        if tp && length < crate::SOMEIP_LEN_OFFSET_TO_PAYLOAD + 4 {
            return Err(
                err::SomeipSliceError::Content(err::SomeipHeaderError::LengthFieldTooSmall(length)),
            );
        }
        if MessageType::from_raw(message_type).is_none() {
            return Err(
                err::SomeipSliceError::Content(
                    err::SomeipHeaderError::UnknownMessageType(message_type),
                ),
            );
        }
        let trimmed = &slice[0..total_length];
        proof {
            assert(trimmed@ == slice@.take(total_length as int));
            lemma_from_slice_result_prefix(trimmed@, slice@.take(total_length as int));
            assert(spec_from_slice_result(trimmed@) == Ok::<_, err::SomeipSliceError>(
                (tp, trimmed@.len() as int),
            ));
        }
        Ok(SomeipMsgSlice { tp, slice: trimmed })
    }

    /// Returns the slice that contains the SOME/IP message. Beside the
    /// bytes themselves, the contract restates what every message slice
    /// guarantees: the bytes validate successfully with the stored TP flag,
    /// and the slice is exactly `length + 8` bytes long.
    pub fn slice(&self) -> (r: &'a [u8])
        ensures
            r@ == self@,
            spec_from_slice_result(self@) == Ok::<_, err::SomeipSliceError>(
                (self.spec_is_tp(), self@.len() as int),
            ),
            self@.len() >= 16,
            self.spec_is_tp() ==> self@.len() >= 20,
            self@.len() == be32(self@[4], self@[5], self@[6], self@[7]) + 8,
            spec_parse_header_base(self@) is Ok,
            spec_parse_header_base(self@)->Ok_0.1 == self.spec_is_tp(),
    {
        proof {
            use_type_invariant(self);
        }
        self.slice
    }

    /// Returns the message id of the message.
    pub fn message_id(&self) -> (r: u32)
        ensures
            r == be32(self@[0], self@[1], self@[2], self@[3]),
    {
        proof {
            use_type_invariant(self);
        }
        read_be_u32(self.slice[0], self.slice[1], self.slice[2], self.slice[3])
    }

    /// Returns the service id (the high 16 bits of the message id).
    pub fn service_id(&self) -> (r: u16)
        ensures
            r == (be32(self@[0], self@[1], self@[2], self@[3]) >> 16) as u16,
    {
        proof {
            use_type_invariant(self);
        }
        let b0 = self.slice[0];
        let b1 = self.slice[1];
        let r = crate::bytes::read_be_u16(b0, b1);
        proof {
            let c0 = self@[0];
            let c1 = self@[1];
            let c2 = self@[2];
            let c3 = self@[3];
            assert(crate::bytes::be16(c0, c1) == (be32(c0, c1, c2, c3) >> 16) as u16)
                by (bit_vector);
        }
        r
    }

    /// Returns true if the event bit (bit 15 of the message id) is set.
    pub fn is_event(&self) -> (r: bool)
        ensures
            r == ((be32(self@[0], self@[1], self@[2], self@[3]) & 0x8000) != 0),
    {
        proof {
            use_type_invariant(self);
        }
        let b2 = self.slice[2];
        let r = 0 != b2 & 0x80;
        proof {
            let c0 = self@[0];
            let c1 = self@[1];
            let c2 = self@[2];
            let c3 = self@[3];
            assert(((c2 & 0x80) != 0) == ((be32(c0, c1, c2, c3) & 0x8000) != 0)) by (bit_vector);
        }
        r
    }

    /// Returns the event id or method id (the low 16 bits of the message
    /// id). The value includes the event bit.
    pub fn event_or_method_id(&self) -> (r: u16)
        ensures
            r == (be32(self@[0], self@[1], self@[2], self@[3]) & 0xffff) as u16,
    {
        proof {
            use_type_invariant(self);
        }
        let b2 = self.slice[2];
        let b3 = self.slice[3];
        let r = crate::bytes::read_be_u16(b2, b3);
        proof {
            let c0 = self@[0];
            let c1 = self@[1];
            let c2 = self@[2];
            let c3 = self@[3];
            assert(crate::bytes::be16(c2, c3) == (be32(c0, c1, c2, c3) & 0xffff) as u16)
                by (bit_vector);
        }
        r
    }

    /// Returns the event id without the event bit, or `None` if the event
    /// bit is not set.
    pub fn event_id(&self) -> (r: Option<u16>)
        ensures
            (be32(self@[0], self@[1], self@[2], self@[3]) & 0x8000) != 0 ==> r == Some(((be32(
                self@[0],
                self@[1],
                self@[2],
                self@[3],
            ) & 0xffff) as u16 & 0x7fff)),
            (be32(self@[0], self@[1], self@[2], self@[3]) & 0x8000) == 0 ==> r is None,
    {
        if self.is_event() {
            Some(self.event_or_method_id() & 0x7fff)
        } else {
            None
        }
    }

    /// Returns the method id, or `None` if the event bit is set.
    pub fn method_id(&self) -> (r: Option<u16>)
        ensures
            (be32(self@[0], self@[1], self@[2], self@[3]) & 0x8000) == 0 ==> r == Some(((be32(
                self@[0],
                self@[1],
                self@[2],
                self@[3],
            ) & 0xffff) as u16 & 0x7fff)),
            (be32(self@[0], self@[1], self@[2], self@[3]) & 0x8000) != 0 ==> r is None,
    {
        if !self.is_event() {
            Some(self.event_or_method_id() & 0x7fff)
        } else {
            None
        }
    }

    /// Returns true if the message has the message id of a SOME/IP service
    /// discovery message.
    pub fn is_someip_sd(&self) -> (r: bool)
        ensures
            r == (be32(self@[0], self@[1], self@[2], self@[3]) == 0xffff_8100u32),
    {
        crate::SOMEIP_SD_MESSAGE_ID == self.message_id()
    }

    /// Returns the length contained in the header. The length partially
    /// covers the header and partially the payload; use [`Self::payload`]
    /// for the payload bytes.
    pub fn length(&self) -> (r: u32)
        ensures
            r == be32(self@[4], self@[5], self@[6], self@[7]),
            self@.len() == r + 8,
    {
        proof {
            use_type_invariant(self);
        }
        read_be_u32(self.slice[4], self.slice[5], self.slice[6], self.slice[7])
    }

    /// Returns the request id of the message.
    pub fn request_id(&self) -> (r: u32)
        ensures
            r == be32(self@[8], self@[9], self@[10], self@[11]),
    {
        proof {
            use_type_invariant(self);
        }
        read_be_u32(self.slice[8], self.slice[9], self.slice[10], self.slice[11])
    }

    /// Returns the protocol version field of the message (always 1, as
    /// validation rejects any other value).
    pub fn protocol_version(&self) -> (r: u8)
        ensures
            r == self@[12],
            r == 1,
    {
        proof {
            use_type_invariant(self);
        }
        self.slice[12]
    }

    /// Returns the interface version field of the message.
    pub fn interface_version(&self) -> (r: u8)
        ensures
            r == self@[13],
    {
        proof {
            use_type_invariant(self);
        }
        self.slice[13]
    }

    /// Returns the message type (without the TP flag; use [`Self::is_tp`]
    /// to check whether this is a TP message).
    pub fn message_type(&self) -> (r: MessageType)
        ensures
            Some(r) == spec_message_type_of_raw(self@[14]),
    {
        proof {
            use_type_invariant(self);
        }
        let raw = self.slice[14];
        match MessageType::from_raw(raw) {
            Some(mt) => mt,
            None => {
                proof {
                    assert(false);
                }
                MessageType::Request
            },
        }
    }

    /// Returns the raw message type byte (containing the TP flag).
    pub fn message_type_raw(&self) -> (r: u8)
        ensures
            r == self@[14],
    {
        proof {
            use_type_invariant(self);
        }
        self.slice[14]
    }

    /// Returns true if the TP flag in the message type is set (transporting
    /// large SOME/IP messages over UDP).
    pub fn is_tp(&self) -> (r: bool)
        ensures
            r == self.spec_is_tp(),
            r == ((self@[14] & 0x20) != 0),
    {
        proof {
            use_type_invariant(self);
        }
        self.tp
    }

    /// Returns the return code of the message.
    pub fn return_code(&self) -> (r: u8)
        ensures
            r == self@[15],
    {
        proof {
            use_type_invariant(self);
        }
        self.slice[15]
    }

    /// Returns the payload of the message: the bytes after the SOME/IP
    /// header and, if present, after the TP header.
    pub fn payload(&self) -> (r: &'a [u8])
        ensures
            self.spec_is_tp() ==> r@ == self@.skip(20),
            !self.spec_is_tp() ==> r@ == self@.skip(16),
    {
        proof {
            use_type_invariant(self);
        }
        if self.tp {
            let r = &self.slice[20..self.slice.len()];
            proof {
                assert(r@ =~= self@.skip(20));
            }
            r
        } else {
            let r = &self.slice[16..self.slice.len()];
            proof {
                assert(r@ =~= self@.skip(16));
            }
            r
        }
    }

    /// Returns the TP header if one is present.
    pub fn tp_header(&self) -> (r: Option<TpHeader>)
        ensures
            self.spec_is_tp() ==> r == Some(spec_parse_tp_header(self@.skip(16))),
            !self.spec_is_tp() ==> r is None,
    {
        proof {
            use_type_invariant(self);
        }
        if self.tp {
            let rest = &self.slice[16..self.slice.len()];
            proof {
                assert(rest@ =~= self@.skip(16));
            }
            match TpHeader::read_from_slice(rest) {
                Ok(tp) => Some(tp),
                Err(_) => {
                    proof {
                        assert(false);
                    }
                    None
                },
            }
        } else {
            None
        }
    }

    /// Decodes all fields and copies the results into an owned
    /// [`SomeipHeader`].
    pub fn to_header(&self) -> (r: SomeipHeader)
        ensures
            r == spec_slice_to_header(self@),
    {
        proof {
            use_type_invariant(self);
        }
        SomeipHeader {
            message_id: self.message_id(),
            length: self.length(),
            request_id: self.request_id(),
            interface_version: self.interface_version(),
            message_type: self.message_type(),
            return_code: self.return_code(),
            tp_header: self.tp_header(),
        }
    }
}

} // verus!
