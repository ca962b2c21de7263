//! Codec for the 16-byte SOME/IP header (including the TP header if
//! present).
use vstd::prelude::*;

use crate::bytes::{be32, be32_b0, be32_b1, be32_b2, be32_b3, lemma_be32_roundtrip, read_be_u32,
    split_be_u32};
use crate::err;
use crate::message_type::{spec_message_type_of_raw, spec_message_type_raw, MessageType};
use crate::tp_header::{spec_parse_tp_header, spec_tp_header_bytes, TpHeader};

verus! {

/// SOME/IP header (including the TP header if present).
#[derive(Clone, Debug, Eq, PartialEq, Structural)]
pub struct SomeipHeader {
    pub message_id: u32,
    /// Length counted from byte 8 of the header onward; at least 8.
    pub length: u32,
    pub request_id: u32,
    pub interface_version: u8,
    /// Message type (does not contain the TP flag; the flag is determined by
    /// whether something is present in the `tp_header` field).
    pub message_type: MessageType,
    pub return_code: u8,
    /// Contains a TP header if the payload is split over multiple messages;
    /// the TP header holds the start offset of this message's payload
    /// relative to the completely assembled payload.
    pub tp_header: Option<TpHeader>,
}

/// The raw message type byte a header is written as: the message type's raw
/// value, with the TP flag ORed in when a TP header is present.
pub open spec fn spec_message_type_byte(h: SomeipHeader) -> u8 {
    if h.tp_header is Some {
        spec_message_type_raw(h.message_type) | 0x20
    } else {
        spec_message_type_raw(h.message_type)
    }
}

/// The 16 bytes of the fixed SOME/IP header (without the TP header).
pub open spec fn spec_header_base_bytes(h: SomeipHeader) -> Seq<u8> {
    seq![
        be32_b0(h.message_id),
        be32_b1(h.message_id),
        be32_b2(h.message_id),
        be32_b3(h.message_id),
        be32_b0(h.length),
        be32_b1(h.length),
        be32_b2(h.length),
        be32_b3(h.length),
        be32_b0(h.request_id),
        be32_b1(h.request_id),
        be32_b2(h.request_id),
        be32_b3(h.request_id),
        1u8,
        h.interface_version,
        spec_message_type_byte(h),
        h.return_code,
    ]
}

/// All bytes of the header: the fixed 16 bytes, followed by the 4 TP header
/// bytes when a TP header is present.
pub open spec fn spec_header_bytes(h: SomeipHeader) -> Seq<u8> {
    match h.tp_header {
        Some(tp) => spec_header_base_bytes(h) + spec_tp_header_bytes(tp),
        None => spec_header_base_bytes(h),
    }
}

/// The result of parsing the first 16 bytes of `b` as a fixed SOME/IP
/// header: the decoded header (with `tp_header` still `None`) and whether a
/// TP header follows, or the first content error in validation order
/// (length, then protocol version, then message type).
pub open spec fn spec_parse_header_base(b: Seq<u8>) -> Result<
    (SomeipHeader, bool),
    err::SomeipHeaderError,
>
    recommends
        b.len() >= 16,
{
    let length = be32(b[4], b[5], b[6], b[7]);
    if length < 8 {
        Err(err::SomeipHeaderError::LengthFieldTooSmall(length))
    } else if b[12] != 1 {
        Err(err::SomeipHeaderError::UnsupportedProtocolVersion(b[12]))
    } else {
        match spec_message_type_of_raw(b[14]) {
            None => Err(err::SomeipHeaderError::UnknownMessageType(b[14])),
            Some(mt) => Ok(
                (
                    SomeipHeader {
                        message_id: be32(b[0], b[1], b[2], b[3]),
                        length,
                        request_id: be32(b[8], b[9], b[10], b[11]),
                        interface_version: b[13],
                        message_type: mt,
                        return_code: b[15],
                        tp_header: None,
                    },
                    (b[14] & 0x20) != 0,
                ),
            ),
        }
    }
}

impl SomeipHeader {
    /// Creates a service discovery message header with the given length,
    /// session id and TP header.
    pub fn new_sd_header(length: u32, session_id: u16, tp_header: Option<TpHeader>) -> (r: Self)
        ensures
            r == (SomeipHeader {
                message_id: 0xffff_8100u32,
                length,
                request_id: session_id as u32,
                interface_version: 1u8,
                message_type: MessageType::Notification,
                return_code: 0u8,
                tp_header,
            }),
    {
        SomeipHeader {
            message_id: crate::SOMEIP_SD_MESSAGE_ID,
            length,
            request_id: session_id as u32,
            interface_version: 0x01,
            message_type: MessageType::Notification,
            return_code: 0x00,
            tp_header,
        }
    }

    /// Returns the service id (the high 16 bits of the message id).
    pub fn service_id(&self) -> (r: u16)
        ensures
            r == (self.message_id >> 16) as u16,
    {
        let m = self.message_id;
        proof {
            assert((((m & 0xffff_0000) >> 16) as u16) == ((m >> 16) as u16)) by (bit_vector);
        }
        ((m & 0xffff_0000) >> 16) as u16
    }

    /// Sets the service id (the high 16 bits of the message id).
    pub fn set_service_id(&mut self, service_id: u16)
        ensures
            final(self).message_id == (old(self).message_id & 0x0000_ffff) | ((service_id as u32)
                << 16),
            *final(self) == (SomeipHeader { message_id: final(self).message_id, ..*old(self) }),
    {
        self.message_id = (self.message_id & 0x0000_ffff) | ((service_id as u32) << 16);
    }

    /// Sets the event id and forces the event bit on: the low 16 bits of the
    /// message id become `0x8000 | event_id`.
    pub fn set_event_id(&mut self, event_id: u16)
        ensures
            final(self).message_id == (old(self).message_id & 0xffff_0000) | ((0x8000u16
                | event_id) as u32),
            *final(self) == (SomeipHeader { message_id: final(self).message_id, ..*old(self) }),
    {
        self.message_id = (self.message_id & 0xffff_0000) | ((0x8000u16 | event_id) as u32);
    }

    /// Sets the method id and clears the event bit. The id must not use
    /// bit 15, which distinguishes events from methods.
    pub fn set_method_id(&mut self, method_id: u16)
        requires
            method_id <= 0x7fff,
        ensures
            final(self).message_id == (old(self).message_id & 0xffff_0000) | ((0x7fffu16
                & method_id) as u32),
            *final(self) == (SomeipHeader { message_id: final(self).message_id, ..*old(self) }),
    {
        self.message_id = (self.message_id & 0xffff_0000) | ((0x7fffu16 & method_id) as u32);
    }

    /// Sets the method or event id verbatim. The value must already include
    /// the event bit if one is intended.
    pub fn set_method_or_event_id(&mut self, method_id: u16)
        ensures
            final(self).message_id == (old(self).message_id & 0xffff_0000) | (method_id as u32),
            *final(self) == (SomeipHeader { message_id: final(self).message_id, ..*old(self) }),
    {
        self.message_id = (self.message_id & 0xffff_0000) | (method_id as u32);
    }

    /// Returns true if the message has the message id of a SOME/IP service
    /// discovery message.
    pub fn is_someip_sd(&self) -> (r: bool)
        ensures
            r == (self.message_id == 0xffff_8100u32),
    {
        crate::SOMEIP_SD_MESSAGE_ID == self.message_id
    }

    /// Returns true if the event bit (bit 15) of the message id is set.
    pub fn is_event(&self) -> (r: bool)
        ensures
            r == ((self.message_id & 0x8000) != 0),
    {
        0 != self.message_id & 0x8000
    }

    /// Returns the event id or method id (the low 16 bits of the message
    /// id). The value includes the event bit.
    pub fn event_or_method_id(&self) -> (r: u16)
        ensures
            r == (self.message_id & 0xffff) as u16,
    {
        (self.message_id & 0x0000_ffff) as u16
    }

    /// Returns the event id without the event bit, or `None` if the event
    /// bit is not set.
    pub fn event_id(&self) -> (r: Option<u16>)
        ensures
            (self.message_id & 0x8000) != 0 ==> r == Some((((self.message_id & 0xffff) as u16)
                & 0x7fff)),
            (self.message_id & 0x8000) == 0 ==> r is None,
    {
        if self.is_event() {
            Some(self.event_or_method_id() & 0x7fff)
        } else {
            None
        }
    }

    /// Returns the method id, or `None` if the event bit is set.
    pub fn method_id(&self) -> (r: Option<u16>)
        ensures
            (self.message_id & 0x8000) == 0 ==> r == Some((((self.message_id & 0xffff) as u16)
                & 0x7fff)),
            (self.message_id & 0x8000) != 0 ==> r is None,
    {
        if !self.is_event() {
            Some(self.event_or_method_id() & 0x7fff)
        } else {
            None
        }
    }

    /// Appends the encoded header (fixed part plus TP header, if present) to
    /// the given buffer.
    pub fn write_raw(&self, buffer: &mut Vec<u8>)
        ensures
            final(buffer)@ == old(buffer)@ + spec_header_bytes(*self),
    {
        let base = self.base_to_bytes();
        let mut i: usize = 0;
        while i < 16
            invariant
                i <= 16,
                base@ == spec_header_base_bytes(*self),
                buffer@ == old(buffer)@ + base@.take(i as int),
            decreases 16 - i,
        {
            buffer.push(base[i]);
            i += 1;
        }
        proof {
            assert(base@.take(16) =~= base@);
        }
        match &self.tp_header {
            Some(tp) => {
                let tp_bytes = tp.to_bytes();
                let mut j: usize = 0;
                while j < 4
                    invariant
                        j <= 4,
                        self.tp_header matches Some(t) && tp_bytes@ == spec_tp_header_bytes(t),
                        buffer@ == old(buffer)@ + spec_header_base_bytes(*self) + tp_bytes@.take(
                            j as int,
                        ),
                    decreases 4 - j,
                {
                    buffer.push(tp_bytes[j]);
                    j += 1;
                }
                proof {
                    assert(tp_bytes@.take(4) =~= tp_bytes@);
                    assert(final(buffer)@ =~= old(buffer)@ + spec_header_bytes(*self));
                }
            },
            None => {
                proof {
                    assert(final(buffer)@ =~= old(buffer)@ + spec_header_bytes(*self));
                }
            },
        }
    }

    /// Returns the encoded fixed SOME/IP header (without the TP header).
    pub fn base_to_bytes(&self) -> (r: [u8; 16])
        ensures
            r@ == spec_header_base_bytes(*self),
    {
        let (m0, m1, m2, m3) = split_be_u32(self.message_id);
        let (l0, l1, l2, l3) = split_be_u32(self.length);
        let (r0, r1, r2, r3) = split_be_u32(self.request_id);
        let message_type_byte = match &self.tp_header {
            Some(_) => self.message_type.to_raw() | crate::SOMEIP_HEADER_MESSAGE_TYPE_TP_FLAG,
            None => self.message_type.to_raw(),
        };
        let result = [
            m0,
            m1,
            m2,
            m3,
            l0,
            l1,
            l2,
            l3,
            r0,
            r1,
            r2,
            r3,
            crate::SOMEIP_PROTOCOL_VERSION,
            self.interface_version,
            message_type_byte,
            self.return_code,
        ];
        proof {
            assert(result@ =~= spec_header_base_bytes(*self));
        }
        result
    }

    /// Parses the 16 bytes of a fixed SOME/IP header.
    ///
    /// On success returns the decoded header (with `tp_header` set to
    /// `None`) together with a flag saying whether the TP flag is set, in
    /// which case the four TP header bytes follow on the wire; parse them
    /// with [`TpHeader::read_from_slice`] and store the result in the
    /// header's `tp_header` field. Validation rejects a length below 8, a
    /// protocol version other than 1 and an unknown message type; the error
    /// is always a `Content` error.
    pub fn read(header_bytes: &[u8; 16]) -> (r: Result<
        (SomeipHeader, bool),
        err::SomeipHeaderReadError,
    >)
        ensures
            r matches Ok(p) ==> spec_parse_header_base(header_bytes@) == Ok::<
                _,
                err::SomeipHeaderError,
            >(p),
            r matches Err(e) ==> (e matches err::SomeipHeaderReadError::Content(c)
                && spec_parse_header_base(header_bytes@) == Err::<(SomeipHeader, bool), _>(c)),
    {
        let length = read_be_u32(header_bytes[4], header_bytes[5], header_bytes[6], header_bytes[7]);
        if length < crate::SOMEIP_LEN_OFFSET_TO_PAYLOAD {
            return Err(err::SomeipHeaderReadError::Content(
                err::SomeipHeaderError::LengthFieldTooSmall(length),
            ));
        }
        let protocol_version = header_bytes[12];
        if crate::SOMEIP_PROTOCOL_VERSION != protocol_version {
            return Err(err::SomeipHeaderReadError::Content(
                err::SomeipHeaderError::UnsupportedProtocolVersion(protocol_version),
            ));
        }
        let message_type_raw = header_bytes[14];
        let message_type = match MessageType::from_raw(message_type_raw) {
            Some(mt) => mt,
            None => {
                return Err(err::SomeipHeaderReadError::Content(
                    err::SomeipHeaderError::UnknownMessageType(message_type_raw),
                ));
            },
        };
        Ok(
            (
                SomeipHeader {
                    message_id: read_be_u32(
                        header_bytes[0],
                        header_bytes[1],
                        header_bytes[2],
                        header_bytes[3],
                    ),
                    length,
                    request_id: read_be_u32(
                        header_bytes[8],
                        header_bytes[9],
                        header_bytes[10],
                        header_bytes[11],
                    ),
                    interface_version: header_bytes[13],
                    message_type,
                    return_code: header_bytes[15],
                    tp_header: None,
                },
                0 != message_type_raw & crate::SOMEIP_HEADER_MESSAGE_TYPE_TP_FLAG,
            ),
        )
    }
}

impl Default for SomeipHeader {
    /// A request header with all ids zero and the minimum length of 8.
    fn default() -> (r: SomeipHeader)
        ensures
            r == (SomeipHeader {
                message_id: 0u32,
                length: 8u32,
                request_id: 0u32,
                interface_version: 0u8,
                message_type: MessageType::Request,
                return_code: 0u8,
                tp_header: None,
            }),
    {
        SomeipHeader {
            message_id: 0,
            length: crate::SOMEIP_LEN_OFFSET_TO_PAYLOAD,
            request_id: 0,
            interface_version: 0,
            message_type: MessageType::Request,
            return_code: 0,
            tp_header: None,
        }
    }
}

/// The raw message type byte of an encoded header decodes back to the
/// header's message type, and its TP flag mirrors the presence of the TP
/// header.
proof fn lemma_message_type_byte(h: SomeipHeader)
    ensures
        spec_message_type_of_raw(spec_message_type_byte(h)) == Some(h.message_type),
        ((spec_message_type_byte(h) & 0x20) != 0) == (h.tp_header is Some),
{
    crate::message_type::lemma_message_type_raw_roundtrip(h.message_type);
    let raw = spec_message_type_raw(h.message_type);
    assert((raw == 0x0 || raw == 0x1 || raw == 0x2 || raw == 0x80 || raw == 0x81) ==> ((raw & 0x20)
        == 0 && ((raw | 0x20) & 0x20) != 0)) by (bit_vector);
}

/// Reading back the bytes a header was written as yields the header again:
/// the fixed part parses to the header (with the TP flag mirroring the TP
/// header's presence), and the TP bytes parse to the TP header.
pub proof fn lemma_header_roundtrip(h: SomeipHeader)
    requires
        h.length >= 8,
        h.tp_header matches Some(tp) ==> tp.spec_offset() % 16 == 0,
    ensures
        spec_parse_header_base(spec_header_base_bytes(h)) == Ok::<_, err::SomeipHeaderError>(
            (SomeipHeader { tp_header: None, ..h }, h.tp_header is Some),
        ),
        spec_header_bytes(h).take(16) == spec_header_base_bytes(h),
        h.tp_header matches Some(tp) ==> spec_parse_tp_header(spec_header_bytes(h).skip(16)) == tp,
{
    let b = spec_header_base_bytes(h);
    lemma_be32_roundtrip(h.message_id, 0, 0, 0, 0);
    lemma_be32_roundtrip(h.length, 0, 0, 0, 0);
    lemma_be32_roundtrip(h.request_id, 0, 0, 0, 0);
    lemma_message_type_byte(h);
    assert(spec_parse_header_base(b) == Ok::<_, err::SomeipHeaderError>(
        (SomeipHeader { tp_header: None, ..h }, h.tp_header is Some),
    ));
    match h.tp_header {
        Some(tp) => {
            crate::tp_header::lemma_tp_header_roundtrip(tp);
            assert(spec_header_bytes(h).take(16) =~= b);
            assert(spec_header_bytes(h).skip(16) =~= spec_tp_header_bytes(tp));
        },
        None => {
            assert(spec_header_bytes(h).take(16) =~= b);
        },
    }
}

} // verus!
