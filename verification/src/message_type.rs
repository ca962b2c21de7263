//! Message types of a SOME/IP message.
use vstd::prelude::*;

verus! {

/// Message types of a SOME/IP message (without the TP flag, which is carried
/// separately in the raw message type byte).
#[derive(Clone, Copy, Debug, Eq, PartialEq, Structural)]
pub enum MessageType {
    Request,
    RequestNoReturn,
    Notification,
    Response,
    Error,
}

/// Raw value of a message type on the wire (without the TP flag).
pub open spec fn spec_message_type_raw(mt: MessageType) -> u8 {
    match mt {
        MessageType::Request => 0x0,
        MessageType::RequestNoReturn => 0x1,
        MessageType::Notification => 0x2,
        MessageType::Response => 0x80,
        MessageType::Error => 0x81,
    }
}

/// The message type, if any, whose raw value (with the TP flag masked out)
/// is `raw`.
pub open spec fn spec_message_type_of_raw(raw: u8) -> Option<MessageType> {
    let core = raw & 0xdf;
    if core == 0x0 {
        Some(MessageType::Request)
    } else if core == 0x1 {
        Some(MessageType::RequestNoReturn)
    } else if core == 0x2 {
        Some(MessageType::Notification)
    } else if core == 0x80 {
        Some(MessageType::Response)
    } else if core == 0x81 {
        Some(MessageType::Error)
    } else {
        None
    }
}

impl MessageType {
    /// Raw value of the message type on the wire (without the TP flag).
    pub fn to_raw(&self) -> (r: u8)
        ensures
            r == spec_message_type_raw(*self),
    {
        match self {
            MessageType::Request => 0x0,
            MessageType::RequestNoReturn => 0x1,
            MessageType::Notification => 0x2,
            MessageType::Response => 0x80,
            MessageType::Error => 0x81,
        }
    }

    /// Decodes a raw message type byte, ignoring the TP flag.
    pub fn from_raw(raw: u8) -> (r: Option<MessageType>)
        ensures
            r == spec_message_type_of_raw(raw),
    {
        let core = raw & 0xdf;
        if core == 0x0 {
            Some(MessageType::Request)
        } else if core == 0x1 {
            Some(MessageType::RequestNoReturn)
        } else if core == 0x2 {
            Some(MessageType::Notification)
        } else if core == 0x80 {
            Some(MessageType::Response)
        } else if core == 0x81 {
            Some(MessageType::Error)
        } else {
            None
        }
    }
}

/// Masking the TP flag out of an encoded message type (with or without the
/// flag set) gives the encoded message type back, so decoding inverts
/// encoding for both raw forms.
pub proof fn lemma_message_type_raw_roundtrip(mt: MessageType)
    ensures
        spec_message_type_of_raw(spec_message_type_raw(mt)) == Some(mt),
        spec_message_type_of_raw(spec_message_type_raw(mt) | 0x20) == Some(mt),
{
    let r = spec_message_type_raw(mt);
    assert((0x0u8 & 0xdf) == 0x0 && (0x1u8 & 0xdf) == 0x1 && (0x2u8 & 0xdf) == 0x2 && (0x80u8
        & 0xdf) == 0x80 && (0x81u8 & 0xdf) == 0x81) by (bit_vector);
    assert(((0x0u8 | 0x20) & 0xdf) == 0x0 && ((0x1u8 | 0x20) & 0xdf) == 0x1 && ((0x2u8 | 0x20)
        & 0xdf) == 0x2 && ((0x80u8 | 0x20) & 0xdf) == 0x80 && ((0x81u8 | 0x20) & 0xdf) == 0x81)
        by (bit_vector);
}

} // verus!
