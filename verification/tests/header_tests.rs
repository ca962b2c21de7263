use std::cmp::Ordering;
use std::collections::hash_map::DefaultHasher;
use std::hash::{Hash, Hasher};

use someip_parse::err::{LenError, LenSource, Layer, ReadError, SomeipHeaderError, SomeipSliceError};
use someip_parse::SliceIterator;
use someip_parse::{
    MessageType, ReturnCode, SomeipHeader, SomeipMsgSlice, SomeipMsgsIterator, TpHeader,
};

fn base_bytes_of(header: &SomeipHeader) -> [u8; 16] {
    header.base_to_bytes()
}

fn first_16(buffer: &[u8]) -> [u8; 16] {
    let mut arr = [0u8; 16];
    arr.copy_from_slice(&buffer[..16]);
    arr
}

#[test]
fn someip_header_default() {
    let header: SomeipHeader = Default::default();
    assert_eq!(0, header.message_id);
    assert_eq!(8, header.length);
    assert_eq!(0, header.request_id);
    assert_eq!(0, header.interface_version);
    assert_eq!(MessageType::Request, header.message_type);
    assert_eq!(None, header.tp_header);
    assert_eq!(0, header.return_code);
}

#[test]
fn read_unsupported_protocol_version() {
    let mut buffer = base_bytes_of(&SomeipHeader::default());
    // set the protocol to an unsupported version
    buffer[12] = 0;
    let result = SomeipHeader::read(&buffer);
    assert_eq!(
        result.unwrap_err().content_error(),
        Some(SomeipHeaderError::UnsupportedProtocolVersion(0))
    );
    assert_eq!(
        SomeipMsgSlice::from_slice(&buffer[..]),
        Err(SomeipSliceError::Content(
            SomeipHeaderError::UnsupportedProtocolVersion(0)
        ))
    );
}

#[test]
fn read_too_small_length_field() {
    // 0
    {
        let mut buffer = base_bytes_of(&SomeipHeader::default());
        buffer[4] = 0;
        buffer[5] = 0;
        buffer[6] = 0;
        buffer[7] = 0;
        let result = SomeipHeader::read(&buffer);
        assert_eq!(
            result.unwrap_err().content_error(),
            Some(SomeipHeaderError::LengthFieldTooSmall(0))
        );
        assert_eq!(
            SomeipMsgSlice::from_slice(&buffer[..]),
            Err(SomeipSliceError::Content(
                SomeipHeaderError::LengthFieldTooSmall(0)
            ))
        );
    }
    // one below the minimum of 8
    {
        let mut buffer = base_bytes_of(&SomeipHeader::default());
        let too_small: u32 = 7;
        let length_be = too_small.to_be_bytes();
        buffer[4] = length_be[0];
        buffer[5] = length_be[1];
        buffer[6] = length_be[2];
        buffer[7] = length_be[3];
        let result = SomeipHeader::read(&buffer);
        assert_eq!(
            result.unwrap_err().content_error(),
            Some(SomeipHeaderError::LengthFieldTooSmall(too_small))
        );
        assert_eq!(
            SomeipMsgSlice::from_slice(&buffer[..]),
            Err(SomeipSliceError::Content(
                SomeipHeaderError::LengthFieldTooSmall(too_small)
            ))
        );
    }
}

#[test]
fn return_code_debug_clone_eq() {
    let return_code = ReturnCode::Okay;
    let _ = format!("{:?}", return_code);
    assert_eq!(return_code, return_code.clone());
    assert_eq!(return_code.cmp(&return_code), Ordering::Equal);
    assert_eq!(
        return_code.partial_cmp(&return_code),
        Some(Ordering::Equal)
    );
    let h1 = {
        let mut h = DefaultHasher::new();
        return_code.hash(&mut h);
        h.finish()
    };
    let h2 = {
        let mut h = DefaultHasher::new();
        return_code.clone().hash(&mut h);
        h.finish()
    };
    assert_eq!(h1, h2);
}

#[test]
fn return_code_into_u8() {
    let values = [
        (ReturnCode::Okay, 0x00u8),
        (ReturnCode::NotOk, 0x01),
        (ReturnCode::UnknownService, 0x02),
        (ReturnCode::UnknownMethod, 0x03),
        (ReturnCode::NotReady, 0x04),
        (ReturnCode::NotReachable, 0x05),
        (ReturnCode::Timeout, 0x06),
        (ReturnCode::WrongProtocolVersion, 0x07),
        (ReturnCode::WrongInterfaceVersion, 0x08),
        (ReturnCode::MalformedMessage, 0x09),
        (ReturnCode::WrongMessageType, 0x0a),
        (ReturnCode::Generic(0x0b), 0x0b),
        (ReturnCode::InterfaceError(0x20), 0x20),
    ];
    for (input, expected) in values.iter() {
        let result: u8 = (*input).into();
        assert_eq!(*expected, result);
    }
}

#[test]
fn header_id_setters() {
    let mut header = SomeipHeader::default();

    header.set_service_id(0x1234);
    assert_eq!(0x1234, header.service_id());

    header.set_event_id(0x7001);
    assert_eq!(0xf001, header.event_or_method_id());
    assert!(header.is_event());
    assert_eq!(Some(0x7001), header.event_id());
    assert_eq!(None, header.method_id());

    header.set_method_id(0x0203);
    assert_eq!(0x0203, header.event_or_method_id());
    assert!(!header.is_event());
    assert_eq!(Some(0x0203), header.method_id());
    assert_eq!(None, header.event_id());

    header.set_method_or_event_id(0x8234);
    assert_eq!(0x8234, header.event_or_method_id());
    assert!(header.is_event());

    header.message_id = 0xffff_8100;
    assert!(header.is_someip_sd());
}

#[test]
fn new_sd_header_fields() {
    let header = SomeipHeader::new_sd_header(20, 7, None);
    assert_eq!(0xffff_8100, header.message_id);
    assert!(header.is_someip_sd());
    assert_eq!(20, header.length);
    assert_eq!(7, header.request_id);
    assert_eq!(1, header.interface_version);
    assert_eq!(MessageType::Notification, header.message_type);
    assert_eq!(0, header.return_code);
    assert_eq!(None, header.tp_header);
}

#[test]
fn header_write_read_roundtrip() {
    let header = SomeipHeader {
        message_id: 0xdead_beef,
        length: 8 + 4 + 5,
        request_id: 0x0102_0304,
        interface_version: 3,
        message_type: MessageType::Response,
        return_code: 0x0a,
        tp_header: Some(TpHeader::with_offset(32, true).unwrap()),
    };
    let mut buffer = Vec::new();
    header.write_raw(&mut buffer);
    assert_eq!(buffer.len(), 20);

    let (decoded, tp_follows) = SomeipHeader::read(&first_16(&buffer)).unwrap();
    assert!(tp_follows);
    let tp = TpHeader::read_from_slice(&buffer[16..]).unwrap();
    assert_eq!(32, tp.offset());
    assert!(tp.more_segment());
    let full = SomeipHeader {
        tp_header: Some(tp),
        ..decoded
    };
    assert_eq!(header, full);
}

// Scenario: a minimal notification message is written, has the expected
// wire bytes, and the iterator yields exactly that message.
#[test]
fn minimal_notification_scenario() {
    let header = SomeipHeader {
        message_id: 0x1234_8234,
        length: 12,
        request_id: 1,
        interface_version: 1,
        message_type: MessageType::Notification,
        return_code: 0,
        tp_header: None,
    };
    let mut buffer = Vec::new();
    header.write_raw(&mut buffer);
    buffer.extend_from_slice(&[0x01, 0x02, 0x03, 0x04]);

    let expected_wire: [u8; 20] = [
        0x12, 0x34, 0x82, 0x34, 0x00, 0x00, 0x00, 0x0c, 0x00, 0x00, 0x00, 0x01, 0x01, 0x01, 0x02,
        0x00, 0x01, 0x02, 0x03, 0x04,
    ];
    assert_eq!(&buffer[..], &expected_wire[..]);

    let mut iterator = SomeipMsgsIterator::new(&buffer);
    let message = iterator.next().unwrap().unwrap();
    assert_eq!(0x1234, message.service_id());
    assert!(message.is_event());
    assert_eq!(0x8234, message.event_or_method_id());
    assert_eq!(&[0x01, 0x02, 0x03, 0x04], message.payload());
    assert_eq!(header, message.to_header());
    assert!(iterator.next().is_none());
}

// Scenario: the same bytes truncated by one byte make the iterator yield
// exactly one length error and then end for good.
#[test]
fn iterator_stops_on_error_scenario() {
    let header = SomeipHeader {
        message_id: 0x1234_8234,
        length: 12,
        request_id: 1,
        interface_version: 1,
        message_type: MessageType::Notification,
        return_code: 0,
        tp_header: None,
    };
    let mut buffer = Vec::new();
    header.write_raw(&mut buffer);
    buffer.extend_from_slice(&[0x01, 0x02, 0x03, 0x04]);

    let len = buffer.len();
    let mut iterator = SomeipMsgsIterator::new(&buffer[..len - 1]);
    assert_eq!(
        iterator.next(),
        Some(Err(SomeipSliceError::Len(LenError {
            required_len: len,
            len: len - 1,
            len_source: LenSource::SomeipHeaderLength,
            layer: Layer::SomeipPayload,
        })))
    );
    assert_eq!(iterator.next(), None);
    assert_eq!(iterator.next(), None);
}

// The plain-error iterator behaves the same way, reporting the error as an
// unexpected end of slice.
#[test]
fn slice_iterator_roundtrip_and_error() {
    let header = SomeipHeader {
        message_id: 0x0a0b_0c0d,
        length: 10,
        request_id: 99,
        interface_version: 2,
        message_type: MessageType::Request,
        return_code: 0,
        tp_header: None,
    };
    let mut buffer = Vec::new();
    header.write_raw(&mut buffer);
    buffer.extend_from_slice(&[0xaa, 0xbb]);

    let mut iterator = SliceIterator::new(&buffer);
    let message = iterator.next().unwrap().unwrap();
    assert_eq!(header, message.to_header());
    assert_eq!(&[0xaa, 0xbb], message.payload());
    assert!(iterator.next().is_none());

    let len = buffer.len();
    let mut truncated = SliceIterator::new(&buffer[..len - 1]);
    assert!(matches!(
        truncated.next(),
        Some(Err(ReadError::UnexpectedEndOfSlice(_)))
    ));
    assert!(truncated.next().is_none());
}

// Several messages concatenated in one payload come out one after the
// other, in wire order.
#[test]
fn iterator_over_concatenated_messages() {
    let first = SomeipHeader {
        message_id: 0x0001_0002,
        length: 8 + 3,
        request_id: 1,
        interface_version: 1,
        message_type: MessageType::Request,
        return_code: 0,
        tp_header: None,
    };
    let second = SomeipHeader {
        message_id: 0x0003_8004,
        length: 8,
        request_id: 2,
        interface_version: 2,
        message_type: MessageType::Response,
        return_code: 1,
        tp_header: None,
    };
    let mut buffer = Vec::new();
    first.write_raw(&mut buffer);
    buffer.extend_from_slice(&[0xa1, 0xa2, 0xa3]);
    second.write_raw(&mut buffer);

    let mut iterator = SomeipMsgsIterator::new(&buffer);
    let message = iterator.next().unwrap().unwrap();
    assert_eq!(first, message.to_header());
    assert_eq!(&[0xa1, 0xa2, 0xa3], message.payload());
    let message = iterator.next().unwrap().unwrap();
    assert_eq!(second, message.to_header());
    assert_eq!(0, message.payload().len());
    assert!(iterator.next().is_none());
}
