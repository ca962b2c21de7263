use someip_parse::err::{LenError, LenSource, Layer, SomeipHeaderError, SomeipSliceError};
use someip_parse::{MessageType, SomeipHeader, SomeipMsgSlice, TpHeader};

fn message_bytes(header: &SomeipHeader, payload: &[u8]) -> Vec<u8> {
    let mut buffer = Vec::new();
    header.write_raw(&mut buffer);
    buffer.extend_from_slice(payload);
    buffer
}

#[test]
fn someip_msg_slice_debug_write() {
    let buffer = message_bytes(&SomeipHeader::default(), &[]);
    let slice = SomeipMsgSlice::from_slice(&buffer).unwrap();
    let _ = format!("{:?}", slice);
}

#[test]
fn from_slice_accessors() {
    let header = SomeipHeader {
        message_id: 0x1234_8234,
        length: 8 + 4,
        request_id: 0x0506_0708,
        interface_version: 9,
        message_type: MessageType::Error,
        return_code: 0x0a,
        tp_header: None,
    };
    let buffer = message_bytes(&header, &[1, 2, 3, 4]);
    let slice = SomeipMsgSlice::from_slice(&buffer).unwrap();
    assert_eq!(0x1234_8234, slice.message_id());
    assert_eq!(0x1234, slice.service_id());
    assert!(slice.is_event());
    assert_eq!(0x8234, slice.event_or_method_id());
    assert_eq!(Some(0x0234), slice.event_id());
    assert_eq!(None, slice.method_id());
    assert_eq!(12, slice.length());
    assert_eq!(0x0506_0708, slice.request_id());
    assert_eq!(1, slice.protocol_version());
    assert_eq!(9, slice.interface_version());
    assert_eq!(MessageType::Error, slice.message_type());
    assert_eq!(0x81, slice.message_type_raw());
    assert!(!slice.is_tp());
    assert_eq!(0x0a, slice.return_code());
    assert_eq!(&[1, 2, 3, 4], slice.payload());
    assert_eq!(None, slice.tp_header());
    assert!(!slice.is_someip_sd());
    assert_eq!(&buffer[..], slice.slice());
    assert_eq!(header, slice.to_header());
}

#[test]
fn from_slice_tp_message() {
    let tp = TpHeader::with_offset(48, true).unwrap();
    let header = SomeipHeader {
        message_id: 0xffff_8100,
        length: 8 + 4 + 2,
        request_id: 1,
        interface_version: 1,
        message_type: MessageType::Notification,
        return_code: 0,
        tp_header: Some(tp.clone()),
    };
    let buffer = message_bytes(&header, &[0xaa, 0xbb]);
    let slice = SomeipMsgSlice::from_slice(&buffer).unwrap();
    assert!(slice.is_tp());
    assert_eq!(0x22, slice.message_type_raw());
    assert_eq!(MessageType::Notification, slice.message_type());
    assert_eq!(Some(tp), slice.tp_header());
    assert_eq!(&[0xaa, 0xbb], slice.payload());
    assert!(slice.is_someip_sd());
    assert_eq!(header, slice.to_header());
}

#[test]
fn from_slice_too_short_for_header() {
    let buffer = [0u8; 15];
    assert_eq!(
        SomeipMsgSlice::from_slice(&buffer),
        Err(SomeipSliceError::Len(LenError {
            required_len: 16,
            len: 15,
            len_source: LenSource::Slice,
            layer: Layer::SomeipHeader,
        }))
    );
}

#[test]
fn from_slice_too_short_for_length_field() {
    let header = SomeipHeader {
        length: 8 + 10,
        ..SomeipHeader::default()
    };
    let buffer = message_bytes(&header, &[0; 9]);
    assert_eq!(
        SomeipMsgSlice::from_slice(&buffer),
        Err(SomeipSliceError::Len(LenError {
            required_len: 26,
            len: 25,
            len_source: LenSource::SomeipHeaderLength,
            layer: Layer::SomeipPayload,
        }))
    );
}

#[test]
fn from_slice_unknown_message_type() {
    let mut buffer = message_bytes(&SomeipHeader::default(), &[]);
    buffer[14] = 0x13;
    assert_eq!(
        SomeipMsgSlice::from_slice(&buffer),
        Err(SomeipSliceError::Content(
            SomeipHeaderError::UnknownMessageType(0x13)
        ))
    );
}

#[test]
fn from_slice_tp_needs_length_of_12() {
    // a TP flag with a length of only 8 leaves no room for the TP header
    let mut buffer = message_bytes(&SomeipHeader::default(), &[]);
    buffer[14] = 0x20;
    assert_eq!(
        SomeipMsgSlice::from_slice(&buffer),
        Err(SomeipSliceError::Content(
            SomeipHeaderError::LengthFieldTooSmall(8)
        ))
    );
}

#[test]
fn from_slice_trims_to_message_length() {
    // extra bytes behind the message are not part of the view
    let header = SomeipHeader {
        length: 8 + 2,
        ..SomeipHeader::default()
    };
    let mut buffer = message_bytes(&header, &[7, 8]);
    buffer.extend_from_slice(&[9, 10, 11]);
    let slice = SomeipMsgSlice::from_slice(&buffer).unwrap();
    assert_eq!(18, slice.slice().len());
    assert_eq!(&[7, 8], slice.payload());
}
