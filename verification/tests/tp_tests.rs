use std::cmp::Ordering;
use std::collections::hash_map::DefaultHasher;
use std::hash::{Hash, Hasher};

use someip_parse::err::TpBufConfigError::MaxPayloadLenTooBig;
use someip_parse::err::TpReassembleError::{ConflictingEnd, SegmentTooBig, UnalignedTpPayloadLen};
use someip_parse::err::{SdReadError, SliceWriteSpaceError, Layer, TpReassembleError, ValueError};
use someip_parse::{
    MessageType, SectionRange, SomeipHeader, SomeipMsgSlice, TpBuf, TpBufConfig, TpHeader, TpRange,
};

fn hash_of<T: Hash>(value: &T) -> u64 {
    let mut hasher = DefaultHasher::new();
    value.hash(&mut hasher);
    hasher.finish()
}

#[test]
fn section_range_is_value_connected() {
    // connectivity is observable through merge with a point-sized range
    let s = SectionRange { start: 5, end: 9 };
    let point = |v: u32| SectionRange { start: v, end: v };
    assert_eq!(None, s.merge(point(3)));
    assert_eq!(None, s.merge(point(4)));
    assert!(s.merge(point(5)).is_some());
    assert!(s.merge(point(6)).is_some());
    assert!(s.merge(point(7)).is_some());
    assert!(s.merge(point(8)).is_some());
    assert!(s.merge(point(9)).is_some());
    assert_eq!(None, s.merge(point(10)));
    assert_eq!(None, s.merge(point(11)));
}

#[test]
fn section_range_merge() {
    let tests = [
        ((0, 1), (1, 2), Some((0, 2))),
        ((0, 1), (2, 3), None),
        ((3, 7), (1, 2), None),
        ((3, 7), (1, 3), Some((1, 7))),
        ((3, 7), (1, 4), Some((1, 7))),
        ((3, 7), (1, 5), Some((1, 7))),
        ((3, 7), (1, 6), Some((1, 7))),
        ((3, 7), (1, 7), Some((1, 7))),
        ((3, 7), (1, 8), Some((1, 8))),
    ];
    for t in tests {
        let a = SectionRange {
            start: t.0 .0,
            end: t.0 .1,
        };
        let b = SectionRange {
            start: t.1 .0,
            end: t.1 .1,
        };
        let expected = t.2.map(|v| SectionRange {
            start: v.0,
            end: v.1,
        });
        assert_eq!(a.merge(b), expected);
        assert_eq!(b.merge(a), expected);
    }
}

#[test]
fn tp_range_debug_clone_eq() {
    let section = TpRange { start: 1, end: 2 };
    let _ = format!("{:?}", section);
    assert_eq!(section, section.clone());
    assert_eq!(section.cmp(&section), Ordering::Equal);
    assert_eq!(section.partial_cmp(&section), Some(Ordering::Equal));
    assert_eq!(hash_of(&section), hash_of(&section.clone()));
}

#[test]
fn tp_range_is_value_connected() {
    let s = TpRange { start: 5, end: 9 };
    let point = |v: u32| TpRange { start: v, end: v };
    assert_eq!(None, s.merge(point(3)));
    assert_eq!(None, s.merge(point(4)));
    assert!(s.merge(point(5)).is_some());
    assert!(s.merge(point(9)).is_some());
    assert_eq!(None, s.merge(point(10)));
    assert_eq!(None, s.merge(point(11)));
}

#[test]
fn tp_range_merge() {
    let tests = [
        ((0, 1), (1, 2), Some((0, 2))),
        ((0, 1), (2, 3), None),
        ((3, 7), (1, 2), None),
        ((3, 7), (1, 3), Some((1, 7))),
        ((3, 7), (1, 8), Some((1, 8))),
    ];
    for t in tests {
        let a = TpRange {
            start: t.0 .0,
            end: t.0 .1,
        };
        let b = TpRange {
            start: t.1 .0,
            end: t.1 .1,
        };
        let expected = t.2.map(|v| TpRange {
            start: v.0,
            end: v.1,
        });
        assert_eq!(a.merge(b), expected);
        assert_eq!(b.merge(a), expected);
    }
}

#[test]
fn tp_header_new_and_offsets() {
    let header = TpHeader::new(true);
    assert_eq!(0, header.offset());
    assert!(header.more_segment());

    // every offset that is a multiple of 16 is accepted, any other offset
    // fails deterministically
    for offset in [0u32, 16, 32, 4096, 0xffff_fff0] {
        let ok = TpHeader::with_offset(offset, false).unwrap();
        assert_eq!(offset, ok.offset());
        assert!(!ok.more_segment());
    }
    for offset in [1u32, 15, 17, 31, 4095] {
        assert_eq!(
            Err(ValueError::TpOffsetNotMultipleOf16(offset)),
            TpHeader::with_offset(offset, false)
        );
    }
}

#[test]
fn tp_header_set_offset() {
    let mut header: TpHeader = Default::default();
    assert_eq!(Ok(()), header.set_offset(32));
    assert_eq!(32, header.offset());
    assert_eq!(
        Err(ValueError::TpOffsetNotMultipleOf16(31)),
        header.set_offset(31)
    );
    assert_eq!(32, header.offset());
}

#[test]
fn tp_header_write_and_read_to_slice() {
    let header = TpHeader::with_offset(4096, true).unwrap();
    // non error case
    {
        let mut buffer = [0u8; 4];
        header.write_to_slice(&mut buffer).unwrap();
        let result = TpHeader::read_from_slice(&buffer).unwrap();
        assert_eq!(header, result);
    }
    // errors
    {
        let mut buffer = [0u8; 4];
        assert_eq!(
            header.write_to_slice(&mut buffer[..3]),
            Err(SliceWriteSpaceError {
                required_len: 4,
                len: 3,
                layer: Layer::SomeipTpHeader,
            })
        );
        assert!(matches!(
            TpHeader::read_from_slice(&buffer[..3]),
            Err(SdReadError::UnexpectedEndOfSlice(_))
        ));
    }
}

#[test]
fn tp_header_to_bytes() {
    let header = TpHeader::with_offset(0x120, true).unwrap();
    assert_eq!([0x00, 0x00, 0x01, 0x21], header.to_bytes());
    let last = TpHeader::with_offset(0x120, false).unwrap();
    assert_eq!([0x00, 0x00, 0x01, 0x20], last.to_bytes());
}

#[test]
fn tp_buf_config_debug_clone_eq() {
    let config = TpBufConfig::new(1024, 1024).unwrap();
    let _ = format!("{:?}", config);
    assert_eq!(config, config.clone());
    assert_eq!(config.cmp(&config), Ordering::Equal);
    assert_eq!(config.partial_cmp(&config), Some(Ordering::Equal));
    assert_eq!(hash_of(&config), hash_of(&config.clone()));
}

#[test]
fn tp_buf_config_default() {
    let actual: TpBufConfig = Default::default();
    assert_eq!(0x40000, actual.tp_buffer_start_payload_alloc_len);
    assert_eq!(TpBufConfig::MAX_TP_PAYLOAD_LEN, actual.tp_max_payload_len());
}

#[test]
fn tp_buf_config_new() {
    {
        let actual = TpBufConfig::new(1024, TpBufConfig::MAX_TP_PAYLOAD_LEN).unwrap();
        assert_eq!(actual.tp_buffer_start_payload_alloc_len, 1024);
        assert_eq!(actual.tp_max_payload_len(), TpBufConfig::MAX_TP_PAYLOAD_LEN);
    }
    assert_eq!(
        TpBufConfig::new(1024, TpBufConfig::MAX_TP_PAYLOAD_LEN + 1),
        Err(MaxPayloadLenTooBig {
            allowed_max: TpBufConfig::MAX_TP_PAYLOAD_LEN,
            actual: TpBufConfig::MAX_TP_PAYLOAD_LEN + 1,
        })
    );
}

#[test]
fn tp_buf_debug_clone_eq() {
    let buf = TpBuf::new(Default::default());
    let _ = format!("{:?}", buf);
    assert_eq!(buf, buf.clone());
    assert_eq!(buf.cmp(&buf), Ordering::Equal);
    assert_eq!(buf.partial_cmp(&buf), Some(Ordering::Equal));
    assert_eq!(hash_of(&buf), hash_of(&buf.clone()));
}

struct TestPacket {
    offset: u32,
    more_segments: bool,
    payload: Vec<u8>,
}

impl TestPacket {
    fn new(offset: u32, more_segments: bool, payload: &[u8]) -> TestPacket {
        TestPacket {
            offset,
            more_segments,
            payload: payload.iter().copied().collect(),
        }
    }

    fn send_to_buffer(&self, buffer: &mut TpBuf) -> Result<(), TpReassembleError> {
        let packet = self.to_vec();
        let slice = SomeipMsgSlice::from_slice(&packet).unwrap();
        buffer.consume_tp(slice)
    }

    fn to_vec(&self) -> Vec<u8> {
        let header = SomeipHeader {
            message_id: 1234,
            length: 8 + 4 + self.payload.len() as u32,
            request_id: 23,
            interface_version: 1,
            message_type: MessageType::Notification,
            return_code: 0,
            tp_header: {
                let mut tp = TpHeader::new(self.more_segments);
                tp.set_offset(self.offset).unwrap();
                Some(tp)
            },
        };
        let mut result = Vec::with_capacity(20 + self.payload.len());
        header.write_raw(&mut result);
        result.extend_from_slice(&self.payload);
        result
    }

    fn result_header(payload_length: u32) -> SomeipHeader {
        SomeipHeader {
            message_id: 1234,
            length: payload_length + 8,
            request_id: 23,
            interface_version: 1,
            message_type: MessageType::Notification,
            return_code: 0,
            tp_header: None,
        }
    }
}

/// Returns a u8 vec counting up from "start" until len is reached
/// (truncating bits greater than u8).
fn sequence(start: usize, len: usize) -> Vec<u8> {
    let mut result = Vec::with_capacity(len);
    for i in start..start + len {
        result.push((i & 0xff) as u8);
    }
    result
}

#[test]
fn tp_buf_new() {
    let actual = TpBuf::new(TpBufConfig::new(1024, 2048).unwrap());
    assert!(actual.data().is_empty());
    assert!(actual.sections().is_empty());
    assert!(actual.end().is_none());
    assert_eq!(1024, actual.config().tp_buffer_start_payload_alloc_len);
    assert_eq!(2048, actual.config().tp_max_payload_len());
}

#[test]
fn clear() {
    let mut actual = TpBuf::new(TpBufConfig::new(1024, 2048).unwrap());

    TestPacket::new(0, true, &sequence(0, 16))
        .send_to_buffer(&mut actual)
        .unwrap();
    assert!(!actual.data().is_empty());
    assert!(!actual.sections().is_empty());

    actual.clear();

    assert!(actual.data().is_empty());
    assert!(actual.sections().is_empty());
    assert!(actual.end().is_none());
    assert_eq!(1024, actual.config().tp_buffer_start_payload_alloc_len);
    assert_eq!(2048, actual.config().tp_max_payload_len());
}

#[test]
fn tp_buf_consume() {
    // normal reconstruction
    {
        let mut buffer = TpBuf::new(TpBufConfig::new(1024, 2048).unwrap());
        let actions = [
            (false, TestPacket::new(0, true, &sequence(0, 16))),
            (false, TestPacket::new(16, true, &sequence(16, 32))),
            (true, TestPacket::new(48, false, &sequence(48, 16))),
        ];
        for a in actions {
            a.1.send_to_buffer(&mut buffer).unwrap();
            assert_eq!(a.0, buffer.is_complete());
        }
        let result = buffer.try_finalize().unwrap();
        assert_eq!(result.to_header(), TestPacket::result_header(16 * 4));
        assert_eq!(result.payload(), &sequence(0, 16 * 4));
    }

    // overlapping reconstruction
    {
        let mut buffer = TpBuf::new(TpBufConfig::new(1024, 2048).unwrap());
        let actions = [
            (false, TestPacket::new(0, true, &sequence(0, 16))),
            // will be overwritten
            (false, TestPacket::new(32, true, &sequence(0, 16))),
            // overwrites
            (false, TestPacket::new(32, false, &sequence(32, 16))),
            // completes
            (true, TestPacket::new(16, true, &sequence(16, 16))),
        ];
        for a in actions {
            a.1.send_to_buffer(&mut buffer).unwrap();
            assert_eq!(a.0, buffer.is_complete());
        }
        let result = buffer.try_finalize().unwrap();
        assert_eq!(result.to_header(), TestPacket::result_header(16 * 3));
        assert_eq!(result.payload(), &sequence(0, 16 * 3));
    }

    // reverse order
    {
        let mut buffer = TpBuf::new(TpBufConfig::new(1024, 2048).unwrap());
        let actions = [
            (false, TestPacket::new(48, false, &sequence(48, 16))),
            (false, TestPacket::new(16, true, &sequence(16, 32))),
            (true, TestPacket::new(0, true, &sequence(0, 16))),
        ];
        for a in actions {
            a.1.send_to_buffer(&mut buffer).unwrap();
            assert_eq!(a.0, buffer.is_complete());
        }
        let result = buffer.try_finalize().unwrap();
        assert_eq!(result.to_header(), TestPacket::result_header(16 * 4));
        assert_eq!(result.payload(), &sequence(0, 16 * 4));
    }

    // error: tp packet bigger than max (offset only)
    {
        let mut buffer = TpBuf::new(TpBufConfig::new(32, 32).unwrap());
        assert_eq!(
            SegmentTooBig {
                offset: 32 + 16,
                payload_len: 16,
                max: 32
            },
            TestPacket::new(32 + 16, true, &sequence(0, 16))
                .send_to_buffer(&mut buffer)
                .unwrap_err()
        );
    }

    // error: tp packet bigger than max (offset + payload)
    {
        let mut buffer = TpBuf::new(TpBufConfig::new(32, 32).unwrap());
        assert_eq!(
            SegmentTooBig {
                offset: 16,
                payload_len: 32,
                max: 32
            },
            TestPacket::new(16, true, &sequence(0, 32))
                .send_to_buffer(&mut buffer)
                .unwrap_err()
        );
    }

    // packets that fill exactly to the max work
    {
        let mut buffer = TpBuf::new(TpBufConfig::new(32, 32).unwrap());
        let test_packet = TestPacket::new(16, false, &sequence(0, 16));
        let packet = test_packet.to_vec();
        let slice = SomeipMsgSlice::from_slice(&packet).unwrap();
        assert_eq!(Ok(()), buffer.consume_tp(slice));
    }

    // non-final packets with unaligned payloads are rejected
    for bad_offset in 1..16 {
        let mut buffer = TpBuf::new(TpBufConfig::new(16 * 100, 16 * 100).unwrap());
        let test_packet = TestPacket::new(48, true, &sequence(0, 32 + bad_offset));
        let packet = test_packet.to_vec();
        let slice = SomeipMsgSlice::from_slice(&packet).unwrap();
        assert_eq!(
            UnalignedTpPayloadLen {
                offset: 48,
                payload_len: 32 + bad_offset
            },
            buffer.consume_tp(slice).unwrap_err()
        );
    }

    // conflicting ends trigger errors
    {
        let mut buffer = TpBuf::new(TpBufConfig::new(1024, 2048).unwrap());

        // set an end (no more segments)
        TestPacket::new(32, false, &sequence(32, 16))
            .send_to_buffer(&mut buffer)
            .unwrap();

        // a non-final packet going beyond the end triggers an error
        assert_eq!(
            ConflictingEnd {
                previous_end: 32 + 16,
                conflicting_end: 48 + 16
            },
            TestPacket::new(48, true, &sequence(48, 16))
                .send_to_buffer(&mut buffer)
                .unwrap_err()
        );

        // a new end at an earlier position triggers an error
        assert_eq!(
            ConflictingEnd {
                previous_end: 32 + 16,
                conflicting_end: 16 + 16
            },
            TestPacket::new(16, false, &sequence(16, 16))
                .send_to_buffer(&mut buffer)
                .unwrap_err()
        );
    }
}

#[test]
fn try_finalize() {
    let mut buffer = TpBuf::new(TpBufConfig::new(1024, 2048).unwrap());

    // not ended
    assert_eq!(buffer.try_finalize(), None);
    TestPacket::new(0, true, &sequence(0, 16))
        .send_to_buffer(&mut buffer)
        .unwrap();
    assert_eq!(buffer.try_finalize(), None);

    // ended
    TestPacket::new(16, false, &sequence(16, 16))
        .send_to_buffer(&mut buffer)
        .unwrap();
    let result = buffer.try_finalize().unwrap();
    assert_eq!(result.to_header(), TestPacket::result_header(16 * 2));
    assert_eq!(result.payload(), &sequence(0, 16 * 2));
}

// A byte-identical resend fits into the already allocated bytes, so the
// buffer owes it acceptance.
#[test]
fn tp_buf_resend_accepted() {
    let mut buffer = TpBuf::new(TpBufConfig::new(1024, 2048).unwrap());
    let first = TestPacket::new(0, true, &sequence(0, 16));
    first.send_to_buffer(&mut buffer).unwrap();
    // the same segment again
    assert_eq!(Ok(()), first.send_to_buffer(&mut buffer));
    assert!(!buffer.is_complete());

    TestPacket::new(16, false, &sequence(16, 16))
        .send_to_buffer(&mut buffer)
        .unwrap();
    let result = buffer.try_finalize().unwrap();
    assert_eq!(result.payload(), &sequence(0, 32));
}
