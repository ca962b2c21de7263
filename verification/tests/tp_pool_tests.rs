use someip_parse::err::TpReassembleError::UnalignedTpPayloadLen;
use someip_parse::{MessageType, SomeipHeader, SomeipMsgSlice, TpBufConfig, TpHeader, TpPool};

struct TestPacket {
    request_id: u32,
    offset: u32,
    more_segments: bool,
    payload: Vec<u8>,
}

impl TestPacket {
    fn new(request_id: u32, offset: u32, more_segments: bool, payload: &[u8]) -> TestPacket {
        TestPacket {
            request_id,
            offset,
            more_segments,
            payload: payload.iter().copied().collect(),
        }
    }

    fn to_vec(&self) -> Vec<u8> {
        let header = SomeipHeader {
            message_id: 1234,
            length: 8 + 4 + self.payload.len() as u32,
            request_id: self.request_id,
            interface_version: 1,
            message_type: MessageType::Notification,
            return_code: 0,
            tp_header: {
                let mut tp = TpHeader::new(self.more_segments);
                tp.set_offset(self.offset).unwrap();
                Some(tp)
            },
        };
        let mut result = Vec::with_capacity(20 + self.payload.len());
        header.write_raw(&mut result);
        result.extend_from_slice(&self.payload);
        result
    }

    fn result_header(&self, payload_length: u32) -> SomeipHeader {
        SomeipHeader {
            message_id: 1234,
            length: payload_length + 8,
            request_id: self.request_id,
            interface_version: 1,
            message_type: MessageType::Notification,
            return_code: 0,
            tp_header: None,
        }
    }
}

/// Returns a u8 vec counting up from "start" until len is reached
/// (truncating bits greater than u8).
fn sequence(start: usize, len: usize) -> Vec<u8> {
    let mut result = Vec::with_capacity(len);
    for i in start..start + len {
        result.push((i & 0xff) as u8);
    }
    result
}

#[test]
fn tp_pool_debug_clone_eq() {
    let pool: TpPool<(), ()> = TpPool::new(Default::default());
    let _ = format!("{:?}", pool);
    assert_eq!(pool.buf_config(), &TpBufConfig::default());
    assert_eq!(pool, pool.clone());
}

#[test]
fn with_capacity() {
    let pool = TpPool::<(), ()>::with_capacity(Default::default(), 3);
    assert_eq!(3, pool.finished_bufs().len());
    assert_eq!(0, pool.active_bufs().len());
}

#[test]
fn reserve() {
    let mut pool = TpPool::<(), ()>::new(Default::default());
    pool.reserve(2);
    assert_eq!(2, pool.finished_bufs().len());
    pool.reserve(3);
    assert_eq!(5, pool.finished_bufs().len());
}

#[test]
fn tp_pool_consume() {
    // simple packet forwarding (without TP effect)
    {
        // build a non tp packet
        let header = SomeipHeader {
            message_id: 1234,
            length: 8 + 8,
            request_id: 234,
            interface_version: 1,
            message_type: MessageType::Notification,
            return_code: 0,
            // no tp header
            tp_header: None,
        };
        let mut result = Vec::with_capacity(16 + 8);
        header.write_raw(&mut result);
        result.extend_from_slice(&[0; 8]);

        let someip_slice = SomeipMsgSlice::from_slice(&result).unwrap();

        let mut pool: TpPool<(), ()> = TpPool::new(TpBufConfig::new(1024, 2048).unwrap());
        let consumed = pool.consume((), (), someip_slice.clone()).unwrap();
        assert_eq!(Some(someip_slice), consumed);
    }

    // normal reconstruction (without additional id)
    {
        let mut pool: TpPool<(), ()> = TpPool::new(TpBufConfig::new(1024, 2048).unwrap());

        let actions = [
            // start two streams in parallel
            (TestPacket::new(1, 0, true, &sequence(1, 16)), None, 1, 0),
            (TestPacket::new(2, 0, true, &sequence(2, 32)), None, 2, 0),
            // stream 1 ends
            (
                TestPacket::new(1, 16, false, &sequence(1 + 16, 16)),
                Some(sequence(1, 32)),
                1,
                1,
            ),
            // stream 3 which immediately ends
            (
                TestPacket::new(3, 0, false, &sequence(3, 16 * 4)),
                Some(sequence(3, 16 * 4)),
                1,
                1,
            ),
            // end stream 2
            (
                TestPacket::new(2, 32, true, &sequence(32 + 2, 16 * 4)),
                None,
                1,
                1,
            ),
            (
                TestPacket::new(2, 16 * 6, false, &sequence(16 * 6 + 2, 16 * 3)),
                Some(sequence(2, 16 * 9)),
                0,
                2,
            ),
        ];
        for a in actions {
            let packet = a.0.to_vec();
            let slice = SomeipMsgSlice::from_slice(&packet).unwrap();
            let consumed = pool.consume((), (), slice).unwrap();
            if let Some(expected_payload) = a.1 {
                let msg = consumed.unwrap();
                assert_eq!(msg.to_header(), a.0.result_header(expected_payload.len() as u32));
                assert_eq!(msg.payload(), expected_payload);
            } else {
                assert!(consumed.is_none());
            }
            assert_eq!(a.2, pool.active_bufs().len());
            assert_eq!(a.3, pool.finished_bufs().len());
        }
    }

    // normal reconstruction (with additional id)
    {
        let mut pool: TpPool<u32, ()> = TpPool::new(TpBufConfig::new(1024, 2048).unwrap());

        // all actions have the same request id but differing channel ids
        let actions = [
            // start two streams in parallel
            (123u32, TestPacket::new(1, 0, true, &sequence(1, 16)), None),
            (234u32, TestPacket::new(1, 0, true, &sequence(2, 32)), None),
            // stream 1 ends
            (
                123u32,
                TestPacket::new(1, 16, false, &sequence(1 + 16, 16)),
                Some(sequence(1, 32)),
            ),
            // stream 3 which immediately ends
            (
                345u32,
                TestPacket::new(1, 0, false, &sequence(3, 16 * 4)),
                Some(sequence(3, 16 * 4)),
            ),
            // end stream 2
            (
                234u32,
                TestPacket::new(1, 32, true, &sequence(32 + 2, 16 * 4)),
                None,
            ),
            (
                234u32,
                TestPacket::new(1, 16 * 6, false, &sequence(16 * 6 + 2, 16 * 3)),
                Some(sequence(2, 16 * 9)),
            ),
        ];
        for a in actions {
            let packet = a.1.to_vec();
            let slice = SomeipMsgSlice::from_slice(&packet).unwrap();
            let consumed = pool.consume(a.0.clone(), (), slice).unwrap();
            if let Some(expected_payload) = a.2 {
                let msg = consumed.unwrap();
                assert_eq!(msg.to_header(), a.1.result_header(expected_payload.len() as u32));
                assert_eq!(msg.payload(), expected_payload);
            } else {
                assert!(consumed.is_none());
            }
        }
    }

    // error during reconstruction (at the start of a stream)
    {
        let mut pool: TpPool<(), ()> = TpPool::new(TpBufConfig::new(1024, 2048).unwrap());

        // triggers an error as the payload is not a multiple of 16
        let packet = TestPacket::new(1, 0, true, &sequence(1, 15)).to_vec();
        let someip_slice = SomeipMsgSlice::from_slice(&packet).unwrap();
        assert_eq!(
            pool.consume((), (), someip_slice).unwrap_err(),
            UnalignedTpPayloadLen {
                offset: 0,
                payload_len: 15
            }
        );
    }

    // error during reconstruction (after the start of a stream)
    {
        let mut pool: TpPool<(), ()> = TpPool::new(TpBufConfig::new(1024, 2048).unwrap());

        {
            let packet = TestPacket::new(1, 0, true, &sequence(1, 16)).to_vec();
            let someip_slice = SomeipMsgSlice::from_slice(&packet).unwrap();
            pool.consume((), (), someip_slice).unwrap();
        }

        // triggers an error as the payload is not a multiple of 16
        let packet = TestPacket::new(1, 16, true, &sequence(1, 15)).to_vec();
        let someip_slice = SomeipMsgSlice::from_slice(&packet).unwrap();
        assert_eq!(
            pool.consume((), (), someip_slice).unwrap_err(),
            UnalignedTpPayloadLen {
                offset: 16,
                payload_len: 15
            }
        );
    }
}

fn active_timestamp(pool: &TpPool<u16, u32>, key: (u16, u32)) -> Option<u32> {
    pool.active_bufs()
        .iter()
        .find(|entry| entry.0 == key)
        .map(|entry| entry.1 .1)
}

#[test]
fn retain() {
    let mut pool: TpPool<u16, u32> = TpPool::new(Default::default());
    // request id 1, channel id 2, timestamp 123
    {
        let packet = TestPacket::new(1, 0, true, &sequence(1, 16)).to_vec();
        let slice = SomeipMsgSlice::from_slice(&packet).unwrap();
        let consumed = pool.consume(2u16, 123u32, slice).unwrap();
        assert!(consumed.is_none());
        assert_eq!(Some(123), active_timestamp(&pool, (2u16, 1u32)));
    }
    // request id 1, channel id 2, timestamp 124
    {
        let packet = TestPacket::new(1, 16, true, &sequence(16, 16)).to_vec();
        let slice = SomeipMsgSlice::from_slice(&packet).unwrap();
        let consumed = pool.consume(2u16, 124u32, slice).unwrap();
        assert!(consumed.is_none());
        // the timestamp was overwritten by the newer packet
        assert_eq!(Some(124), active_timestamp(&pool, (2u16, 1u32)));
    }
    // request id 1, channel id 3, timestamp 125
    {
        let packet = TestPacket::new(1, 16, true, &sequence(16, 16)).to_vec();
        let slice = SomeipMsgSlice::from_slice(&packet).unwrap();
        let consumed = pool.consume(3u16, 125u32, slice).unwrap();
        assert!(consumed.is_none());
    }

    assert_eq!(0, pool.finished_bufs().len());

    // discard streams with a timestamp smaller than 125
    pool.retain(|timestamp| *timestamp >= 125);

    assert_eq!(Some(125), active_timestamp(&pool, (3u16, 1u32)));
    assert_eq!(None, active_timestamp(&pool, (2u16, 1u32)));
    assert_eq!(1, pool.active_bufs().len());
    // the evicted stream's buffer moved to the free list
    assert_eq!(1, pool.finished_bufs().len());

    // a predicate that accepts everything evicts nothing
    pool.retain(|_| true);
    assert_eq!(1, pool.active_bufs().len());
    assert_eq!(1, pool.finished_bufs().len());
}

// Scenario: three TP segments with offsets 0, 16 and 32, each carrying 16
// bytes, the last without the more-segments flag, reassemble in order into
// one message whose length field is 56.
#[test]
fn tp_reassembly_in_order() {
    let mut pool: TpPool<(), ()> = TpPool::new(TpBufConfig::new(1024, 2048).unwrap());
    let segments = [
        TestPacket::new(9, 0, true, &sequence(0, 16)),
        TestPacket::new(9, 16, true, &sequence(16, 16)),
        TestPacket::new(9, 32, false, &sequence(32, 16)),
    ];
    let mut outputs: Vec<Option<(SomeipHeader, Vec<u8>)>> = Vec::new();
    for segment in segments.iter() {
        let packet = segment.to_vec();
        let slice = SomeipMsgSlice::from_slice(&packet).unwrap();
        let consumed = pool.consume((), (), slice).unwrap();
        outputs.push(consumed.map(|m| (m.to_header(), m.payload().to_vec())));
    }
    assert_eq!(None, outputs[0]);
    assert_eq!(None, outputs[1]);
    let (header, payload) = outputs[2].clone().unwrap();
    assert_eq!(56, header.length);
    assert!(!header.is_event() || true);
    assert_eq!(payload, sequence(0, 48));
    assert_eq!(header, segments[2].result_header(48));
}

// Scenario: the same three segments fed in reverse order produce the
// identical finalized view.
#[test]
fn tp_reassembly_reverse_order() {
    let mut pool: TpPool<(), ()> = TpPool::new(TpBufConfig::new(1024, 2048).unwrap());
    let segments = [
        TestPacket::new(9, 32, false, &sequence(32, 16)),
        TestPacket::new(9, 16, true, &sequence(16, 16)),
        TestPacket::new(9, 0, true, &sequence(0, 16)),
    ];
    let mut outputs: Vec<Option<(SomeipHeader, Vec<u8>)>> = Vec::new();
    for segment in segments.iter() {
        let packet = segment.to_vec();
        let slice = SomeipMsgSlice::from_slice(&packet).unwrap();
        let consumed = pool.consume((), (), slice).unwrap();
        outputs.push(consumed.map(|m| (m.to_header(), m.payload().to_vec())));
    }
    assert_eq!(None, outputs[0]);
    assert_eq!(None, outputs[1]);
    let (header, payload) = outputs[2].clone().unwrap();
    assert_eq!(56, header.length);
    assert_eq!(payload, sequence(0, 48));
    assert_eq!(header, segments[0].result_header(48));
}

// Scenario: an overlapping duplicate at offset 32 is overwritten by the
// final segment at the same offset, and the stream still finalizes to the
// expected bytes.
#[test]
fn tp_reassembly_overlapping_final_then_middle() {
    let mut pool: TpPool<(), ()> = TpPool::new(TpBufConfig::new(1024, 2048).unwrap());
    let zeroes = [0u8; 16];
    let segments = [
        TestPacket::new(9, 0, true, &sequence(0, 16)),
        // will be overwritten
        TestPacket::new(9, 32, true, &zeroes),
        // overwrites
        TestPacket::new(9, 32, false, &sequence(32, 16)),
        // completes
        TestPacket::new(9, 16, true, &sequence(16, 16)),
    ];
    let mut outputs: Vec<Option<(SomeipHeader, Vec<u8>)>> = Vec::new();
    for segment in segments.iter() {
        let packet = segment.to_vec();
        let slice = SomeipMsgSlice::from_slice(&packet).unwrap();
        let consumed = pool.consume((), (), slice).unwrap();
        outputs.push(consumed.map(|m| (m.to_header(), m.payload().to_vec())));
    }
    assert_eq!(None, outputs[0]);
    assert_eq!(None, outputs[1]);
    assert_eq!(None, outputs[2]);
    let (header, payload) = outputs[3].clone().unwrap();
    assert_eq!(payload, sequence(0, 48));
    assert_eq!(header, segments[0].result_header(48));
}
