use std::cmp::Ordering;
use std::collections::hash_map::DefaultHasher;
use std::hash::{Hash, Hasher};

use someip_parse::err::{
    LenError, LenSource, Layer, ReadError, SdReadError, SdValueError, SdWriteError,
    SliceWriteSpaceError, SomeipHeaderError, SomeipHeaderReadError, SomeipSliceError,
    TpBufConfigError, TpOffsetNotMultipleOf16Error, TpReassembleError, ValueError, WriteError,
};

fn hash_of<T: Hash>(value: &T) -> u64 {
    let mut hasher = DefaultHasher::new();
    value.hash(&mut hasher);
    hasher.finish()
}

#[test]
fn layer_debug() {
    assert_eq!("SomeipHeader", format!("{:?}", Layer::SomeipHeader));
}

#[test]
fn layer_clone_eq_hash_ord() {
    let layer = Layer::SomeipHeader;
    assert_eq!(layer, layer.clone());
    assert_eq!(hash_of(&layer), hash_of(&layer.clone()));
    assert_eq!(Ordering::Equal, layer.cmp(&layer));
    assert_eq!(Some(Ordering::Equal), layer.partial_cmp(&layer));
}

#[test]
fn error_title() {
    let tests = [
        (Layer::SomeipHeader, "SOMEIP Header Error"),
        (Layer::SomeipTpHeader, "SOMEIP TP Header Error"),
        (Layer::SomeipPayload, "SOMEIP Payload Error"),
    ];
    for test in tests {
        assert_eq!(test.0.error_title(), test.1);
    }
}

#[test]
fn layer_fmt() {
    let tests = [
        (Layer::SomeipHeader, "SOMEIP header"),
        (Layer::SomeipTpHeader, "SOMEIP TP header"),
        (Layer::SomeipPayload, "SOMEIP payload"),
    ];
    for test in tests {
        assert_eq!(test.0.display_string(), test.1);
    }
}

#[test]
fn len_error_debug() {
    assert_eq!(
        format!(
            "{:?}",
            LenError {
                required_len: 2,
                layer: Layer::SomeipHeader,
                len: 1,
                len_source: LenSource::Slice,
            }
        ),
        format!(
            "LenError {{ required_len: {:?}, len: {:?}, len_source: {:?}, layer: {:?} }}",
            2,
            1,
            LenSource::Slice,
            Layer::SomeipHeader
        ),
    );
}

#[test]
fn len_error_clone_eq_hash_ord() {
    let err = LenError {
        required_len: 2,
        layer: Layer::SomeipHeader,
        len: 1,
        len_source: LenSource::Slice,
    };
    assert_eq!(err, err.clone());
    assert_eq!(hash_of(&err), hash_of(&err.clone()));
    assert_eq!(Ordering::Equal, err.cmp(&err));
    assert_eq!(Some(Ordering::Equal), err.partial_cmp(&err));
}

#[test]
fn len_error_fmt() {
    let len_source_tests = [
        (LenSource::Slice, "SOMEIP Header Error: Not enough data to decode 'SOMEIP header'. 2 byte(s) would be required, but only 1 byte(s) are available based on the slice length."),
        (LenSource::SomeipHeaderLength, "SOMEIP Header Error: Not enough data to decode 'SOMEIP header'. 2 byte(s) would be required, but only 1 byte(s) are available based on the length calculated from the SOMEIP header 'length' field."),
    ];
    for test in len_source_tests {
        assert_eq!(
            test.1,
            LenError {
                required_len: 2,
                layer: Layer::SomeipHeader,
                len: 1,
                len_source: test.0,
            }
            .display_string()
        );
    }
}

#[test]
fn read_error_debug_write() {
    let values = [
        ReadError::IoError(std::io::Error::new(std::io::ErrorKind::Other, "oh no!")),
        ReadError::UnexpectedEndOfSlice(0),
        ReadError::UnsupportedProtocolVersion(0),
        ReadError::LengthFieldTooSmall(0),
        ReadError::UnknownMessageType(0),
    ];
    for value in values.iter() {
        let _ = format!("{:?}", value);
    }
}

#[test]
fn sd_read_error_debug_write() {
    let values = [
        SdReadError::IoError(std::io::Error::new(std::io::ErrorKind::Other, "oh no!")),
        SdReadError::UnexpectedEndOfSlice(0),
    ];
    for value in values.iter() {
        let _ = format!("{:?}", value);
    }
}

#[test]
fn sd_value_error_debug() {
    let err = SdValueError::CounterTooLarge(0);
    let _ = format!("{err:?}");
}

#[test]
fn sd_value_error_clone_eq_hash_ord() {
    let err = SdValueError::CounterTooLarge(0);
    assert_eq!(err, err.clone());
    assert_eq!(hash_of(&err), hash_of(&err.clone()));
    assert_eq!(Ordering::Equal, err.cmp(&err));
    assert_eq!(Some(Ordering::Equal), err.partial_cmp(&err));
}

#[test]
fn sd_write_error_debug_write() {
    let values = [
        SdWriteError::IoError(std::io::Error::new(std::io::ErrorKind::Other, "oh no!")),
        SdWriteError::UnexpectedEndOfSlice(0),
    ];
    for value in values.iter() {
        let _ = format!("{:?}", value);
    }
}

#[test]
fn slice_write_space_error_debug_write() {
    let err = SliceWriteSpaceError {
        required_len: 2,
        len: 1,
        layer: Layer::SomeipHeader,
    };
    let _ = format!("{:?}", err);
}

#[test]
fn slice_write_space_error_clone_eq_hash_ord() {
    let err = SliceWriteSpaceError {
        required_len: 2,
        len: 1,
        layer: Layer::SomeipHeader,
    };
    assert_eq!(err, err.clone());
    assert_eq!(hash_of(&err), hash_of(&err.clone()));
    assert_eq!(Ordering::Equal, err.cmp(&err));
    assert_eq!(Some(Ordering::Equal), err.partial_cmp(&err));
}

#[test]
fn slice_write_space_error_fmt() {
    assert_eq!(
        "Not enough space to write SOMEIP header to slice. Needed 2 byte(s), but only 1 byte(s) were available.",
        SliceWriteSpaceError {
            required_len: 2,
            len: 1,
            layer: Layer::SomeipHeader,
        }
        .display_string()
    );
}

#[test]
fn someip_header_error_clone_eq_hash_ord() {
    let err = SomeipHeaderError::UnsupportedProtocolVersion(0);
    assert_eq!(err, err.clone());
    assert_eq!(hash_of(&err), hash_of(&err.clone()));
    assert_eq!(Ordering::Equal, err.cmp(&err));
    assert_eq!(Some(Ordering::Equal), err.partial_cmp(&err));
}

#[test]
fn someip_header_error_debug_write() {
    let values = [
        SomeipHeaderError::UnsupportedProtocolVersion(0),
        SomeipHeaderError::LengthFieldTooSmall(0),
        SomeipHeaderError::UnknownMessageType(0),
    ];
    for value in values {
        let _ = format!("{:?}", value);
    }
}

#[test]
fn someip_header_error_fmt() {
    let tests = [
        (SomeipHeaderError::UnsupportedProtocolVersion(123), "Unsupported protocol version '123' found in SOMEIP header."),
        (SomeipHeaderError::LengthFieldTooSmall(1), "Length '1' present in the SOMEIP header is smaller then the minimum allowed lenght of 8."),
        (SomeipHeaderError::UnknownMessageType(2), "Unknown message type '2' found in SOMEIP header."),
    ];
    for t in tests {
        assert_eq!(t.0.display_string(), t.1);
    }
}

#[test]
fn someip_header_read_error_debug() {
    let err = SomeipHeaderError::UnsupportedProtocolVersion(0);
    assert_eq!(
        format!("Content({:?})", err.clone()),
        format!("{:?}", SomeipHeaderReadError::Content(err))
    );
}

#[test]
fn someip_header_read_error_fmt() {
    {
        let err = std::io::Error::new(
            std::io::ErrorKind::UnexpectedEof,
            "failed to fill whole buffer",
        );
        let expected = format!("SOMEIP Header IO Error: {}", err);
        assert_eq!(expected, SomeipHeaderReadError::Io(err).display_string());
    }
    {
        let err = SomeipHeaderError::UnsupportedProtocolVersion(0);
        assert_eq!(
            err.display_string(),
            SomeipHeaderReadError::Content(err.clone()).display_string()
        );
    }
}

#[test]
fn io_error() {
    assert!(SomeipHeaderReadError::Io(std::io::Error::new(
        std::io::ErrorKind::UnexpectedEof,
        "failed to fill whole buffer",
    ))
    .io_error()
    .is_some());
    assert!(
        SomeipHeaderReadError::Content(SomeipHeaderError::UnsupportedProtocolVersion(0))
            .io_error()
            .is_none()
    );
}

#[test]
fn content_error() {
    assert_eq!(
        None,
        SomeipHeaderReadError::Io(std::io::Error::new(
            std::io::ErrorKind::UnexpectedEof,
            "failed to fill whole buffer",
        ))
        .content_error()
    );
    {
        let err = SomeipHeaderError::UnsupportedProtocolVersion(0);
        assert_eq!(
            Some(err.clone()),
            SomeipHeaderReadError::Content(err.clone()).content_error()
        );
    }
}

#[test]
fn someip_slice_error_debug() {
    let err = SomeipHeaderError::UnsupportedProtocolVersion(5);
    assert_eq!(
        format!("Content({:?})", err.clone()),
        format!("{:?}", SomeipSliceError::Content(err))
    );
}

#[test]
fn someip_slice_error_clone_eq_hash_ord() {
    let err = SomeipSliceError::Content(SomeipHeaderError::UnsupportedProtocolVersion(5));
    assert_eq!(err, err.clone());
    assert_eq!(hash_of(&err), hash_of(&err.clone()));
    assert_eq!(Ordering::Equal, err.cmp(&err));
    assert_eq!(Some(Ordering::Equal), err.partial_cmp(&err));
}

#[test]
fn fmt() {
    {
        let err = LenError {
            required_len: 1,
            layer: Layer::SomeipHeader,
            len: 2,
            len_source: LenSource::Slice,
        };
        assert_eq!(
            err.display_string(),
            SomeipSliceError::Len(err).display_string()
        );
    }
    {
        let err = SomeipHeaderError::UnsupportedProtocolVersion(6);
        assert_eq!(
            err.display_string(),
            SomeipSliceError::Content(err.clone()).display_string()
        );
    }
}

#[test]
fn tp_buf_config_error_debug() {
    let err = TpBufConfigError::MaxPayloadLenTooBig {
        allowed_max: 0,
        actual: 1,
    };
    let _ = format!("{err:?}");
}

#[test]
fn tp_buf_config_error_clone_eq_hash_ord() {
    let err = TpBufConfigError::MaxPayloadLenTooBig {
        allowed_max: 0,
        actual: 1,
    };
    assert_eq!(err, err.clone());
    assert_eq!(hash_of(&err), hash_of(&err.clone()));
    assert_eq!(Ordering::Equal, err.cmp(&err));
    assert_eq!(Some(Ordering::Equal), err.partial_cmp(&err));
}

#[test]
fn tp_buf_config_error_fmt() {
    assert_eq!(
        "TP pool config 'maximum payload value' 2 is bigger then the maximum allowed value 1.",
        TpBufConfigError::MaxPayloadLenTooBig {
            allowed_max: 1,
            actual: 2,
        }
        .display_string()
    );
}

#[test]
fn tp_offset_not_multiple_of_16_error_debug() {
    let err = TpOffsetNotMultipleOf16Error { bad_offset: 0 };
    let _ = format!("{err:?}");
}

#[test]
fn tp_offset_not_multiple_of_16_error_clone_eq_hash_ord() {
    let err = TpOffsetNotMultipleOf16Error { bad_offset: 0 };
    assert_eq!(err, err.clone());
    assert_eq!(hash_of(&err), hash_of(&err.clone()));
    assert_eq!(Ordering::Equal, err.cmp(&err));
    assert_eq!(Some(Ordering::Equal), err.partial_cmp(&err));
}

#[test]
fn tp_offset_not_multiple_of_16_error_fmt() {
    assert_eq!(
        "Error SOMEIP TP offset 123 is not a multiple of 16 (this is required).",
        TpOffsetNotMultipleOf16Error { bad_offset: 123 }.display_string()
    );
}

#[test]
fn tp_reassemble_error_debug() {
    let err = TpReassembleError::AllocationFailure { len: 0 };
    let _ = format!("{err:?}");
}

#[test]
fn tp_reassemble_error_clone_eq_hash_ord() {
    let err = TpReassembleError::AllocationFailure { len: 0 };
    assert_eq!(err, err.clone());
    assert_eq!(hash_of(&err), hash_of(&err.clone()));
    assert_eq!(Ordering::Equal, err.cmp(&err));
    assert_eq!(Some(Ordering::Equal), err.partial_cmp(&err));
}

#[test]
fn tp_reassemble_error_fmt() {
    let tests = [
        (TpReassembleError::UnalignedTpPayloadLen { offset: 1, payload_len: 2 }, "Payload length 2 of SOMEIP TP segment (offset 1) is not a multiple of 16. This is only allowed for TP packets where the 'more segements' flag is not set."),
        (TpReassembleError::SegmentTooBig { offset: 1, payload_len: 2, max: 3 }, "Overall length of TP segment (offset 1, payload len: 2) bigger then the maximum allowed size of 3."),
        (TpReassembleError::ConflictingEnd { previous_end: 1, conflicting_end: 2 }, "Received a TP package (offset + len: 2) which conflicts a package that previously set the end to 1."),
        (TpReassembleError::AllocationFailure { len: 123 }, "Faield to allocate 123 bytes of memory to reconstruct the SOMEIP TP packets."),
    ];
    for t in tests {
        assert_eq!(t.0.display_string(), t.1);
    }
}

#[test]
fn value_error_debug_write() {
    for value in [
        ValueError::LengthTooLarge(0),
        ValueError::TpOffsetNotMultipleOf16(0),
    ]
    .iter()
    {
        let _ = format!("{:?}", value);
    }
}

#[test]
fn write_error_debug_write() {
    let values = [
        WriteError::IoError(std::io::Error::new(std::io::ErrorKind::Other, "oh no!")),
        WriteError::UnexpectedEndOfSlice(0),
    ];
    for value in values.iter() {
        let _ = format!("{:?}", value);
    }
}

#[test]
fn write_error_from_io_error() {
    assert!(matches!(
        WriteError::from(std::io::Error::new(std::io::ErrorKind::Other, "oh no!")),
        WriteError::IoError(_)
    ));
}

#[test]
fn sd_write_error_from_io_error() {
    assert!(matches!(
        SdWriteError::from(std::io::Error::new(std::io::ErrorKind::Other, "oh no!")),
        SdWriteError::IoError(_)
    ));
}

#[test]
fn read_error_from_io_error() {
    assert!(matches!(
        ReadError::from(std::io::Error::new(std::io::ErrorKind::Other, "oh no!")),
        ReadError::IoError(_)
    ));
}

#[test]
fn sd_read_error_from_io_error() {
    assert!(matches!(
        SdReadError::from(std::io::Error::new(std::io::ErrorKind::Other, "oh no!")),
        SdReadError::IoError(_)
    ));
}

#[test]
fn write_error_from_value_error() {
    assert!(matches!(
        WriteError::from(ValueError::LengthTooLarge(1)),
        WriteError::ValueError(ValueError::LengthTooLarge(1))
    ));
}

#[test]
fn sd_write_error_from_value_error() {
    assert!(matches!(
        SdWriteError::from(SdValueError::TtlTooLarge(1)),
        SdWriteError::ValueError(SdValueError::TtlTooLarge(1))
    ));
}
