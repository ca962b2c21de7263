use someip_parse::err::{ReadError, ValueError, WriteError};
use someip_parse::{
    SdEventGroupEntryType, SdServiceEntryType, SomeIpSdEntry, SomeIpSdHeader, SomeIpSdOption,
    TransportProtocol,
};

#[test]
fn sd_header_write_unexpected_end_of_slice() {
    let header = SomeIpSdHeader::default();
    let result = header.write_to_slice(&mut []);
    assert!(matches!(result, Err(WriteError::UnexpectedEndOfSlice(_))));
}

#[test]
fn service_entry_read_unknown_service_entry_type() {
    let mut buffer = [0x00u8; 16];
    buffer[0] = 0xFF; // unknown type
    let result = SomeIpSdEntry::read(&buffer);
    assert!(matches!(
        result,
        Err(ReadError::UnknownSdServiceEntryType(0xFF))
    ));
}

#[test]
fn option_read_unknown_type() {
    let mut buffer = [0x00u8; 4];
    buffer[2] = 0xFF; // unknown type, discardable flag not set
    let result = SomeIpSdOption::read(&buffer);
    assert!(matches!(result, Err(ReadError::UnknownSdOptionType(0xFF))));
}

#[test]
fn new_service_entry_ttl_too_large() {
    let result = SomeIpSdEntry::new_service_entry(
        SdServiceEntryType::OfferService,
        0,
        0,
        0,
        0,
        0,
        0,
        0,
        0xFFFF_FFFF,
        0,
    );
    assert!(matches!(result, Err(ValueError::TtlTooLarge(0xFFFF_FFFF))));
}

#[test]
fn new_service_entry_number_option1_too_large() {
    let result = SomeIpSdEntry::new_service_entry(
        SdServiceEntryType::OfferService,
        0,
        0,
        0xFF,
        0,
        0,
        0,
        0,
        0,
        0,
    );
    assert!(matches!(
        result,
        Err(ValueError::NumberOfOption1TooLarge(0xFF))
    ));
}

#[test]
fn new_service_entry_number_option2_too_large() {
    let result = SomeIpSdEntry::new_service_entry(
        SdServiceEntryType::OfferService,
        0,
        0,
        0,
        0xFF,
        0,
        0,
        0,
        0,
        0,
    );
    assert!(matches!(
        result,
        Err(ValueError::NumberOfOption2TooLarge(0xFF))
    ));
}

#[test]
fn new_service_find_service_entry_zero_ttl() {
    let result = SomeIpSdEntry::new_find_service_entry(0, 0, 0, 0, 0, 0, 0, 0, 0);
    assert!(matches!(
        result,
        Err(ValueError::TtlZeroIndicatesStopOffering)
    ));
}

#[test]
fn new_service_offer_service_entry_zero_ttl() {
    let result = SomeIpSdEntry::new_offer_service_entry(0, 0, 0, 0, 0, 0, 0, 0, 0);
    assert!(matches!(
        result,
        Err(ValueError::TtlZeroIndicatesStopOffering)
    ));
}

#[test]
fn new_stop_offer_service_entry_has_zero_ttl() {
    let entry = SomeIpSdEntry::new_stop_offer_service_entry(0, 0, 0, 0, 0x0102, 0x0304, 1, 7)
        .unwrap();
    assert!(matches!(
        entry,
        SomeIpSdEntry::Service {
            entry_type: SdServiceEntryType::OfferService,
            ttl: 0,
            ..
        }
    ));
}

#[test]
fn new_find_service_entry_range_errors() {
    // the find-service constructor reports the same range errors as the
    // plain service constructor
    assert!(matches!(
        SomeIpSdEntry::new_find_service_entry(0, 0, 0, 0, 0, 0, 0, 0xFFFF_FFFF, 0),
        Err(ValueError::TtlTooLarge(0xFFFF_FFFF))
    ));
    assert!(matches!(
        SomeIpSdEntry::new_find_service_entry(0, 0, 0x10, 0, 0, 0, 0, 1, 0),
        Err(ValueError::NumberOfOption1TooLarge(0x10))
    ));
    assert!(matches!(
        SomeIpSdEntry::new_find_service_entry(0, 0, 0, 0x10, 0, 0, 0, 1, 0),
        Err(ValueError::NumberOfOption2TooLarge(0x10))
    ));
}

#[test]
fn new_offer_service_entry_range_errors() {
    assert!(matches!(
        SomeIpSdEntry::new_offer_service_entry(0, 0, 0, 0, 0, 0, 0, 0xFFFF_FFFF, 0),
        Err(ValueError::TtlTooLarge(0xFFFF_FFFF))
    ));
    assert!(matches!(
        SomeIpSdEntry::new_offer_service_entry(0, 0, 0x10, 0, 0, 0, 0, 1, 0),
        Err(ValueError::NumberOfOption1TooLarge(0x10))
    ));
    assert!(matches!(
        SomeIpSdEntry::new_offer_service_entry(0, 0, 0, 0x10, 0, 0, 0, 1, 0),
        Err(ValueError::NumberOfOption2TooLarge(0x10))
    ));
}

#[test]
fn new_eventgroup_counter_too_large() {
    let result = SomeIpSdEntry::new_eventgroup(
        SdEventGroupEntryType::Subscribe,
        0,
        0,
        0,
        0,
        0,
        0,
        0,
        0,
        false,
        0x10,
        0,
    );
    assert!(matches!(result, Err(ValueError::CounterTooLarge(0x10))));
}

#[test]
fn sd_entry_roundtrip_service() {
    let entry = SomeIpSdEntry::new_service_entry(
        SdServiceEntryType::FindService,
        1,
        2,
        3,
        4,
        0x0102,
        0x0304,
        5,
        0x00aa_bbcc,
        0x0607_0809,
    )
    .unwrap();
    let bytes = entry.to_bytes();
    let decoded = SomeIpSdEntry::read(&bytes).unwrap();
    assert_eq!(entry, decoded);
}

#[test]
fn sd_entry_roundtrip_eventgroup() {
    let entry = SomeIpSdEntry::new_eventgroup(
        SdEventGroupEntryType::SubscribeAck,
        1,
        2,
        3,
        4,
        0x0102,
        0x0304,
        5,
        0x00aa_bbcc,
        true,
        0x0d,
        0x0e0f,
    )
    .unwrap();
    let bytes = entry.to_bytes();
    let decoded = SomeIpSdEntry::read(&bytes).unwrap();
    assert_eq!(entry, decoded);
}

#[test]
fn sd_option_roundtrips() {
    let options = [
        SomeIpSdOption::Configuration {
            configuration_string: vec![0x07, b'a', b'b'],
        },
        SomeIpSdOption::LoadBalancing {
            priority: 0x0102,
            weight: 0x0304,
        },
        SomeIpSdOption::Ipv4Endpoint {
            ipv4_address: [192, 168, 0, 1],
            transport_protocol: TransportProtocol::Udp,
            transport_protocol_number: 30500,
        },
        SomeIpSdOption::Ipv6Endpoint {
            ipv6_address: [0xfe, 0x80, 0, 0, 0, 0, 0, 0, 0, 0, 0, 0, 0, 0, 0, 1],
            transport_protocol: TransportProtocol::Tcp,
            transport_protocol_number: 80,
        },
        SomeIpSdOption::Ipv4Multicast {
            ipv4_address: [239, 0, 0, 1],
            transport_protocol: TransportProtocol::Generic(0x33),
            transport_protocol_number: 1,
        },
        SomeIpSdOption::Ipv6Multicast {
            ipv6_address: [0xff; 16],
            transport_protocol: TransportProtocol::Udp,
            transport_protocol_number: 2,
        },
        SomeIpSdOption::Ipv4SdEndpoint {
            ipv4_address: [10, 0, 0, 7],
            transport_protocol: TransportProtocol::Udp,
            transport_protocol_number: 30490,
        },
        SomeIpSdOption::Ipv6SdEndpoint {
            ipv6_address: [1; 16],
            transport_protocol: TransportProtocol::Tcp,
            transport_protocol_number: 30490,
        },
    ];
    for option in options {
        let bytes = option.to_bytes().unwrap();
        let (consumed, decoded) = SomeIpSdOption::read(&bytes).unwrap();
        assert_eq!(consumed, bytes.len());
        assert_eq!(option, decoded);
    }
}

#[test]
fn sd_option_write_placeholder_fails() {
    let option = SomeIpSdOption::UnknownDiscardable {
        length: 3,
        option_type: 0x7f,
    };
    assert_eq!(
        option.to_bytes(),
        Err(ValueError::SdUnknownDiscardableOption(0x7f))
    );
}

#[test]
fn sd_option_read_unknown_discardable() {
    // length 3, unknown type 0x7f, discardable flag set, two payload bytes
    let buffer = [0x00, 0x03, 0x7f, 0x80, 0xaa, 0xbb];
    let (consumed, decoded) = SomeIpSdOption::read(&buffer).unwrap();
    assert_eq!(6, consumed);
    assert_eq!(
        SomeIpSdOption::UnknownDiscardable {
            length: 3,
            option_type: 0x7f,
        },
        decoded
    );
}

#[test]
fn sd_option_read_length_zero() {
    // known type with a zero length
    let buffer = [0x00, 0x00, 0x01, 0x00];
    assert!(matches!(
        SomeIpSdOption::read(&buffer),
        Err(ReadError::SdOptionLengthZero)
    ));
}

#[test]
fn sd_option_read_unexpected_len() {
    // a load balancing option must have length 5
    let buffer = [0x00, 0x07, 0x02, 0x00, 0, 0, 0, 0, 0, 0];
    assert!(matches!(
        SomeIpSdOption::read(&buffer),
        Err(ReadError::SdOptionUnexpectedLen {
            expected_len: 5,
            actual_len: 7,
            option_type: 0x02,
        })
    ));
}

#[test]
fn sd_option_read_too_short() {
    let buffer = [0x00, 0x02, 0x01];
    assert!(matches!(
        SomeIpSdOption::read(&buffer),
        Err(ReadError::UnexpectedEndOfSlice(4))
    ));
}

#[test]
fn sd_header_entries_array_too_large() {
    let mut buffer = [0u8; 16];
    // entries length above the 1388 byte cap
    let too_large: u32 = 1389;
    buffer[4..8].copy_from_slice(&too_large.to_be_bytes());
    assert!(matches!(
        SomeIpSdHeader::read(&buffer),
        Err(ReadError::SdEntriesArrayLengthTooLarge(1389))
    ));
}

#[test]
fn sd_header_options_array_too_large() {
    let mut buffer = [0u8; 16];
    let too_large: u32 = 1389;
    buffer[8..12].copy_from_slice(&too_large.to_be_bytes());
    assert!(matches!(
        SomeIpSdHeader::read(&buffer),
        Err(ReadError::SdOptionsArrayLengthTooLarge(1389))
    ));
}

#[test]
fn sd_header_too_short() {
    let buffer = [0u8; 11];
    assert!(matches!(
        SomeIpSdHeader::read(&buffer),
        Err(ReadError::UnexpectedEndOfSlice(12))
    ));
}

// Scenario: a header with all three flags, one offer-service entry and one
// IPv4 endpoint option round-trips to an equal structure.
#[test]
fn sd_roundtrip_scenario() {
    let entry = SomeIpSdEntry::new_offer_service_entry(0, 0, 1, 0, 0x0102, 0x0304, 1, 60, 0)
        .unwrap();
    let option = SomeIpSdOption::Ipv4Endpoint {
        ipv4_address: [192, 168, 0, 1],
        transport_protocol: TransportProtocol::Udp,
        transport_protocol_number: 30500,
    };
    let header = SomeIpSdHeader {
        reboot: true,
        unicast: true,
        explicit_initial_data_control: true,
        entries: vec![entry],
        options: vec![option],
    };
    let bytes = header.to_bytes().unwrap();
    let decoded = SomeIpSdHeader::read(&bytes).unwrap();
    assert_eq!(header, decoded);
}

#[test]
fn sd_roundtrip_empty_header() {
    let header = SomeIpSdHeader::new(false, Vec::new(), Vec::new());
    let bytes = header.to_bytes().unwrap();
    assert_eq!(bytes, vec![0x60, 0, 0, 0, 0, 0, 0, 0, 0, 0, 0, 0]);
    let decoded = SomeIpSdHeader::read(&bytes).unwrap();
    assert_eq!(header, decoded);
}

#[test]
fn sd_roundtrip_many_entries_and_options() {
    let entries = vec![
        SomeIpSdEntry::new_find_service_entry(0, 0, 0, 0, 0xffff, 0xffff, 0xff, 3, 0xffff_ffff)
            .unwrap(),
        SomeIpSdEntry::new_eventgroup(
            SdEventGroupEntryType::Subscribe,
            0,
            0,
            1,
            0,
            0x0102,
            0x0304,
            1,
            60,
            true,
            2,
            0x1c2d,
        )
        .unwrap(),
    ];
    let options = vec![
        SomeIpSdOption::Configuration {
            configuration_string: Vec::new(),
        },
        SomeIpSdOption::LoadBalancing {
            priority: 1,
            weight: 2,
        },
    ];
    let header = SomeIpSdHeader::new(true, entries, options);
    assert!(header.reboot);
    assert!(header.unicast);
    assert!(header.explicit_initial_data_control);
    let bytes = header.to_bytes().unwrap();
    let decoded = SomeIpSdHeader::read(&bytes).unwrap();
    assert_eq!(header, decoded);
}

#[test]
fn sd_header_write_placeholder_fails() {
    let header = SomeIpSdHeader::new(
        false,
        Vec::new(),
        vec![SomeIpSdOption::UnknownDiscardable {
            length: 2,
            option_type: 0x55,
        }],
    );
    assert_eq!(
        header.to_bytes(),
        Err(ValueError::SdUnknownDiscardableOption(0x55))
    );
    let mut buffer = [0u8; 64];
    assert!(matches!(
        header.write_to_slice(&mut buffer),
        Err(WriteError::ValueError(
            ValueError::SdUnknownDiscardableOption(0x55)
        ))
    ));
}

#[test]
fn sd_header_write_to_slice_roundtrip() {
    let header = SomeIpSdHeader::new(
        false,
        vec![
            SomeIpSdEntry::new_offer_service_entry(0, 0, 0, 0, 1, 2, 3, 4, 5).unwrap(),
        ],
        Vec::new(),
    );
    let mut buffer = [0xeeu8; 40];
    header.write_to_slice(&mut buffer).unwrap();
    let decoded = SomeIpSdHeader::read(&buffer).unwrap();
    assert_eq!(header, decoded);
    // bytes after the message are untouched
    assert_eq!(0xee, buffer[28]);
}

#[test]
fn transport_protocol_into_u8() {
    let values = [
        (TransportProtocol::Tcp, 0x06u8),
        (TransportProtocol::Udp, 0x11),
        (TransportProtocol::Generic(0x2a), 0x2a),
    ];
    for (input, expected) in values {
        let raw: u8 = input.into();
        assert_eq!(expected, raw);
    }
}

#[test]
fn sd_entry_exact_wire_bytes() {
    let entry = SomeIpSdEntry::new_offer_service_entry(1, 2, 3, 4, 0x0102, 0x0304, 5, 60, 7)
        .unwrap();
    let mut buffer = Vec::new();
    entry.write_raw(&mut buffer);
    assert_eq!(
        buffer,
        vec![
            0x01, // offer service
            0x01, 0x02, // option run indexes
            0x34, // two option-count nibbles
            0x01, 0x02, // service id
            0x03, 0x04, // instance id
            0x05, // major version
            0x00, 0x00, 0x3c, // ttl
            0x00, 0x00, 0x00, 0x07, // minor version
        ]
    );
}

#[test]
fn sd_option_exact_wire_bytes() {
    let option = SomeIpSdOption::Ipv4Endpoint {
        ipv4_address: [192, 168, 0, 1],
        transport_protocol: TransportProtocol::Udp,
        transport_protocol_number: 30500,
    };
    let mut buffer = Vec::new();
    option.write_raw(&mut buffer).unwrap();
    assert_eq!(
        buffer,
        vec![
            0x00, 0x09, // length
            0x04, // ipv4 endpoint
            0x00, // reserved
            192, 168, 0, 1, // address
            0x00, // reserved
            0x11, // udp
            0x77, 0x24, // port 30500
        ]
    );
}

#[test]
fn sd_header_encodable() {
    let fits = SomeIpSdHeader::new(
        false,
        vec![SomeIpSdEntry::new_offer_service_entry(0, 0, 0, 0, 1, 2, 3, 4, 5).unwrap()],
        vec![SomeIpSdOption::Configuration {
            configuration_string: vec![1, 2, 3],
        }],
    );
    assert!(fits.encodable());

    let config_too_long = SomeIpSdHeader::new(
        false,
        Vec::new(),
        vec![SomeIpSdOption::Configuration {
            configuration_string: vec![0; 0xffff],
        }],
    );
    assert!(!config_too_long.encodable());
}
