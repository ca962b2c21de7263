//! Codec for the SOME/IP Service Discovery sub-protocol: header flags,
//! length-prefixed entries array and length-prefixed options array.
use vstd::prelude::*;

use crate::bytes::{be16, be16_hi, be16_lo, be32, be32_b0, be32_b1, be32_b2, be32_b3, read_be_u16,
    read_be_u32, split_be_u16, split_be_u32};
use crate::err;
use crate::tp_buf::spec_be4;

verus! {

/// Length of the SOME/IP SD header: flags + reserved + entries length +
/// options length, excluding the entries and options arrays themselves.
pub const MIN_SD_HEADER_LENGTH: usize = 12;

/// Length of an SD service entry on the wire.
pub const SERVICE_ENTRY_LENGTH: usize = 16;

/// Length of an SD eventgroup entry on the wire.
pub const EVENTGROUP_ENTRY_LENGTH: usize = 16;

/// Pre-read safety cap for the entries array length: the maximum UDP SD
/// payload of 1400 bytes minus the 12 header bytes. It keeps an
/// attacker-controlled length field from forcing a large allocation.
pub const MAX_SD_ENTRIES_LEN: u32 = 1388;

/// Pre-read safety cap for the options array length, like
/// [`MAX_SD_ENTRIES_LEN`].
pub const MAX_SD_OPTIONS_LEN: u32 = 1388;

/// Flag used for the detection of reboots.
pub const SD_HEADER_REBOOT_FLAG: u8 = 0b1000_0000;

/// Unicast is supported. Set for all SD messages; a relict from old SOME/IP
/// versions.
pub const SD_HEADER_UNICAST_FLAG: u8 = 0b0100_0000;

/// Explicit initial data control is supported; an older-specification flag
/// retained for compatibility.
pub const SD_HEADER_EXPLICIT_INITIAL_DATA_CONTROL_FLAG: u8 = 0b0010_0000;

/// Flag in an eventgroup entry saying that initial data shall be sent.
pub const EVENT_ENTRY_INITIAL_DATA_REQUESTED_FLAG: u8 = 0b1000_0000;

/// Flag in an SD option's reserved byte marking it discardable.
pub const SD_OPTION_DISCARDABLE_FLAG: u8 = 0b1000_0000;

/// Types of SD service entries.
#[derive(Clone, Copy, Debug, Eq, PartialEq, Structural)]
pub enum SdServiceEntryType {
    FindService,
    OfferService,
}

/// The discriminator byte of a service entry type.
pub open spec fn spec_service_entry_type_raw(t: SdServiceEntryType) -> u8 {
    match t {
        SdServiceEntryType::FindService => 0x00,
        SdServiceEntryType::OfferService => 0x01,
    }
}

/// Types of SD eventgroup entries.
#[derive(Clone, Copy, Debug, Eq, PartialEq, Structural)]
pub enum SdEventGroupEntryType {
    Subscribe,
    SubscribeAck,
}

/// The discriminator byte of an eventgroup entry type.
pub open spec fn spec_eventgroup_entry_type_raw(t: SdEventGroupEntryType) -> u8 {
    match t {
        SdEventGroupEntryType::Subscribe => 0x06,
        SdEventGroupEntryType::SubscribeAck => 0x07,
    }
}

/// Types of SD options.
#[derive(Clone, Copy, Debug, Eq, PartialEq, Structural)]
pub enum SdOptionType {
    Configuration,
    LoadBalancing,
    Ipv4Endpoint,
    Ipv6Endpoint,
    Ipv4Multicast,
    Ipv6Multicast,
    Ipv4SdEndpoint,
    Ipv6SdEndpoint,
}

/// The discriminator byte of an option type.
pub open spec fn spec_sd_option_type_raw(t: SdOptionType) -> u8 {
    match t {
        SdOptionType::Configuration => 0x01,
        SdOptionType::LoadBalancing => 0x02,
        SdOptionType::Ipv4Endpoint => 0x04,
        SdOptionType::Ipv6Endpoint => 0x06,
        SdOptionType::Ipv4Multicast => 0x14,
        SdOptionType::Ipv6Multicast => 0x16,
        SdOptionType::Ipv4SdEndpoint => 0x24,
        SdOptionType::Ipv6SdEndpoint => 0x26,
    }
}

impl SdOptionType {
    /// The discriminator byte of the option type.
    pub fn to_raw(&self) -> (r: u8)
        ensures
            r == spec_sd_option_type_raw(*self),
    {
        match self {
            SdOptionType::Configuration => 0x01,
            SdOptionType::LoadBalancing => 0x02,
            SdOptionType::Ipv4Endpoint => 0x04,
            SdOptionType::Ipv6Endpoint => 0x06,
            SdOptionType::Ipv4Multicast => 0x14,
            SdOptionType::Ipv6Multicast => 0x16,
            SdOptionType::Ipv4SdEndpoint => 0x24,
            SdOptionType::Ipv6SdEndpoint => 0x26,
        }
    }
}

/// Transport protocol numbers, following IANA: TCP is 6 and UDP is 17;
/// every other value is passed through as `Generic`.
#[derive(Copy, Clone, Debug, Eq, PartialEq, Structural)]
pub enum TransportProtocol {
    Tcp,
    Udp,
    Generic(u8),
}

/// The raw protocol number a transport protocol is written as.
pub open spec fn spec_transport_protocol_raw(tp: TransportProtocol) -> u8 {
    match tp {
        TransportProtocol::Tcp => 0x06,
        TransportProtocol::Udp => 0x11,
        TransportProtocol::Generic(v) => v,
    }
}

/// The transport protocol a raw protocol number decodes to.
pub open spec fn spec_transport_protocol_of_raw(raw: u8) -> TransportProtocol {
    if raw == 0x06 {
        TransportProtocol::Tcp
    } else if raw == 0x11 {
        TransportProtocol::Udp
    } else {
        TransportProtocol::Generic(raw)
    }
}

impl From<TransportProtocol> for u8 {
    /// The raw protocol number the transport protocol is written as.
    fn from(tp: TransportProtocol) -> (v: u8)
        ensures
            v == spec_transport_protocol_raw(tp),
    {
        match tp {
            TransportProtocol::Tcp => 0x06,
            TransportProtocol::Udp => 0x11,
            TransportProtocol::Generic(value) => value,
        }
    }
}

impl vstd::std_specs::convert::FromSpecImpl<TransportProtocol> for u8 {
    open spec fn obeys_from_spec() -> bool {
        true
    }

    open spec fn from_spec(tp: TransportProtocol) -> u8 {
        spec_transport_protocol_raw(tp)
    }
}

/// Decodes a raw protocol number.
fn transport_protocol_of_raw(raw: u8) -> (r: TransportProtocol)
    ensures
        r == spec_transport_protocol_of_raw(raw),
{
    if raw == 0x06 {
        TransportProtocol::Tcp
    } else if raw == 0x11 {
        TransportProtocol::Udp
    } else {
        TransportProtocol::Generic(raw)
    }
}

/// A SOME/IP service discovery entry: a uniform 16-byte record, either for
/// a service or for an eventgroup.
#[derive(Clone, Debug, Eq, PartialEq, Structural)]
pub enum SomeIpSdEntry {
    /// Service discovery entry for a service.
    Service {
        entry_type: SdServiceEntryType,
        index_first_option_run: u8,
        index_second_option_run: u8,
        /// Number of options in the first run; at most 15.
        number_of_options_1: u8,
        /// Number of options in the second run; at most 15.
        number_of_options_2: u8,
        service_id: u16,
        instance_id: u16,
        major_version: u8,
        /// Time to live, 24 bits on the wire.
        ttl: u32,
        minor_version: u32,
    },
    /// Service discovery entry for an eventgroup.
    Eventgroup {
        entry_type: SdEventGroupEntryType,
        index_first_option_run: u8,
        index_second_option_run: u8,
        /// Number of options in the first run; at most 15.
        number_of_options_1: u8,
        /// Number of options in the second run; at most 15.
        number_of_options_2: u8,
        service_id: u16,
        instance_id: u16,
        major_version: u8,
        /// Time to live, 24 bits on the wire.
        ttl: u32,
        /// True if initial data shall be sent by the server.
        initial_data_requested: bool,
        /// Distinguishes identical subscribes of the same subscriber;
        /// 4 bits on the wire.
        counter: u8,
        eventgroup_id: u16,
    },
}

/// The 16 bytes an SD entry is written as. Nibble fields and the 24-bit TTL
/// are masked to their wire width.
pub open spec fn spec_sd_entry_bytes(e: SomeIpSdEntry) -> Seq<u8> {
    match e {
        SomeIpSdEntry::Service {
            entry_type,
            index_first_option_run,
            index_second_option_run,
            number_of_options_1,
            number_of_options_2,
            service_id,
            instance_id,
            major_version,
            ttl,
            minor_version,
        } => seq![
            spec_service_entry_type_raw(entry_type),
            index_first_option_run,
            index_second_option_run,
            (number_of_options_1 << 4) | (number_of_options_2 & 0x0f),
            be16_hi(service_id),
            be16_lo(service_id),
            be16_hi(instance_id),
            be16_lo(instance_id),
            major_version,
            be32_b1(ttl),
            be32_b2(ttl),
            be32_b3(ttl),
            be32_b0(minor_version),
            be32_b1(minor_version),
            be32_b2(minor_version),
            be32_b3(minor_version),
        ],
        SomeIpSdEntry::Eventgroup {
            entry_type,
            index_first_option_run,
            index_second_option_run,
            number_of_options_1,
            number_of_options_2,
            service_id,
            instance_id,
            major_version,
            ttl,
            initial_data_requested,
            counter,
            eventgroup_id,
        } => seq![
            spec_eventgroup_entry_type_raw(entry_type),
            index_first_option_run,
            index_second_option_run,
            (number_of_options_1 << 4) | (number_of_options_2 & 0x0f),
            be16_hi(service_id),
            be16_lo(service_id),
            be16_hi(instance_id),
            be16_lo(instance_id),
            major_version,
            be32_b1(ttl),
            be32_b2(ttl),
            be32_b3(ttl),
            0u8,
            if initial_data_requested {
                0x80u8 | (counter & 0x0f)
            } else {
                counter & 0x0f
            },
            be16_hi(eventgroup_id),
            be16_lo(eventgroup_id),
        ],
    }
}

/// The SD entry encoded by 16 bytes: byte 0 selects the shape, an unknown
/// discriminator is a fatal error.
pub open spec fn spec_parse_sd_entry(b: Seq<u8>) -> Result<SomeIpSdEntry, err::ReadError>
    recommends
        b.len() >= 16,
{
    if b[0] == 0x00 || b[0] == 0x01 {
        Ok(
            SomeIpSdEntry::Service {
                entry_type: if b[0] == 0x00 {
                    SdServiceEntryType::FindService
                } else {
                    SdServiceEntryType::OfferService
                },
                index_first_option_run: b[1],
                index_second_option_run: b[2],
                number_of_options_1: b[3] >> 4,
                number_of_options_2: b[3] & 0x0f,
                service_id: be16(b[4], b[5]),
                instance_id: be16(b[6], b[7]),
                major_version: b[8],
                ttl: be32(0, b[9], b[10], b[11]),
                minor_version: be32(b[12], b[13], b[14], b[15]),
            },
        )
    } else if b[0] == 0x06 || b[0] == 0x07 {
        Ok(
            SomeIpSdEntry::Eventgroup {
                entry_type: if b[0] == 0x06 {
                    SdEventGroupEntryType::Subscribe
                } else {
                    SdEventGroupEntryType::SubscribeAck
                },
                index_first_option_run: b[1],
                index_second_option_run: b[2],
                number_of_options_1: b[3] >> 4,
                number_of_options_2: b[3] & 0x0f,
                service_id: be16(b[4], b[5]),
                instance_id: be16(b[6], b[7]),
                major_version: b[8],
                ttl: be32(0, b[9], b[10], b[11]),
                initial_data_requested: (b[13] & 0x80) != 0,
                counter: b[13] & 0x0f,
                eventgroup_id: be16(b[14], b[15]),
            },
        )
    } else {
        Err(err::ReadError::UnknownSdServiceEntryType(b[0]))
    }
}

impl SomeIpSdEntry {
    /// Creates a service entry, rejecting a TTL above 24 bits and option
    /// counts above 4 bits — exactly in that order.
    pub fn new_service_entry(
        entry_type: SdServiceEntryType,
        index_first_option_run: u8,
        index_second_option_run: u8,
        number_of_options_1: u8,
        number_of_options_2: u8,
        service_id: u16,
        instance_id: u16,
        major_version: u8,
        ttl: u32,
        minor_version: u32,
    ) -> (r: Result<Self, err::ValueError>)
        ensures
            ttl > 0xff_ffff ==> r == Err::<Self, _>(err::ValueError::TtlTooLarge(ttl)),
            (ttl <= 0xff_ffff && number_of_options_1 > 0x0f) ==> r == Err::<Self, _>(
                err::ValueError::NumberOfOption1TooLarge(number_of_options_1),
            ),
            (ttl <= 0xff_ffff && number_of_options_1 <= 0x0f && number_of_options_2 > 0x0f) ==> r
                == Err::<Self, _>(err::ValueError::NumberOfOption2TooLarge(number_of_options_2)),
            (ttl <= 0xff_ffff && number_of_options_1 <= 0x0f && number_of_options_2 <= 0x0f) ==> r
                == Ok::<_, err::ValueError>(SomeIpSdEntry::Service {
                entry_type,
                index_first_option_run,
                index_second_option_run,
                number_of_options_1,
                number_of_options_2,
                service_id,
                instance_id,
                major_version,
                ttl,
                minor_version,
            }),
    {
        if ttl > 0x00ff_ffff {
            Err(err::ValueError::TtlTooLarge(ttl))
        } else if number_of_options_1 > 0x0f {
            Err(err::ValueError::NumberOfOption1TooLarge(number_of_options_1))
        } else if number_of_options_2 > 0x0f {
            Err(err::ValueError::NumberOfOption2TooLarge(number_of_options_2))
        } else {
            Ok(
                SomeIpSdEntry::Service {
                    entry_type,
                    index_first_option_run,
                    index_second_option_run,
                    number_of_options_1,
                    number_of_options_2,
                    service_id,
                    instance_id,
                    major_version,
                    ttl,
                    minor_version,
                },
            )
        }
    }

    /// Creates a find-service entry. The TTL must not be 0, which would
    /// indicate a stop offering.
    pub fn new_find_service_entry(
        index_first_option_run: u8,
        index_second_option_run: u8,
        number_of_options_1: u8,
        number_of_options_2: u8,
        service_id: u16,
        instance_id: u16,
        major_version: u8,
        ttl: u32,
        minor_version: u32,
    ) -> (r: Result<Self, err::ValueError>)
        ensures
            ttl == 0 ==> r == Err::<Self, _>(err::ValueError::TtlZeroIndicatesStopOffering),
            (ttl != 0 && ttl > 0xff_ffff) ==> r == Err::<Self, _>(err::ValueError::TtlTooLarge(
                ttl,
            )),
            (ttl != 0 && ttl <= 0xff_ffff && number_of_options_1 > 0x0f) ==> r == Err::<Self, _>(
                err::ValueError::NumberOfOption1TooLarge(number_of_options_1),
            ),
            (ttl != 0 && ttl <= 0xff_ffff && number_of_options_1 <= 0x0f && number_of_options_2
                > 0x0f) ==> r == Err::<Self, _>(err::ValueError::NumberOfOption2TooLarge(
                number_of_options_2,
            )),
            (ttl != 0 && ttl <= 0xff_ffff && number_of_options_1 <= 0x0f && number_of_options_2
                <= 0x0f) ==> r == Ok::<_, err::ValueError>(SomeIpSdEntry::Service {
                entry_type: SdServiceEntryType::FindService,
                index_first_option_run,
                index_second_option_run,
                number_of_options_1,
                number_of_options_2,
                service_id,
                instance_id,
                major_version,
                ttl,
                minor_version,
            }),
    {
        if ttl == 0 {
            Err(err::ValueError::TtlZeroIndicatesStopOffering)
        } else {
            Self::new_service_entry(
                SdServiceEntryType::FindService,
                index_first_option_run,
                index_second_option_run,
                number_of_options_1,
                number_of_options_2,
                service_id,
                instance_id,
                major_version,
                ttl,
                minor_version,
            )
        }
    }

    /// Creates an offer-service entry. The TTL must not be 0, which would
    /// indicate a stop offering; use
    /// [`SomeIpSdEntry::new_stop_offer_service_entry`] for the stop case.
    pub fn new_offer_service_entry(
        index_first_option_run: u8,
        index_second_option_run: u8,
        number_of_options_1: u8,
        number_of_options_2: u8,
        service_id: u16,
        instance_id: u16,
        major_version: u8,
        ttl: u32,
        minor_version: u32,
    ) -> (r: Result<Self, err::ValueError>)
        ensures
            ttl == 0 ==> r == Err::<Self, _>(err::ValueError::TtlZeroIndicatesStopOffering),
            (ttl != 0 && ttl > 0xff_ffff) ==> r == Err::<Self, _>(err::ValueError::TtlTooLarge(
                ttl,
            )),
            (ttl != 0 && ttl <= 0xff_ffff && number_of_options_1 > 0x0f) ==> r == Err::<Self, _>(
                err::ValueError::NumberOfOption1TooLarge(number_of_options_1),
            ),
            (ttl != 0 && ttl <= 0xff_ffff && number_of_options_1 <= 0x0f && number_of_options_2
                > 0x0f) ==> r == Err::<Self, _>(err::ValueError::NumberOfOption2TooLarge(
                number_of_options_2,
            )),
            (ttl != 0 && ttl <= 0xff_ffff && number_of_options_1 <= 0x0f && number_of_options_2
                <= 0x0f) ==> r == Ok::<_, err::ValueError>(SomeIpSdEntry::Service {
                entry_type: SdServiceEntryType::OfferService,
                index_first_option_run,
                index_second_option_run,
                number_of_options_1,
                number_of_options_2,
                service_id,
                instance_id,
                major_version,
                ttl,
                minor_version,
            }),
    {
        if ttl == 0 {
            Err(err::ValueError::TtlZeroIndicatesStopOffering)
        } else {
            Self::new_service_entry(
                SdServiceEntryType::OfferService,
                index_first_option_run,
                index_second_option_run,
                number_of_options_1,
                number_of_options_2,
                service_id,
                instance_id,
                major_version,
                ttl,
                minor_version,
            )
        }
    }

    /// Creates an offer-service entry with TTL 0, which tells receivers to
    /// stop offering the given service.
    pub fn new_stop_offer_service_entry(
        index_first_option_run: u8,
        index_second_option_run: u8,
        number_of_options_1: u8,
        number_of_options_2: u8,
        service_id: u16,
        instance_id: u16,
        major_version: u8,
        minor_version: u32,
    ) -> (r: Result<Self, err::ValueError>)
        ensures
            number_of_options_1 > 0x0f ==> r == Err::<Self, _>(
                err::ValueError::NumberOfOption1TooLarge(number_of_options_1),
            ),
            (number_of_options_1 <= 0x0f && number_of_options_2 > 0x0f) ==> r == Err::<Self, _>(
                err::ValueError::NumberOfOption2TooLarge(number_of_options_2),
            ),
            (number_of_options_1 <= 0x0f && number_of_options_2 <= 0x0f) ==> r == Ok::<
                _,
                err::ValueError,
            >(SomeIpSdEntry::Service {
                entry_type: SdServiceEntryType::OfferService,
                index_first_option_run,
                index_second_option_run,
                number_of_options_1,
                number_of_options_2,
                service_id,
                instance_id,
                major_version,
                ttl: 0u32,
                minor_version,
            }),
    {
        Self::new_service_entry(
            SdServiceEntryType::OfferService,
            index_first_option_run,
            index_second_option_run,
            number_of_options_1,
            number_of_options_2,
            service_id,
            instance_id,
            major_version,
            0x00,
            minor_version,
        )
    }

    /// Creates an eventgroup entry, rejecting a counter above 4 bits, a TTL
    /// above 24 bits and option counts above 4 bits — exactly in that order.
    pub fn new_eventgroup(
        entry_type: SdEventGroupEntryType,
        index_first_option_run: u8,
        index_second_option_run: u8,
        number_of_options_1: u8,
        number_of_options_2: u8,
        service_id: u16,
        instance_id: u16,
        major_version: u8,
        ttl: u32,
        initial_data_requested: bool,
        counter: u8,
        eventgroup_id: u16,
    ) -> (r: Result<Self, err::ValueError>)
        ensures
            counter > 0x0f ==> r == Err::<Self, _>(err::ValueError::CounterTooLarge(counter)),
            (counter <= 0x0f && ttl > 0xff_ffff) ==> r == Err::<Self, _>(
                err::ValueError::TtlTooLarge(ttl),
            ),
            (counter <= 0x0f && ttl <= 0xff_ffff && number_of_options_1 > 0x0f) ==> r == Err::<
                Self,
                _,
            >(err::ValueError::NumberOfOption1TooLarge(number_of_options_1)),
            (counter <= 0x0f && ttl <= 0xff_ffff && number_of_options_1 <= 0x0f
                && number_of_options_2 > 0x0f) ==> r == Err::<Self, _>(
                err::ValueError::NumberOfOption2TooLarge(number_of_options_2),
            ),
            (counter <= 0x0f && ttl <= 0xff_ffff && number_of_options_1 <= 0x0f
                && number_of_options_2 <= 0x0f) ==> r == Ok::<_, err::ValueError>(
                SomeIpSdEntry::Eventgroup {
                    entry_type,
                    index_first_option_run,
                    index_second_option_run,
                    number_of_options_1,
                    number_of_options_2,
                    service_id,
                    instance_id,
                    major_version,
                    ttl,
                    initial_data_requested,
                    counter,
                    eventgroup_id,
                },
            ),
    {
        if counter > 0x0f {
            Err(err::ValueError::CounterTooLarge(counter))
        } else if ttl > 0x00ff_ffff {
            Err(err::ValueError::TtlTooLarge(ttl))
        } else if number_of_options_1 > 0x0f {
            Err(err::ValueError::NumberOfOption1TooLarge(number_of_options_1))
        } else if number_of_options_2 > 0x0f {
            Err(err::ValueError::NumberOfOption2TooLarge(number_of_options_2))
        } else {
            Ok(
                SomeIpSdEntry::Eventgroup {
                    entry_type,
                    index_first_option_run,
                    index_second_option_run,
                    number_of_options_1,
                    number_of_options_2,
                    service_id,
                    instance_id,
                    major_version,
                    ttl,
                    initial_data_requested,
                    counter,
                    eventgroup_id,
                },
            )
        }
    }

    /// Parses one 16-byte entry record: byte 0 selects the entry shape, an
    /// unknown discriminator is rejected.
    pub fn read(entry_bytes: &[u8; 16]) -> (r: Result<Self, err::ReadError>)
        ensures
            r == spec_parse_sd_entry(entry_bytes@),
    {
        let type_raw = entry_bytes[0];
        match type_raw {
            0x00 => Self::read_service(SdServiceEntryType::FindService, entry_bytes),
            0x01 => Self::read_service(SdServiceEntryType::OfferService, entry_bytes),
            0x06 => Self::read_entry_group(SdEventGroupEntryType::Subscribe, entry_bytes),
            0x07 => Self::read_entry_group(SdEventGroupEntryType::SubscribeAck, entry_bytes),
            _ => Err(err::ReadError::UnknownSdServiceEntryType(type_raw)),
        }
    }

    /// Decodes the 16 bytes of a service entry with the given type.
    pub fn read_service(entry_type: SdServiceEntryType, entry_bytes: &[u8; 16]) -> (r: Result<
        Self,
        err::ReadError,
    >)
        requires
            spec_service_entry_type_raw(entry_type) == entry_bytes@[0],
        ensures
            r == spec_parse_sd_entry(entry_bytes@),
    {
        Ok(
            Self::Service {
                entry_type,
                index_first_option_run: entry_bytes[1],
                index_second_option_run: entry_bytes[2],
                number_of_options_1: entry_bytes[3] >> 4,
                number_of_options_2: entry_bytes[3] & 0x0f,
                service_id: read_be_u16(entry_bytes[4], entry_bytes[5]),
                instance_id: read_be_u16(entry_bytes[6], entry_bytes[7]),
                major_version: entry_bytes[8],
                ttl: read_be_u32(0x00, entry_bytes[9], entry_bytes[10], entry_bytes[11]),
                minor_version: read_be_u32(
                    entry_bytes[12],
                    entry_bytes[13],
                    entry_bytes[14],
                    entry_bytes[15],
                ),
            },
        )
    }

    /// Decodes the 16 bytes of an eventgroup entry with the given type. The
    /// reserved byte and the reserved bits beside the counter are ignored.
    pub fn read_entry_group(entry_type: SdEventGroupEntryType, entry_bytes: &[u8; 16]) -> (r:
        Result<Self, err::ReadError>)
        requires
            spec_eventgroup_entry_type_raw(entry_type) == entry_bytes@[0],
        ensures
            r == spec_parse_sd_entry(entry_bytes@),
    {
        Ok(
            Self::Eventgroup {
                entry_type,
                index_first_option_run: entry_bytes[1],
                index_second_option_run: entry_bytes[2],
                number_of_options_1: entry_bytes[3] >> 4,
                number_of_options_2: entry_bytes[3] & 0x0f,
                service_id: read_be_u16(entry_bytes[4], entry_bytes[5]),
                instance_id: read_be_u16(entry_bytes[6], entry_bytes[7]),
                major_version: entry_bytes[8],
                ttl: read_be_u32(0x00, entry_bytes[9], entry_bytes[10], entry_bytes[11]),
                initial_data_requested: 0 != entry_bytes[13]
                    & EVENT_ENTRY_INITIAL_DATA_REQUESTED_FLAG,
                counter: entry_bytes[13] & 0x0f,
                eventgroup_id: read_be_u16(entry_bytes[14], entry_bytes[15]),
            },
        )
    }

    /// Appends the entry's 16 wire bytes to the given buffer.
    pub fn write_raw(&self, buffer: &mut Vec<u8>)
        ensures
            final(buffer)@ == old(buffer)@ + spec_sd_entry_bytes(*self),
    {
        let bytes = self.to_bytes();
        let mut i: usize = 0;
        while i < 16
            invariant
                i <= 16,
                bytes@ == spec_sd_entry_bytes(*self),
                buffer@ == old(buffer)@ + bytes@.take(i as int),
            decreases 16 - i,
        {
            buffer.push(bytes[i]);
            proof {
                assert(buffer@ =~= old(buffer)@ + bytes@.take(i + 1 as int));
            }
            i += 1;
        }
        proof {
            assert(bytes@.take(16) =~= bytes@);
        }
    }

    /// Encodes the entry as its 16 wire bytes. Nibble fields and the 24-bit
    /// TTL are masked to their wire width.
    pub fn to_bytes(&self) -> (r: [u8; 16])
        ensures
            r@ == spec_sd_entry_bytes(*self),
    {
        match self {
            SomeIpSdEntry::Service {
                entry_type,
                index_first_option_run,
                index_second_option_run,
                number_of_options_1,
                number_of_options_2,
                service_id,
                instance_id,
                major_version,
                ttl,
                minor_version,
            } => {
                let type_raw: u8 = match entry_type {
                    SdServiceEntryType::FindService => 0x00,
                    SdServiceEntryType::OfferService => 0x01,
                };
                let (s0, s1) = split_be_u16(*service_id);
                let (i0, i1) = split_be_u16(*instance_id);
                let (_, t1, t2, t3) = split_be_u32(*ttl);
                let (m0, m1, m2, m3) = split_be_u32(*minor_version);
                let result = [
                    type_raw,
                    *index_first_option_run,
                    *index_second_option_run,
                    (*number_of_options_1 << 4) | (*number_of_options_2 & 0x0f),
                    s0,
                    s1,
                    i0,
                    i1,
                    *major_version,
                    t1,
                    t2,
                    t3,
                    m0,
                    m1,
                    m2,
                    m3,
                ];
                proof {
                    assert(result@ =~= spec_sd_entry_bytes(*self));
                }
                result
            },
            SomeIpSdEntry::Eventgroup {
                entry_type,
                index_first_option_run,
                index_second_option_run,
                number_of_options_1,
                number_of_options_2,
                service_id,
                instance_id,
                major_version,
                ttl,
                initial_data_requested,
                counter,
                eventgroup_id,
            } => {
                let type_raw: u8 = match entry_type {
                    SdEventGroupEntryType::Subscribe => 0x06,
                    SdEventGroupEntryType::SubscribeAck => 0x07,
                };
                let (s0, s1) = split_be_u16(*service_id);
                let (i0, i1) = split_be_u16(*instance_id);
                let (_, t1, t2, t3) = split_be_u32(*ttl);
                let (e0, e1) = split_be_u16(*eventgroup_id);
                let byte13 = if *initial_data_requested {
                    EVENT_ENTRY_INITIAL_DATA_REQUESTED_FLAG | (*counter & 0x0f)
                } else {
                    *counter & 0x0f
                };
                let result = [
                    type_raw,
                    *index_first_option_run,
                    *index_second_option_run,
                    (*number_of_options_1 << 4) | (*number_of_options_2 & 0x0f),
                    s0,
                    s1,
                    i0,
                    i1,
                    *major_version,
                    t1,
                    t2,
                    t3,
                    0x00,
                    byte13,
                    e0,
                    e1,
                ];
                proof {
                    assert(result@ =~= spec_sd_entry_bytes(*self));
                }
                result
            },
        }
    }
}

/// A SOME/IP service discovery option: a length-prefixed, typed record.
///
/// IP addresses are carried as their wire bytes. An unknown option type
/// whose discardable flag is set is retained as an `UnknownDiscardable`
/// placeholder so that the entries' indexes into the options array stay
/// valid; writing such a placeholder is an error.
#[derive(Clone, Debug, Eq, PartialEq)]
pub enum SomeIpSdOption {
    /// Arbitrary configuration strings (DNS-SD style), passed through
    /// opaquely.
    Configuration { configuration_string: Vec<u8> },
    LoadBalancing { priority: u16, weight: u16 },
    Ipv4Endpoint {
        ipv4_address: [u8; 4],
        transport_protocol: TransportProtocol,
        transport_protocol_number: u16,
    },
    Ipv6Endpoint {
        ipv6_address: [u8; 16],
        transport_protocol: TransportProtocol,
        transport_protocol_number: u16,
    },
    Ipv4Multicast {
        ipv4_address: [u8; 4],
        transport_protocol: TransportProtocol,
        transport_protocol_number: u16,
    },
    Ipv6Multicast {
        ipv6_address: [u8; 16],
        transport_protocol: TransportProtocol,
        transport_protocol_number: u16,
    },
    Ipv4SdEndpoint {
        ipv4_address: [u8; 4],
        transport_protocol: TransportProtocol,
        transport_protocol_number: u16,
    },
    Ipv6SdEndpoint {
        ipv6_address: [u8; 16],
        transport_protocol: TransportProtocol,
        transport_protocol_number: u16,
    },
    /// An option of an unknown type whose discardable flag was set, kept as
    /// an opaque placeholder. It can be read but not written.
    UnknownDiscardable { length: u16, option_type: u8 },
}

/// The 4-byte prefix and IP payload of an endpoint option: length, type,
/// a zero reserved byte, the address bytes, another zero reserved byte, the
/// protocol number and the port.
pub open spec fn spec_ip_option_bytes(
    length: u16,
    option_type: u8,
    address: Seq<u8>,
    tp: TransportProtocol,
    port: u16,
) -> Seq<u8> {
    seq![be16_hi(length), be16_lo(length), option_type, 0u8] + address + seq![
        0u8,
        spec_transport_protocol_raw(tp),
        be16_hi(port),
        be16_lo(port),
    ]
}

/// The bytes a writable SD option is written as. The placeholder arm of an
/// `UnknownDiscardable` option is never written (writing it fails), so its
/// value here is the empty sequence and no contract relies on it.
pub open spec fn spec_sd_option_bytes(o: SomeIpSdOption) -> Seq<u8> {
    match o {
        SomeIpSdOption::Configuration { configuration_string } => seq![
            be16_hi((1 + configuration_string.len()) as u16),
            be16_lo((1 + configuration_string.len()) as u16),
            0x01u8,
            0u8,
        ] + configuration_string@,
        SomeIpSdOption::LoadBalancing { priority, weight } => seq![
            0u8,
            5u8,
            0x02u8,
            0u8,
            be16_hi(priority),
            be16_lo(priority),
            be16_hi(weight),
            be16_lo(weight),
        ],
        SomeIpSdOption::Ipv4Endpoint { ipv4_address, transport_protocol, transport_protocol_number } => spec_ip_option_bytes(
            9,
            0x04,
            ipv4_address@,
            transport_protocol,
            transport_protocol_number,
        ),
        SomeIpSdOption::Ipv6Endpoint { ipv6_address, transport_protocol, transport_protocol_number } => spec_ip_option_bytes(
            21,
            0x06,
            ipv6_address@,
            transport_protocol,
            transport_protocol_number,
        ),
        SomeIpSdOption::Ipv4Multicast { ipv4_address, transport_protocol, transport_protocol_number } => spec_ip_option_bytes(
            9,
            0x14,
            ipv4_address@,
            transport_protocol,
            transport_protocol_number,
        ),
        SomeIpSdOption::Ipv6Multicast { ipv6_address, transport_protocol, transport_protocol_number } => spec_ip_option_bytes(
            21,
            0x16,
            ipv6_address@,
            transport_protocol,
            transport_protocol_number,
        ),
        SomeIpSdOption::Ipv4SdEndpoint { ipv4_address, transport_protocol, transport_protocol_number } => spec_ip_option_bytes(
            9,
            0x24,
            ipv4_address@,
            transport_protocol,
            transport_protocol_number,
        ),
        SomeIpSdOption::Ipv6SdEndpoint { ipv6_address, transport_protocol, transport_protocol_number } => spec_ip_option_bytes(
            21,
            0x26,
            ipv6_address@,
            transport_protocol,
            transport_protocol_number,
        ),
        SomeIpSdOption::UnknownDiscardable { .. } => Seq::empty(),
    }
}

/// The option type byte of an SD option.
pub open spec fn spec_sd_option_raw_type(o: SomeIpSdOption) -> u8 {
    match o {
        SomeIpSdOption::Configuration { .. } => 0x01,
        SomeIpSdOption::LoadBalancing { .. } => 0x02,
        SomeIpSdOption::Ipv4Endpoint { .. } => 0x04,
        SomeIpSdOption::Ipv6Endpoint { .. } => 0x06,
        SomeIpSdOption::Ipv4Multicast { .. } => 0x14,
        SomeIpSdOption::Ipv6Multicast { .. } => 0x16,
        SomeIpSdOption::Ipv4SdEndpoint { .. } => 0x24,
        SomeIpSdOption::Ipv6SdEndpoint { .. } => 0x26,
        SomeIpSdOption::UnknownDiscardable { option_type, .. } => option_type,
    }
}

/// Whether an option can be written: placeholders cannot, and a
/// configuration string must fit the 16-bit length field together with the
/// reserved byte counted in it.
pub open spec fn spec_sd_option_writable(o: SomeIpSdOption) -> bool {
    match o {
        SomeIpSdOption::UnknownDiscardable { .. } => false,
        SomeIpSdOption::Configuration { configuration_string } => configuration_string.len()
            <= 0xfffe,
        _ => true,
    }
}

/// The number of bytes one SD option at the start of `b` occupies (3 plus
/// the wire length field), or the error rejecting it.
///
/// A slice too short for the prefix or the declared length is rejected with
/// the required length; a zero length, a known type whose length does not
/// match its fixed size, and an unknown type without the discardable flag
/// are rejected as the respective content errors.
pub open spec fn spec_parse_sd_option_len(b: Seq<u8>) -> Result<int, err::ReadError> {
    if b.len() < 4 {
        Err(err::ReadError::UnexpectedEndOfSlice(4))
    } else {
        let length = be16(b[0], b[1]);
        let t = b[2];
        let flags = b[3];
        if t != 0x01 && t != 0x02 && t != 0x04 && t != 0x14 && t != 0x24 && t != 0x06 && t != 0x16
            && t != 0x26 && (flags & SD_OPTION_DISCARDABLE_FLAG) == 0 {
            Err(err::ReadError::UnknownSdOptionType(t))
        } else if length == 0 {
            Err(err::ReadError::SdOptionLengthZero)
        } else if t == 0x01 || ((flags & SD_OPTION_DISCARDABLE_FLAG) != 0 && t != 0x02 && t != 0x04
            && t != 0x14 && t != 0x24 && t != 0x06 && t != 0x16 && t != 0x26) {
            if b.len() < 3 + length {
                Err(err::ReadError::UnexpectedEndOfSlice((3 + length) as usize))
            } else {
                Ok(3 + length as int)
            }
        } else if t == 0x02 {
            if length != 5 {
                Err(
                    err::ReadError::SdOptionUnexpectedLen {
                        expected_len: 5,
                        actual_len: length,
                        option_type: t,
                    },
                )
            } else if b.len() < 8 {
                Err(err::ReadError::UnexpectedEndOfSlice(8))
            } else {
                Ok(8int)
            }
        } else if t == 0x04 || t == 0x14 || t == 0x24 {
            if length != 9 {
                Err(
                    err::ReadError::SdOptionUnexpectedLen {
                        expected_len: 9,
                        actual_len: length,
                        option_type: t,
                    },
                )
            } else if b.len() < 12 {
                Err(err::ReadError::UnexpectedEndOfSlice(12))
            } else {
                Ok(12int)
            }
        } else if t == 0x06 || t == 0x16 || t == 0x26 {
            if length != 21 {
                Err(
                    err::ReadError::SdOptionUnexpectedLen {
                        expected_len: 21,
                        actual_len: length,
                        option_type: t,
                    },
                )
            } else if b.len() < 24 {
                Err(err::ReadError::UnexpectedEndOfSlice(24))
            } else {
                Ok(24int)
            }
        } else {
            Err(err::ReadError::UnknownSdOptionType(t))
        }
    }
}

/// Whether `o` is the option that the start of `b` decodes to. The
/// configuration string is compared by its bytes.
pub open spec fn spec_parsed_sd_option(b: Seq<u8>, o: SomeIpSdOption) -> bool
    recommends
        spec_parse_sd_option_len(b) is Ok,
{
    let length = be16(b[0], b[1]);
    let t = b[2];
    if t == 0x01 {
        o matches SomeIpSdOption::Configuration { configuration_string }
            && configuration_string@ == b.subrange(4, 3 + length as int)
    } else if t == 0x02 {
        o == (SomeIpSdOption::LoadBalancing { priority: be16(b[4], b[5]), weight: be16(b[6], b[7]) })
    } else if t == 0x04 || t == 0x14 || t == 0x24 {
        let address = [b[4], b[5], b[6], b[7]];
        let tp = spec_transport_protocol_of_raw(b[9]);
        let port = be16(b[10], b[11]);
        if t == 0x04 {
            o == (SomeIpSdOption::Ipv4Endpoint {
                ipv4_address: address,
                transport_protocol: tp,
                transport_protocol_number: port,
            })
        } else if t == 0x14 {
            o == (SomeIpSdOption::Ipv4Multicast {
                ipv4_address: address,
                transport_protocol: tp,
                transport_protocol_number: port,
            })
        } else {
            o == (SomeIpSdOption::Ipv4SdEndpoint {
                ipv4_address: address,
                transport_protocol: tp,
                transport_protocol_number: port,
            })
        }
    } else if t == 0x06 || t == 0x16 || t == 0x26 {
        let address = spec_sixteen(b);
        let tp = spec_transport_protocol_of_raw(b[21]);
        let port = be16(b[22], b[23]);
        if t == 0x06 {
            o == (SomeIpSdOption::Ipv6Endpoint {
                ipv6_address: address,
                transport_protocol: tp,
                transport_protocol_number: port,
            })
        } else if t == 0x16 {
            o == (SomeIpSdOption::Ipv6Multicast {
                ipv6_address: address,
                transport_protocol: tp,
                transport_protocol_number: port,
            })
        } else {
            o == (SomeIpSdOption::Ipv6SdEndpoint {
                ipv6_address: address,
                transport_protocol: tp,
                transport_protocol_number: port,
            })
        }
    } else {
        o == (SomeIpSdOption::UnknownDiscardable { length, option_type: t })
    }
}

/// The 16 address bytes of an IPv6 option, taken from positions 4 to 19.
pub open spec fn spec_sixteen(b: Seq<u8>) -> [u8; 16]
    recommends
        b.len() >= 20,
{
    [
        b[4],
        b[5],
        b[6],
        b[7],
        b[8],
        b[9],
        b[10],
        b[11],
        b[12],
        b[13],
        b[14],
        b[15],
        b[16],
        b[17],
        b[18],
        b[19],
    ]
}

impl SomeIpSdOption {
    /// Parses one SD option from the start of the slice, returning the
    /// number of consumed bytes and the decoded option: the consumed length
    /// and the errors follow [`spec_parse_sd_option_len`], and the decoded
    /// option is the one [`spec_parsed_sd_option`] describes.
    pub fn read(slice: &[u8]) -> (r: Result<(usize, SomeIpSdOption), err::ReadError>)
        ensures
            (spec_parse_sd_option_len(slice@) matches Ok(n) ==> (r matches Ok(q) && q.0 == n
                && spec_parsed_sd_option(slice@, q.1))),
            (spec_parse_sd_option_len(slice@) matches Err(e) ==> (r matches Err(e2) && e2 == e)),
    {
        if slice.len() < 4 {
            return Err(err::ReadError::UnexpectedEndOfSlice(4));
        }
        let length = read_be_u16(slice[0], slice[1]);
        let t = slice[2];
        let flags = slice[3];
        if t != 0x01 && t != 0x02 && t != 0x04 && t != 0x14 && t != 0x24 && t != 0x06 && t != 0x16
            && t != 0x26 && (flags & SD_OPTION_DISCARDABLE_FLAG) == 0 {
            return Err(err::ReadError::UnknownSdOptionType(t));
        }
        if length == 0 {
            return Err(err::ReadError::SdOptionLengthZero);
        }
        let length_usize = length as usize;
        if t == 0x01 {
            if slice.len() < 3 + length_usize {
                return Err(err::ReadError::UnexpectedEndOfSlice(3 + length_usize));
            }
            let mut configuration_string: Vec<u8> = Vec::new();
            let mut i: usize = 4;
            while i < 3 + length_usize
                invariant
                    length_usize <= 0xffff,
                    4 <= i <= 3 + length_usize,
                    3 + length_usize <= slice@.len(),
                    configuration_string@ == slice@.subrange(4, i as int),
                decreases 3 + length_usize - i,
            {
                configuration_string.push(slice[i]);
                proof {
                    assert(configuration_string@ =~= slice@.subrange(4, i + 1 as int));
                }
                i += 1;
            }
            Ok((3 + length_usize, SomeIpSdOption::Configuration { configuration_string }))
        } else if t == 0x02 {
            if length != 5 {
                return Err(
                    err::ReadError::SdOptionUnexpectedLen {
                        expected_len: 5,
                        actual_len: length,
                        option_type: t,
                    },
                );
            }
            if slice.len() < 8 {
                return Err(err::ReadError::UnexpectedEndOfSlice(8));
            }
            Ok(
                (
                    8,
                    SomeIpSdOption::LoadBalancing {
                        priority: read_be_u16(slice[4], slice[5]),
                        weight: read_be_u16(slice[6], slice[7]),
                    },
                ),
            )
        } else if t == 0x04 || t == 0x14 || t == 0x24 {
            if length != 9 {
                return Err(
                    err::ReadError::SdOptionUnexpectedLen {
                        expected_len: 9,
                        actual_len: length,
                        option_type: t,
                    },
                );
            }
            if slice.len() < 12 {
                return Err(err::ReadError::UnexpectedEndOfSlice(12));
            }
            let ipv4_address = [slice[4], slice[5], slice[6], slice[7]];
            let transport_protocol = transport_protocol_of_raw(slice[9]);
            let transport_protocol_number = read_be_u16(slice[10], slice[11]);
            let option = if t == 0x04 {
                SomeIpSdOption::Ipv4Endpoint {
                    ipv4_address,
                    transport_protocol,
                    transport_protocol_number,
                }
            } else if t == 0x14 {
                SomeIpSdOption::Ipv4Multicast {
                    ipv4_address,
                    transport_protocol,
                    transport_protocol_number,
                }
            } else {
                SomeIpSdOption::Ipv4SdEndpoint {
                    ipv4_address,
                    transport_protocol,
                    transport_protocol_number,
                }
            };
            Ok((12, option))
        } else if t == 0x06 || t == 0x16 || t == 0x26 {
            if length != 21 {
                return Err(
                    err::ReadError::SdOptionUnexpectedLen {
                        expected_len: 21,
                        actual_len: length,
                        option_type: t,
                    },
                );
            }
            if slice.len() < 24 {
                return Err(err::ReadError::UnexpectedEndOfSlice(24));
            }
            let ipv6_address = [
                slice[4],
                slice[5],
                slice[6],
                slice[7],
                slice[8],
                slice[9],
                slice[10],
                slice[11],
                slice[12],
                slice[13],
                slice[14],
                slice[15],
                slice[16],
                slice[17],
                slice[18],
                slice[19],
            ];
            let transport_protocol = transport_protocol_of_raw(slice[21]);
            let transport_protocol_number = read_be_u16(slice[22], slice[23]);
            let option = if t == 0x06 {
                SomeIpSdOption::Ipv6Endpoint {
                    ipv6_address,
                    transport_protocol,
                    transport_protocol_number,
                }
            } else if t == 0x16 {
                SomeIpSdOption::Ipv6Multicast {
                    ipv6_address,
                    transport_protocol,
                    transport_protocol_number,
                }
            } else {
                SomeIpSdOption::Ipv6SdEndpoint {
                    ipv6_address,
                    transport_protocol,
                    transport_protocol_number,
                }
            };
            Ok((24, option))
        } else if (flags & SD_OPTION_DISCARDABLE_FLAG) != 0 {
            if slice.len() < 3 + length_usize {
                return Err(err::ReadError::UnexpectedEndOfSlice(3 + length_usize));
            }
            Ok((3 + length_usize, SomeIpSdOption::UnknownDiscardable { length, option_type: t }))
        } else {
            Err(err::ReadError::UnknownSdOptionType(t))
        }
    }

    /// Appends the option's wire bytes to the given buffer. An
    /// `UnknownDiscardable` placeholder cannot be written and fails with
    /// `SdUnknownDiscardableOption`, leaving the buffer untouched.
    pub fn write_raw(&self, buffer: &mut Vec<u8>) -> (r: Result<(), err::ValueError>)
        requires
            self matches SomeIpSdOption::Configuration { configuration_string } ==> configuration_string@.len() <= 0xfffe,
        ensures
            (self matches SomeIpSdOption::UnknownDiscardable { option_type, .. } ==> (r == Err::<
                (),
                _,
            >(err::ValueError::SdUnknownDiscardableOption(*option_type)) && final(buffer)@ == old(
                buffer,
            )@)),
            (!(self is UnknownDiscardable) ==> (r is Ok && final(buffer)@ == old(buffer)@
                + spec_sd_option_bytes(*self))),
    {
        let bytes = match self.to_bytes() {
            Ok(v) => v,
            Err(e) => {
                return Err(e);
            },
        };
        let mut i: usize = 0;
        while i < bytes.len()
            invariant
                i <= bytes@.len(),
                bytes@ == spec_sd_option_bytes(*self),
                buffer@ == old(buffer)@ + bytes@.take(i as int),
            decreases bytes@.len() - i,
        {
            buffer.push(bytes[i]);
            proof {
                assert(buffer@ =~= old(buffer)@ + bytes@.take(i + 1 as int));
            }
            i += 1;
        }
        proof {
            assert(bytes@.take(bytes@.len() as int) =~= bytes@);
        }
        Ok(())
    }

    /// Encodes the option as its wire bytes. An `UnknownDiscardable`
    /// placeholder cannot be written and fails with
    /// `SdUnknownDiscardableOption`; a configuration string must fit the
    /// 16-bit length field.
    pub fn to_bytes(&self) -> (r: Result<Vec<u8>, err::ValueError>)
        requires
            self matches SomeIpSdOption::Configuration { configuration_string } ==> configuration_string@.len() <= 0xfffe,
        ensures
            (self matches SomeIpSdOption::UnknownDiscardable { option_type, .. } ==> r == Err::<
                Vec<u8>,
                _,
            >(err::ValueError::SdUnknownDiscardableOption(*option_type))),
            (!(self is UnknownDiscardable) ==> (r matches Ok(v) && v@ == spec_sd_option_bytes(
                *self,
            ))),
    {
        let mut buffer: Vec<u8> = Vec::new();
        match self {
            SomeIpSdOption::Configuration { configuration_string } => {
                let length: u16 = 1 + configuration_string.len() as u16;
                let (l0, l1) = split_be_u16(length);
                buffer.push(l0);
                buffer.push(l1);
                buffer.push(0x01);
                buffer.push(0x00);
                let mut i: usize = 0;
                while i < configuration_string.len()
                    invariant
                        i <= configuration_string@.len(),
                        buffer@ == seq![
                            be16_hi((1 + configuration_string@.len()) as u16),
                            be16_lo((1 + configuration_string@.len()) as u16),
                            0x01u8,
                            0u8,
                        ] + configuration_string@.take(i as int),
                    decreases configuration_string@.len() - i,
                {
                    buffer.push(configuration_string[i]);
                    proof {
                        assert(buffer@ =~= seq![
                            be16_hi((1 + configuration_string@.len()) as u16),
                            be16_lo((1 + configuration_string@.len()) as u16),
                            0x01u8,
                            0u8,
                        ] + configuration_string@.take(i + 1 as int));
                    }
                    i += 1;
                }
                proof {
                    assert(buffer@ =~= spec_sd_option_bytes(*self));
                }
                Ok(buffer)
            },
            SomeIpSdOption::LoadBalancing { priority, weight } => {
                buffer.push(0x00);
                buffer.push(0x05);
                buffer.push(0x02);
                buffer.push(0x00);
                let (p0, p1) = split_be_u16(*priority);
                let (w0, w1) = split_be_u16(*weight);
                buffer.push(p0);
                buffer.push(p1);
                buffer.push(w0);
                buffer.push(w1);
                proof {
                    assert(buffer@ =~= spec_sd_option_bytes(*self));
                }
                Ok(buffer)
            },
            SomeIpSdOption::Ipv4Endpoint { ipv4_address, transport_protocol, transport_protocol_number } => {
                push_ip4_option(
                    &mut buffer,
                    0x04,
                    ipv4_address,
                    *transport_protocol,
                    *transport_protocol_number,
                );
                proof {
                    assert(buffer@ =~= spec_sd_option_bytes(*self));
                }
                Ok(buffer)
            },
            SomeIpSdOption::Ipv4Multicast { ipv4_address, transport_protocol, transport_protocol_number } => {
                push_ip4_option(
                    &mut buffer,
                    0x14,
                    ipv4_address,
                    *transport_protocol,
                    *transport_protocol_number,
                );
                proof {
                    assert(buffer@ =~= spec_sd_option_bytes(*self));
                }
                Ok(buffer)
            },
            SomeIpSdOption::Ipv4SdEndpoint { ipv4_address, transport_protocol, transport_protocol_number } => {
                push_ip4_option(
                    &mut buffer,
                    0x24,
                    ipv4_address,
                    *transport_protocol,
                    *transport_protocol_number,
                );
                proof {
                    assert(buffer@ =~= spec_sd_option_bytes(*self));
                }
                Ok(buffer)
            },
            SomeIpSdOption::Ipv6Endpoint { ipv6_address, transport_protocol, transport_protocol_number } => {
                push_ip6_option(
                    &mut buffer,
                    0x06,
                    ipv6_address,
                    *transport_protocol,
                    *transport_protocol_number,
                );
                proof {
                    assert(buffer@ =~= spec_sd_option_bytes(*self));
                }
                Ok(buffer)
            },
            SomeIpSdOption::Ipv6Multicast { ipv6_address, transport_protocol, transport_protocol_number } => {
                push_ip6_option(
                    &mut buffer,
                    0x16,
                    ipv6_address,
                    *transport_protocol,
                    *transport_protocol_number,
                );
                proof {
                    assert(buffer@ =~= spec_sd_option_bytes(*self));
                }
                Ok(buffer)
            },
            SomeIpSdOption::Ipv6SdEndpoint { ipv6_address, transport_protocol, transport_protocol_number } => {
                push_ip6_option(
                    &mut buffer,
                    0x26,
                    ipv6_address,
                    *transport_protocol,
                    *transport_protocol_number,
                );
                proof {
                    assert(buffer@ =~= spec_sd_option_bytes(*self));
                }
                Ok(buffer)
            },
            SomeIpSdOption::UnknownDiscardable { length: _, option_type } => Err(
                err::ValueError::SdUnknownDiscardableOption(*option_type),
            ),
        }
    }
}

/// The concatenated 16-byte records of a list of SD entries.
pub open spec fn spec_sd_entries_bytes(entries: Seq<SomeIpSdEntry>) -> Seq<u8>
    decreases entries.len(),
{
    if entries.len() == 0 {
        Seq::empty()
    } else {
        spec_sd_entry_bytes(entries[0]) + spec_sd_entries_bytes(entries.skip(1))
    }
}

/// The concatenated wire bytes of a list of SD options.
pub open spec fn spec_sd_options_bytes(options: Seq<SomeIpSdOption>) -> Seq<u8>
    decreases options.len(),
{
    if options.len() == 0 {
        Seq::empty()
    } else {
        spec_sd_option_bytes(options[0]) + spec_sd_options_bytes(options.skip(1))
    }
}

/// The position of the first option a write must refuse (a placeholder), if
/// any.
pub open spec fn spec_first_unwritable(options: Seq<SomeIpSdOption>) -> Option<int>
    decreases options.len(),
{
    if options.len() == 0 {
        None
    } else if options[0] is UnknownDiscardable {
        Some(0)
    } else {
        match spec_first_unwritable(options.skip(1)) {
            Some(i) => Some(i + 1),
            None => None,
        }
    }
}

/// The result of parsing `n` consecutive 16-byte entry records from the
/// start of `b`: the decoded entries, or the first entry error.
pub open spec fn spec_parse_sd_entries(b: Seq<u8>, n: int) -> Result<
    Seq<SomeIpSdEntry>,
    err::ReadError,
>
    recommends
        b.len() >= 16 * n,
    decreases n,
{
    if n <= 0 {
        Ok(Seq::empty())
    } else {
        match spec_parse_sd_entry(b) {
            Err(e) => Err(e),
            Ok(entry) => match spec_parse_sd_entries(b.skip(16), n - 1) {
                Err(e) => Err(e),
                Ok(rest) => Ok(seq![entry] + rest),
            },
        }
    }
}

/// The first error hit when parsing the options region `b` option by option
/// until it is exhausted, or `None` if every option parses.
pub open spec fn spec_parse_sd_options_err(b: Seq<u8>) -> Option<err::ReadError>
    decreases b.len(),
{
    if b.len() == 0 {
        None
    } else {
        match spec_parse_sd_option_len(b) {
            Err(e) => Some(e),
            Ok(n) => if 1 <= n <= b.len() {
                spec_parse_sd_options_err(b.skip(n))
            } else {
                None
            },
        }
    }
}

/// Whether `options` is the list of options the region `b` decodes to, one
/// record after the other until the region is exhausted.
pub open spec fn spec_parsed_sd_options(b: Seq<u8>, options: Seq<SomeIpSdOption>) -> bool
    decreases b.len(),
{
    if b.len() == 0 {
        options.len() == 0
    } else {
        match spec_parse_sd_option_len(b) {
            Err(_) => false,
            Ok(n) => options.len() > 0 && spec_parsed_sd_option(b, options[0]) && 1 <= n <= b.len()
                && spec_parsed_sd_options(b.skip(n), options.skip(1)),
        }
    }
}

/// The flags byte of an SD header: the reboot, unicast and explicit
/// initial data control bits.
pub open spec fn spec_sd_flags_byte(reboot: bool, unicast: bool, explicit: bool) -> u8 {
    let f0: u8 = if reboot {
        0x80u8
    } else {
        0u8
    };
    let f1: u8 = if unicast {
        f0 | 0x40u8
    } else {
        f0
    };
    if explicit {
        f1 | 0x20u8
    } else {
        f1
    }
}

/// The first error hit when parsing `b` as an SD PDU: a slice too short for
/// the fixed parts, for the declared entries array or for the declared
/// options array is rejected with the required length; entries and options
/// lengths above the safety caps, and every entry or option content error,
/// are passed through.
pub open spec fn spec_parse_sd_err(b: Seq<u8>) -> Option<err::ReadError> {
    if b.len() < 12 {
        Some(err::ReadError::UnexpectedEndOfSlice(12))
    } else {
        let entries_len = be32(b[4], b[5], b[6], b[7]);
        if entries_len > 1388 {
            Some(err::ReadError::SdEntriesArrayLengthTooLarge(entries_len))
        } else {
            let n = entries_len as int / 16;
            if b.len() < 12 + 16 * n {
                Some(err::ReadError::UnexpectedEndOfSlice((12 + 16 * n) as usize))
            } else {
                match spec_parse_sd_entries(b.skip(8), n) {
                    Err(e) => Some(e),
                    Ok(_) => {
                        let off = 8 + 16 * n;
                        let options_len = be32(b[off], b[off + 1], b[off + 2], b[off + 3]);
                        if options_len > 1388 {
                            Some(err::ReadError::SdOptionsArrayLengthTooLarge(options_len))
                        } else if b.len() < off + 4 + options_len {
                            Some(
                                err::ReadError::UnexpectedEndOfSlice(
                                    (off + 4 + options_len) as usize,
                                ),
                            )
                        } else {
                            spec_parse_sd_options_err(
                                b.subrange(off + 4, off + 4 + options_len),
                            )
                        }
                    },
                }
            }
        }
    }
}

/// A SOME/IP service discovery header: three flag bits, the entries array
/// and the options array.
#[derive(Clone, Debug, Eq, PartialEq)]
pub struct SomeIpSdHeader {
    pub reboot: bool,
    pub unicast: bool,
    pub explicit_initial_data_control: bool,
    pub entries: Vec<SomeIpSdEntry>,
    pub options: Vec<SomeIpSdOption>,
}

impl SomeIpSdHeader {
    /// Creates an SD header with the given reboot flag, entries and
    /// options. Unicast and explicit initial data control are set, as
    /// current deployments expect.
    pub fn new(reboot: bool, entries: Vec<SomeIpSdEntry>, options: Vec<SomeIpSdOption>) -> (r:
        Self)
        ensures
            r.reboot == reboot,
            r.unicast == true,
            r.explicit_initial_data_control == true,
            r.entries@ == entries@,
            r.options@ == options@,
    {
        Self { reboot, unicast: true, explicit_initial_data_control: true, entries, options }
    }

    /// Parses an SD PDU from the start of a slice: the flags byte, then the
    /// length-prefixed entries array, then the length-prefixed options
    /// array. Rejects exactly as [`spec_parse_sd_err`] says; on success the
    /// three flags mirror the flag bits, the entries are the decoded
    /// records and the options are what the options region decodes to.
    pub fn read(slice: &[u8]) -> (r: Result<Self, err::ReadError>)
        ensures
            (spec_parse_sd_err(slice@) matches Some(e) ==> (r matches Err(e2) && e2 == e)),
            (spec_parse_sd_err(slice@) is None ==> (r matches Ok(h) && {
                let entries_len = be32(slice@[4], slice@[5], slice@[6], slice@[7]);
                let n = entries_len as int / 16;
                let off = 8 + 16 * n;
                let options_len = be32(slice@[off], slice@[off + 1], slice@[off + 2], slice@[off + 3]);
                &&& h.reboot == ((slice@[0] & 0x80) != 0)
                &&& h.unicast == ((slice@[0] & 0x40) != 0)
                &&& h.explicit_initial_data_control == ((slice@[0] & 0x20) != 0)
                &&& Ok::<_, err::ReadError>(h.entries@) == spec_parse_sd_entries(slice@.skip(8), n)
                &&& spec_parsed_sd_options(
                    slice@.subrange(off + 4, off + 4 + options_len),
                    h.options@,
                )
            })),
    {
        if slice.len() < MIN_SD_HEADER_LENGTH {
            return Err(err::ReadError::UnexpectedEndOfSlice(MIN_SD_HEADER_LENGTH));
        }
        let flags = slice[0];
        let entries_len = read_be_u32(slice[4], slice[5], slice[6], slice[7]);
        if entries_len > MAX_SD_ENTRIES_LEN {
            return Err(err::ReadError::SdEntriesArrayLengthTooLarge(entries_len));
        }
        let n = (entries_len / 16) as usize;
        if slice.len() < 12 + 16 * n {
            return Err(err::ReadError::UnexpectedEndOfSlice(12 + 16 * n));
        }
        let mut entries: Vec<SomeIpSdEntry> = Vec::new();
        let mut i: usize = 0;
        proof {
            lemma_parse_entries_prefix_init(slice@.skip(8), n as int);
        }
        while i < n
            invariant
                i <= n,
                16 * n + 12 <= slice@.len(),
                slice@.len() <= usize::MAX,
                n == be32(slice@[4], slice@[5], slice@[6], slice@[7]) as int / 16,
                be32(slice@[4], slice@[5], slice@[6], slice@[7]) <= 1388,
                entries@.len() == i,
                spec_parse_sd_entries(slice@.skip(8), n as int) == (match spec_parse_sd_entries(
                    slice@.skip(8 + 16 * i),
                    n - i,
                ) {
                    Err(e) => Err::<Seq<SomeIpSdEntry>, _>(e),
                    Ok(rest) => Ok::<_, err::ReadError>(entries@ + rest),
                }),
            decreases n - i,
        {
            let base = 8 + 16 * i;
            let entry_bytes: [u8; 16] = [
                slice[base],
                slice[base + 1],
                slice[base + 2],
                slice[base + 3],
                slice[base + 4],
                slice[base + 5],
                slice[base + 6],
                slice[base + 7],
                slice[base + 8],
                slice[base + 9],
                slice[base + 10],
                slice[base + 11],
                slice[base + 12],
                slice[base + 13],
                slice[base + 14],
                slice[base + 15],
            ];
            proof {
                assert forall|k: int| 0 <= k < 16 implies entry_bytes@[k] == slice@.skip(
                    8 + 16 * i,
                )[k] by {
                    assert(slice@.skip(8 + 16 * i)[k] == slice@[8 + 16 * i + k]);
                }
                lemma_parse_entry_prefix(slice@.skip(8 + 16 * i), entry_bytes@);
            }
            match SomeIpSdEntry::read(&entry_bytes) {
                Err(e) => {
                    proof {
                        assert(spec_parse_sd_entries(slice@.skip(8 + 16 * i), n - i) == Err::<
                            Seq<SomeIpSdEntry>,
                            _,
                        >(e));
                        assert(spec_parse_sd_entries(slice@.skip(8), n as int) == Err::<
                            Seq<SomeIpSdEntry>,
                            _,
                        >(e));
                        assert(spec_parse_sd_err(slice@) == Some(e));
                    }
                    return Err(e);
                },
                Ok(entry) => {
                    let ghost entries_prev = entries@;
                    entries.push(entry);
                    proof {
                        assert(slice@.skip(8 + 16 * i).skip(16) =~= slice@.skip(
                            8 + 16 * (i + 1),
                        ));
                        let tail = spec_parse_sd_entries(slice@.skip(8 + 16 * (i + 1)), n - i - 1);
                        match tail {
                            Err(_) => {},
                            Ok(rest) => {
                                assert((entries_prev + (seq![entry] + rest)) =~= entries@ + rest);
                            },
                        }
                    }
                },
            }
            i += 1;
        }
        proof {
            assert(spec_parse_sd_entries(slice@.skip(8 + 16 * i), 0) == Ok::<
                Seq<SomeIpSdEntry>,
                err::ReadError,
            >(Seq::empty()));
            assert(entries@ + Seq::<SomeIpSdEntry>::empty() =~= entries@);
            assert(spec_parse_sd_entries(slice@.skip(8), n as int) == Ok::<_, err::ReadError>(
                entries@,
            ));
        }

        let options_len_off = 8 + 16 * n;
        let options_len = read_be_u32(
            slice[options_len_off],
            slice[options_len_off + 1],
            slice[options_len_off + 2],
            slice[options_len_off + 3],
        );
        if options_len > MAX_SD_OPTIONS_LEN {
            return Err(err::ReadError::SdOptionsArrayLengthTooLarge(options_len));
        }
        let options_len_usize = options_len as usize;
        if slice.len() < options_len_off + 4 + options_len_usize {
            return Err(
                err::ReadError::UnexpectedEndOfSlice(options_len_off + 4 + options_len_usize),
            );
        }
        let region = &slice[options_len_off + 4..options_len_off + 4 + options_len_usize];
        let ghost region_seq = slice@.subrange(
            options_len_off + 4 as int,
            options_len_off + 4 + options_len_usize as int,
        );
        let mut options: Vec<SomeIpSdOption> = Vec::new();
        let mut c: usize = 0;
        proof {
            assert(region_seq.skip(0) =~= region_seq);
            assert forall|rest: Seq<SomeIpSdOption>|
                spec_parsed_sd_options(region_seq.skip(0), rest) implies
                #[trigger] spec_parsed_sd_options(region_seq, Seq::<SomeIpSdOption>::empty()
                + rest) by {
                assert(Seq::<SomeIpSdOption>::empty() + rest =~= rest);
            }
        }
        while c < options_len_usize
            invariant
                c <= options_len_usize,
                region@ == region_seq,
                region_seq.len() == options_len_usize,
                16 * n + 12 <= slice@.len(),
                slice@.len() <= usize::MAX,
                n == be32(slice@[4], slice@[5], slice@[6], slice@[7]) as int / 16,
                be32(slice@[4], slice@[5], slice@[6], slice@[7]) <= 1388,
                spec_parse_sd_entries(slice@.skip(8), n as int) == Ok::<_, err::ReadError>(
                    entries@,
                ),
                options_len_off == 8 + 16 * n,
                options_len == be32(
                    slice@[options_len_off as int],
                    slice@[options_len_off + 1],
                    slice@[options_len_off + 2],
                    slice@[options_len_off + 3],
                ),
                options_len <= 1388,
                options_len_usize == options_len,
                slice@.len() >= options_len_off + 4 + options_len_usize,
                region_seq == slice@.subrange(
                    options_len_off + 4,
                    options_len_off + 4 + options_len_usize,
                ),
                spec_parse_sd_options_err(region_seq) == spec_parse_sd_options_err(
                    region_seq.skip(c as int),
                ),
                forall|rest: Seq<SomeIpSdOption>|
                    spec_parsed_sd_options(region_seq.skip(c as int), rest)
                        ==> #[trigger] spec_parsed_sd_options(region_seq, options@ + rest),
            decreases options_len_usize - c,
        {
            let rest_slice = &region[c..options_len_usize];
            proof {
                assert(rest_slice@ =~= region_seq.skip(c as int));
            }
            match SomeIpSdOption::read(rest_slice) {
                Err(e) => {
                    proof {
                        assert(spec_parse_sd_options_err(region_seq) == Some(e));
                        assert(spec_parse_sd_entries(slice@.skip(8), n as int) == Ok::<
                            _,
                            err::ReadError,
                        >(entries@));
                        assert(spec_parse_sd_err(slice@) == Some(e));
                    }
                    return Err(e);
                },
                Ok((consumed, option)) => {
                    proof {
                        assert(spec_parse_sd_option_len(region_seq.skip(c as int)) matches Ok(m)
                            && m == consumed && 4 <= consumed <= region_seq.skip(c as int).len());
                    }
                    let ghost options_prev = options@;
                    options.push(option);
                    proof {
                        assert(region_seq.skip(c as int).skip(consumed as int) =~= region_seq.skip(
                            c + consumed as int,
                        ));
                        assert forall|rest: Seq<SomeIpSdOption>|
                            spec_parsed_sd_options(region_seq.skip(c + consumed as int), rest)
                                implies #[trigger] spec_parsed_sd_options(
                            region_seq,
                            options@ + rest,
                        ) by {
                            assert((seq![option] + rest)[0] == option);
                            assert((seq![option] + rest).skip(1) =~= rest);
                            assert(spec_parsed_sd_options(
                                region_seq.skip(c as int),
                                seq![option] + rest,
                            ));
                            assert(options_prev + (seq![option] + rest) =~= options@ + rest);
                        }
                    }
                    c += consumed;
                },
            }
        }
        proof {
            assert(region_seq.skip(options_len_usize as int).len() == 0);
            assert(spec_parsed_sd_options(
                region_seq.skip(options_len_usize as int),
                Seq::<SomeIpSdOption>::empty(),
            ));
            assert(options@ + Seq::<SomeIpSdOption>::empty() =~= options@);
            assert(spec_parsed_sd_options(region_seq, options@));
            assert(spec_parse_sd_entries(slice@.skip(8), n as int) == Ok::<_, err::ReadError>(
                entries@,
            ));
            assert(spec_parse_sd_options_err(region_seq) is None);
            assert(spec_parse_sd_err(slice@) is None);
        }

        Ok(
            Self {
                reboot: 0 != flags & SD_HEADER_REBOOT_FLAG,
                unicast: 0 != flags & SD_HEADER_UNICAST_FLAG,
                explicit_initial_data_control: 0 != flags
                    & SD_HEADER_EXPLICIT_INITIAL_DATA_CONTROL_FLAG,
                entries,
                options,
            },
        )
    }

    /// Encodes the header as its wire bytes: the flags byte, three reserved
    /// zero bytes, the length-prefixed entries array and the
    /// length-prefixed options array. Fails with
    /// `SdUnknownDiscardableOption` on the first placeholder option.
    pub fn to_bytes(&self) -> (r: Result<Vec<u8>, err::ValueError>)
        requires
            forall|i: int|
                0 <= i < self.options@.len() ==> ((#[trigger] self.options@[i]) matches
                    SomeIpSdOption::Configuration { configuration_string } ==> configuration_string@.len() <= 0xfffe),
            spec_sd_entries_bytes(self.entries@).len() <= u32::MAX,
            spec_sd_options_bytes(self.options@).len() <= u32::MAX,
        ensures
            (spec_first_unwritable(self.options@) matches Some(i) ==> r == Err::<Vec<u8>, _>(
                err::ValueError::SdUnknownDiscardableOption(
                    spec_sd_option_raw_type(self.options@[i]),
                ),
            )),
            (spec_first_unwritable(self.options@) is None ==> (r matches Ok(v) && v@ == seq![
                spec_sd_flags_byte(self.reboot, self.unicast, self.explicit_initial_data_control),
                0u8,
                0u8,
                0u8,
            ] + spec_be4(spec_sd_entries_bytes(self.entries@).len() as u32)
                + spec_sd_entries_bytes(self.entries@) + spec_be4(
                spec_sd_options_bytes(self.options@).len() as u32,
            ) + spec_sd_options_bytes(self.options@))),
    {
        let mut entries_bytes: Vec<u8> = Vec::new();
        let mut i: usize = 0;
        while i < self.entries.len()
            invariant
                i <= self.entries@.len(),
                entries_bytes@ == spec_sd_entries_bytes(self.entries@.take(i as int)),
                entries_bytes@.len() == 16 * i,
                spec_sd_entries_bytes(self.entries@).len() <= u32::MAX,
            decreases self.entries@.len() - i,
        {
            let entry = &self.entries[i];
            let eb = entry.to_bytes();
            let mut k: usize = 0;
            while k < 16
                invariant
                    k <= 16,
                    eb@ == spec_sd_entry_bytes(self.entries@[i as int]),
                    i < self.entries@.len(),
                    entries_bytes@ == spec_sd_entries_bytes(self.entries@.take(i as int))
                        + eb@.take(k as int),
                decreases 16 - k,
            {
                entries_bytes.push(eb[k]);
                proof {
                    assert(entries_bytes@ =~= spec_sd_entries_bytes(self.entries@.take(i as int))
                        + eb@.take(k + 1 as int));
                }
                k += 1;
            }
            proof {
                assert(eb@.take(16) =~= eb@);
                lemma_sd_entries_bytes_snoc(self.entries@, i as int);
                assert(entries_bytes@ =~= spec_sd_entries_bytes(
                    self.entries@.take(i + 1 as int),
                ));
                lemma_sd_entries_bytes_len(self.entries@.take(i + 1 as int));
            }
            i += 1;
        }
        proof {
            assert(self.entries@.take(self.entries@.len() as int) =~= self.entries@);
        }

        let mut options_bytes: Vec<u8> = Vec::new();
        let mut j: usize = 0;
        while j < self.options.len()
            invariant
                j <= self.options@.len(),
                forall|k: int|
                    0 <= k < j ==> !((#[trigger] self.options@[k]) is UnknownDiscardable),
                options_bytes@ == spec_sd_options_bytes(self.options@.take(j as int)),
                forall|x: int|
                    0 <= x < self.options@.len() ==> ((#[trigger] self.options@[x]) matches
                        SomeIpSdOption::Configuration { configuration_string } ==> configuration_string@.len() <= 0xfffe),
                spec_sd_options_bytes(self.options@).len() <= u32::MAX,
                options_bytes@.len() <= spec_sd_options_bytes(self.options@).len(),
            decreases self.options@.len() - j,
        {
            let option = &self.options[j];
            proof {
                lemma_first_unwritable_step(self.options@, j as int);
            }
            match option.to_bytes() {
                Err(e) => {
                    proof {
                        assert(self.options@[j as int] is UnknownDiscardable);
                    }
                    return Err(e);
                },
                Ok(ob) => {
                    let mut k: usize = 0;
                    while k < ob.len()
                        invariant
                            k <= ob@.len(),
                            j < self.options@.len(),
                            ob@ == spec_sd_option_bytes(self.options@[j as int]),
                            options_bytes@ == spec_sd_options_bytes(
                                self.options@.take(j as int),
                            ) + ob@.take(k as int),
                        decreases ob@.len() - k,
                    {
                        options_bytes.push(ob[k]);
                        proof {
                            assert(options_bytes@ =~= spec_sd_options_bytes(
                                self.options@.take(j as int),
                            ) + ob@.take(k + 1 as int));
                        }
                        k += 1;
                    }
                    proof {
                        assert(ob@.take(ob@.len() as int) =~= ob@);
                        lemma_sd_options_bytes_snoc(self.options@, j as int);
                        assert(options_bytes@ =~= spec_sd_options_bytes(
                            self.options@.take(j + 1 as int),
                        ));
                        lemma_sd_options_bytes_prefix_len(self.options@, j + 1 as int);
                    }
                },
            }
            j += 1;
        }
        proof {
            assert(self.options@.take(self.options@.len() as int) =~= self.options@);
            lemma_first_unwritable_none(self.options@);
        }

        let mut bytes: Vec<u8> = Vec::new();
        let f0: u8 = if self.reboot {
            SD_HEADER_REBOOT_FLAG
        } else {
            0
        };
        let f1: u8 = if self.unicast {
            f0 | SD_HEADER_UNICAST_FLAG
        } else {
            f0
        };
        let flags: u8 = if self.explicit_initial_data_control {
            f1 | SD_HEADER_EXPLICIT_INITIAL_DATA_CONTROL_FLAG
        } else {
            f1
        };
        bytes.push(flags);
        bytes.push(0);
        bytes.push(0);
        bytes.push(0);
        let (e0, e1, e2, e3) = split_be_u32(entries_bytes.len() as u32);
        bytes.push(e0);
        bytes.push(e1);
        bytes.push(e2);
        bytes.push(e3);
        let ghost before_entries = bytes@;
        let mut i2: usize = 0;
        while i2 < entries_bytes.len()
            invariant
                i2 <= entries_bytes@.len(),
                bytes@ == before_entries + entries_bytes@.take(i2 as int),
            decreases entries_bytes@.len() - i2,
        {
            bytes.push(entries_bytes[i2]);
            proof {
                assert(bytes@ =~= before_entries + entries_bytes@.take(i2 + 1 as int));
            }
            i2 += 1;
        }
        let (o0, o1, o2, o3) = split_be_u32(options_bytes.len() as u32);
        bytes.push(o0);
        bytes.push(o1);
        bytes.push(o2);
        bytes.push(o3);
        let ghost before_options = bytes@;
        let mut j2: usize = 0;
        while j2 < options_bytes.len()
            invariant
                j2 <= options_bytes@.len(),
                bytes@ == before_options + options_bytes@.take(j2 as int),
            decreases options_bytes@.len() - j2,
        {
            bytes.push(options_bytes[j2]);
            proof {
                assert(bytes@ =~= before_options + options_bytes@.take(j2 + 1 as int));
            }
            j2 += 1;
        }
        proof {
            assert(entries_bytes@.take(entries_bytes@.len() as int) =~= entries_bytes@);
            assert(options_bytes@.take(options_bytes@.len() as int) =~= options_bytes@);
            assert(bytes@ =~= seq![
                spec_sd_flags_byte(self.reboot, self.unicast, self.explicit_initial_data_control),
                0u8,
                0u8,
                0u8,
            ] + spec_be4(spec_sd_entries_bytes(self.entries@).len() as u32)
                + spec_sd_entries_bytes(self.entries@) + spec_be4(
                spec_sd_options_bytes(self.options@).len() as u32,
            ) + spec_sd_options_bytes(self.options@));
        }
        Ok(bytes)
    }

    /// Decides whether the header meets the wire-width bounds that
    /// [`SomeIpSdHeader::to_bytes`] and [`SomeIpSdHeader::write_to_slice`]
    /// demand: every configuration string fits the 16-bit option length
    /// field, and the encoded entries and options arrays fit their 32-bit
    /// length prefixes. Unverified callers test this before encoding.
    pub fn encodable(&self) -> (r: bool)
        ensures
            r == ({
                &&& (forall|i: int|
                    0 <= i < self.options@.len() ==> ((#[trigger] self.options@[i]) matches
                        SomeIpSdOption::Configuration { configuration_string } ==> configuration_string@.len() <= 0xfffe))
                &&& spec_sd_entries_bytes(self.entries@).len() <= u32::MAX
                &&& spec_sd_options_bytes(self.options@).len() <= u32::MAX
            }),
    {
        // every configuration string must fit its 16-bit length field
        let mut i: usize = 0;
        while i < self.options.len()
            invariant
                i <= self.options@.len(),
                forall|k: int|
                    0 <= k < i ==> ((#[trigger] self.options@[k]) matches
                        SomeIpSdOption::Configuration { configuration_string } ==> configuration_string@.len() <= 0xfffe),
            decreases self.options@.len() - i,
        {
            let option = &self.options[i];
            if let SomeIpSdOption::Configuration { configuration_string } = option {
                if configuration_string.len() > 0xfffe {
                    return false;
                }
            }
            i += 1;
        }

        // the entries array length prefix is 32 bits and every record is 16
        // bytes
        proof {
            lemma_sd_entries_bytes_len(self.entries@);
        }
        if self.entries.len() > 0x0fff_ffff {
            return false;
        }

        // the options array length prefix is 32 bits; sum the records' wire
        // lengths, stopping as soon as the prefix alone exceeds the bound
        let mut sum: u64 = 0;
        let mut j: usize = 0;
        while j < self.options.len()
            invariant
                j <= self.options@.len(),
                forall|k: int|
                    0 <= k < self.options@.len() ==> ((#[trigger] self.options@[k]) matches
                        SomeIpSdOption::Configuration { configuration_string } ==> configuration_string@.len() <= 0xfffe),
                sum == spec_sd_options_bytes(self.options@.take(j as int)).len(),
                sum <= u32::MAX,
            decreases self.options@.len() - j,
        {
            let option = &self.options[j];
            let wire_len: u64 = match option {
                SomeIpSdOption::Configuration { configuration_string } => 4
                    + configuration_string.len() as u64,
                SomeIpSdOption::LoadBalancing { .. } => 8,
                SomeIpSdOption::Ipv4Endpoint { .. } => 12,
                SomeIpSdOption::Ipv4Multicast { .. } => 12,
                SomeIpSdOption::Ipv4SdEndpoint { .. } => 12,
                SomeIpSdOption::Ipv6Endpoint { .. } => 24,
                SomeIpSdOption::Ipv6Multicast { .. } => 24,
                SomeIpSdOption::Ipv6SdEndpoint { .. } => 24,
                SomeIpSdOption::UnknownDiscardable { .. } => 0,
            };
            proof {
                assert(spec_sd_option_bytes(self.options@[j as int]).len() == wire_len);
                lemma_sd_options_bytes_snoc(self.options@, j as int);
            }
            sum = sum + wire_len;
            if sum > 0xffff_ffff {
                proof {
                    lemma_sd_options_bytes_prefix_len(self.options@, j + 1 as int);
                }
                return false;
            }
            j += 1;
        }
        proof {
            assert(self.options@.take(self.options@.len() as int) =~= self.options@);
        }
        true
    }

    /// Writes the encoded header to the start of a slice, leaving the rest
    /// unchanged. Fails with the required length when the slice is too
    /// short, and with a value error on the first placeholder option; in
    /// both cases the slice is untouched.
    pub fn write_to_slice(&self, slice: &mut [u8]) -> (r: Result<(), err::WriteError>)
        requires
            forall|i: int|
                0 <= i < self.options@.len() ==> ((#[trigger] self.options@[i]) matches
                    SomeIpSdOption::Configuration { configuration_string } ==> configuration_string@.len() <= 0xfffe),
            spec_sd_entries_bytes(self.entries@).len() <= u32::MAX,
            spec_sd_options_bytes(self.options@).len() <= u32::MAX,
        ensures
            (spec_first_unwritable(self.options@) matches Some(i) ==> (r == Err::<(), _>(
                err::WriteError::ValueError(
                    err::ValueError::SdUnknownDiscardableOption(
                        spec_sd_option_raw_type(self.options@[i]),
                    ),
                ),
            ) && final(slice)@ == old(slice)@)),
            (spec_first_unwritable(self.options@) is None ==> ({
                let encoded = seq![
                    spec_sd_flags_byte(
                        self.reboot,
                        self.unicast,
                        self.explicit_initial_data_control,
                    ),
                    0u8,
                    0u8,
                    0u8,
                ] + spec_be4(spec_sd_entries_bytes(self.entries@).len() as u32)
                    + spec_sd_entries_bytes(self.entries@) + spec_be4(
                    spec_sd_options_bytes(self.options@).len() as u32,
                ) + spec_sd_options_bytes(self.options@);
                if old(slice)@.len() < encoded.len() {
                    r == Err::<(), _>(err::WriteError::UnexpectedEndOfSlice(
                        encoded.len() as usize,
                    )) && final(slice)@ == old(slice)@
                } else {
                    r is Ok && final(slice)@ == encoded + old(slice)@.skip(encoded.len() as int)
                }
            })),
    {
        let buffer = match self.to_bytes() {
            Ok(v) => v,
            Err(e) => {
                return Err(err::WriteError::ValueError(e));
            },
        };
        if slice.len() < buffer.len() {
            return Err(err::WriteError::UnexpectedEndOfSlice(buffer.len()));
        }
        let mut idx: usize = 0;
        while idx < buffer.len()
            invariant
                idx <= buffer@.len(),
                buffer@.len() <= slice@.len(),
                slice@.len() == old(slice)@.len(),
                slice@ == spec_overwrite_prefix(old(slice)@, buffer@.take(idx as int)),
            decreases buffer@.len() - idx,
        {
            slice[idx] = buffer[idx];
            proof {
                assert(slice@ =~= spec_overwrite_prefix(old(slice)@, buffer@.take(idx + 1 as int)));
            }
            idx += 1;
        }
        proof {
            assert(buffer@.take(buffer@.len() as int) =~= buffer@);
            assert(final(slice)@ =~= buffer@ + old(slice)@.skip(buffer@.len() as int));
        }
        Ok(())
    }
}

impl Default for SomeIpSdHeader {
    /// An SD header without entries or options; unicast and explicit
    /// initial data control are set, as current deployments expect.
    fn default() -> (r: Self)
        ensures
            r.reboot == false,
            r.unicast == true,
            r.explicit_initial_data_control == true,
            r.entries@.len() == 0,
            r.options@.len() == 0,
    {
        Self {
            reboot: false,
            unicast: true,
            explicit_initial_data_control: true,
            entries: Vec::new(),
            options: Vec::new(),
        }
    }
}

/// `s` with its prefix replaced by `p`, everything behind unchanged.
pub open spec fn spec_overwrite_prefix(s: Seq<u8>, p: Seq<u8>) -> Seq<u8> {
    Seq::new(s.len(), |i: int| if i < p.len() { p[i] } else { s[i] })
}

/// Parsing `n` entries depends only on the first `16 * n` bytes; in
/// particular the first record parses from its own 16 bytes.
proof fn lemma_parse_entry_prefix(b: Seq<u8>, head: Seq<u8>)
    requires
        head.len() == 16,
        b.len() >= 16,
        forall|k: int| 0 <= k < 16 ==> head[k] == b[k],
    ensures
        spec_parse_sd_entry(head) == spec_parse_sd_entry(b),
{
}

/// At the start of the entries loop nothing is parsed yet, so the whole
/// parse equals the parse of the remainder.
proof fn lemma_parse_entries_prefix_init(b: Seq<u8>, n: int)
    ensures
        spec_parse_sd_entries(b, n) == (match spec_parse_sd_entries(b.skip(0), n - 0) {
            Err(e) => Err::<Seq<SomeIpSdEntry>, err::ReadError>(e),
            Ok(rest) => Ok::<_, err::ReadError>(Seq::<SomeIpSdEntry>::empty() + rest),
        }),
{
    assert(b.skip(0) =~= b);
    match spec_parse_sd_entries(b, n) {
        Err(_) => {},
        Ok(rest) => {
            assert(Seq::<SomeIpSdEntry>::empty() + rest =~= rest);
        },
    }
}

/// Appending one entry's record extends the concatenated records by that
/// record.
proof fn lemma_sd_entries_bytes_snoc(entries: Seq<SomeIpSdEntry>, i: int)
    requires
        0 <= i < entries.len(),
    ensures
        spec_sd_entries_bytes(entries.take(i + 1)) == spec_sd_entries_bytes(entries.take(i))
            + spec_sd_entry_bytes(entries[i]),
    decreases i,
{
    if i == 0 {
        assert(entries.take(1)[0] == entries[0]);
        assert(entries.take(1).skip(1) =~= Seq::<SomeIpSdEntry>::empty());
        assert(entries.take(0) =~= Seq::<SomeIpSdEntry>::empty());
        assert(spec_sd_entries_bytes(entries.take(1)) =~= spec_sd_entries_bytes(entries.take(0))
            + spec_sd_entry_bytes(entries[0]));
    } else {
        lemma_sd_entries_bytes_snoc(entries.skip(1), i - 1);
        assert(entries.take(i + 1)[0] == entries[0]);
        assert(entries.take(i + 1).skip(1) =~= entries.skip(1).take(i));
        assert(entries.take(i).skip(1) =~= entries.skip(1).take(i - 1));
        assert(entries.take(i)[0] == entries[0]);
        assert(entries.skip(1)[i - 1] == entries[i]);
        assert(spec_sd_entries_bytes(entries.take(i + 1)) =~= spec_sd_entries_bytes(entries.take(i))
            + spec_sd_entry_bytes(entries[i]));
    }
}

/// Every entry record is 16 bytes, so `n` records make `16 * n` bytes.
proof fn lemma_sd_entries_bytes_len(entries: Seq<SomeIpSdEntry>)
    ensures
        spec_sd_entries_bytes(entries).len() == 16 * entries.len(),
    decreases entries.len(),
{
    if entries.len() > 0 {
        lemma_sd_entries_bytes_len(entries.skip(1));
        assert(spec_sd_entry_bytes(entries[0]).len() == 16);
    }
}

/// Appending one option's record extends the concatenated records by that
/// record.
proof fn lemma_sd_options_bytes_snoc(options: Seq<SomeIpSdOption>, i: int)
    requires
        0 <= i < options.len(),
    ensures
        spec_sd_options_bytes(options.take(i + 1)) == spec_sd_options_bytes(options.take(i))
            + spec_sd_option_bytes(options[i]),
    decreases i,
{
    if i == 0 {
        assert(options.take(1)[0] == options[0]);
        assert(options.take(1).skip(1) =~= Seq::<SomeIpSdOption>::empty());
        assert(options.take(0) =~= Seq::<SomeIpSdOption>::empty());
        assert(spec_sd_options_bytes(options.take(1)) =~= spec_sd_options_bytes(options.take(0))
            + spec_sd_option_bytes(options[0]));
    } else {
        lemma_sd_options_bytes_snoc(options.skip(1), i - 1);
        assert(options.take(i + 1)[0] == options[0]);
        assert(options.take(i + 1).skip(1) =~= options.skip(1).take(i));
        assert(options.take(i).skip(1) =~= options.skip(1).take(i - 1));
        assert(options.take(i)[0] == options[0]);
        assert(options.skip(1)[i - 1] == options[i]);
        assert(spec_sd_options_bytes(options.take(i + 1)) =~= spec_sd_options_bytes(
            options.take(i),
        ) + spec_sd_option_bytes(options[i]));
    }
}

/// A prefix of the option list never encodes to more bytes than the whole
/// list.
proof fn lemma_sd_options_bytes_prefix_len(options: Seq<SomeIpSdOption>, i: int)
    requires
        0 <= i <= options.len(),
    ensures
        spec_sd_options_bytes(options.take(i)).len() <= spec_sd_options_bytes(options).len(),
    decreases i,
{
    if i == options.len() {
        assert(options.take(i) =~= options);
    } else {
        lemma_sd_options_bytes_sum(options, i);
    }
}

/// The bytes of a list of options split at `i` into the bytes of the prefix
/// and the bytes of the rest.
proof fn lemma_sd_options_bytes_sum(options: Seq<SomeIpSdOption>, i: int)
    requires
        0 <= i <= options.len(),
    ensures
        spec_sd_options_bytes(options) == spec_sd_options_bytes(options.take(i))
            + spec_sd_options_bytes(options.skip(i)),
    decreases i,
{
    if i == 0 {
        assert(options.take(0) =~= Seq::<SomeIpSdOption>::empty());
        assert(options.skip(0) =~= options);
        assert(spec_sd_options_bytes(options) =~= spec_sd_options_bytes(options.take(0))
            + spec_sd_options_bytes(options.skip(0)));
    } else {
        lemma_sd_options_bytes_sum(options.skip(1), i - 1);
        assert(options.take(i)[0] == options[0]);
        assert(options.take(i).skip(1) =~= options.skip(1).take(i - 1));
        assert(options.skip(i) =~= options.skip(1).skip(i - 1));
        assert(spec_sd_options_bytes(options) =~= spec_sd_options_bytes(options.take(i))
            + spec_sd_options_bytes(options.skip(i)));
    }
}

/// When no placeholder sits before position `j`, the option at `j` decides
/// whether the first unwritable position is `j` itself.
proof fn lemma_first_unwritable_step(options: Seq<SomeIpSdOption>, j: int)
    requires
        0 <= j < options.len(),
        forall|k: int| 0 <= k < j ==> !((#[trigger] options[k]) is UnknownDiscardable),
    ensures
        options[j] is UnknownDiscardable ==> spec_first_unwritable(options) == Some(j),
    decreases j,
{
    if j > 0 {
        assert forall|k: int|
            0 <= k < j - 1 implies !((#[trigger] options.skip(1)[k]) is UnknownDiscardable) by {
            assert(options.skip(1)[k] == options[k + 1]);
        }
        lemma_first_unwritable_step(options.skip(1), j - 1);
        assert(options.skip(1)[j - 1] == options[j]);
    }
}

/// A list without any placeholder has no first unwritable position.
proof fn lemma_first_unwritable_none(options: Seq<SomeIpSdOption>)
    requires
        forall|k: int|
            0 <= k < options.len() ==> !((#[trigger] options[k]) is UnknownDiscardable),
    ensures
        spec_first_unwritable(options) is None,
    decreases options.len(),
{
    if options.len() > 0 {
        assert forall|k: int|
            0 <= k < options.skip(1).len() implies !((#[trigger] options.skip(1)[k])
                is UnknownDiscardable) by {
            assert(options.skip(1)[k] == options[k + 1]);
        }
        lemma_first_unwritable_none(options.skip(1));
    }
}

/// Appends the 12 bytes of an IPv4 endpoint-shaped option with the given
/// type byte.
fn push_ip4_option(
    buffer: &mut Vec<u8>,
    option_type: u8,
    address: &[u8; 4],
    tp: TransportProtocol,
    port: u16,
)
    ensures
        final(buffer)@ == old(buffer)@ + spec_ip_option_bytes(9, option_type, address@, tp, port),
{
    let (l0, l1) = split_be_u16(9);
    buffer.push(l0);
    buffer.push(l1);
    buffer.push(option_type);
    buffer.push(0x00);
    buffer.push(address[0]);
    buffer.push(address[1]);
    buffer.push(address[2]);
    buffer.push(address[3]);
    buffer.push(0x00);
    let raw: u8 = match tp {
        TransportProtocol::Tcp => 0x06,
        TransportProtocol::Udp => 0x11,
        TransportProtocol::Generic(value) => value,
    };
    buffer.push(raw);
    let (p0, p1) = split_be_u16(port);
    buffer.push(p0);
    buffer.push(p1);
    proof {
        assert(buffer@ =~= old(buffer)@ + spec_ip_option_bytes(9, option_type, address@, tp, port));
    }
}

/// Appends the 24 bytes of an IPv6 endpoint-shaped option with the given
/// type byte.
fn push_ip6_option(
    buffer: &mut Vec<u8>,
    option_type: u8,
    address: &[u8; 16],
    tp: TransportProtocol,
    port: u16,
)
    ensures
        final(buffer)@ == old(buffer)@ + spec_ip_option_bytes(21, option_type, address@, tp, port),
{
    let (l0, l1) = split_be_u16(21);
    buffer.push(l0);
    buffer.push(l1);
    buffer.push(option_type);
    buffer.push(0x00);
    let mut i: usize = 0;
    while i < 16
        invariant
            i <= 16,
            buffer@ == old(buffer)@ + seq![be16_hi(21u16), be16_lo(21u16), option_type, 0u8]
                + address@.take(i as int),
        decreases 16 - i,
    {
        buffer.push(address[i]);
        proof {
            assert(buffer@ =~= old(buffer)@ + seq![be16_hi(21u16), be16_lo(21u16), option_type, 0u8]
                + address@.take(i + 1 as int));
        }
        i += 1;
    }
    buffer.push(0x00);
    let raw: u8 = match tp {
        TransportProtocol::Tcp => 0x06,
        TransportProtocol::Udp => 0x11,
        TransportProtocol::Generic(value) => value,
    };
    buffer.push(raw);
    let (p0, p1) = split_be_u16(port);
    buffer.push(p0);
    buffer.push(p1);
    proof {
        assert(address@.take(16) =~= address@);
        assert(buffer@ =~= old(buffer)@ + spec_ip_option_bytes(21, option_type, address@, tp, port));
    }
}

} // verus!

// The round-trip laws of the SD codec: reading back what was written gives
// the written value, for every in-range entry and every writable option
// whose transport protocol is not a `Generic` duplicate of TCP's or UDP's
// number.
verus! {

/// Whether an entry's fields fit their wire widths, so that writing does
/// not mask anything away: TTL at most 24 bits, option counts at most 4
/// bits, the eventgroup counter at most 4 bits.
pub open spec fn spec_sd_entry_valid(e: SomeIpSdEntry) -> bool {
    match e {
        SomeIpSdEntry::Service { number_of_options_1, number_of_options_2, ttl, .. } => {
            &&& number_of_options_1 <= 0x0f
            &&& number_of_options_2 <= 0x0f
            &&& ttl <= 0xff_ffff
        },
        SomeIpSdEntry::Eventgroup { number_of_options_1, number_of_options_2, ttl, counter, .. } => {
            &&& number_of_options_1 <= 0x0f
            &&& number_of_options_2 <= 0x0f
            &&& ttl <= 0xff_ffff
            &&& counter <= 0x0f
        },
    }
}

/// Whether a transport protocol reads back as itself: a `Generic` value
/// that collides with TCP's or UDP's protocol number decodes to the named
/// variant instead.
pub open spec fn spec_transport_protocol_roundtrips(tp: TransportProtocol) -> bool {
    match tp {
        TransportProtocol::Generic(v) => v != 0x06 && v != 0x11,
        _ => true,
    }
}

/// Whether an option reads back as itself: it is writable, and its
/// transport protocol (if it has one) is not a `Generic` duplicate.
pub open spec fn spec_sd_option_roundtrips(o: SomeIpSdOption) -> bool {
    &&& spec_sd_option_writable(o)
    &&& match o {
        SomeIpSdOption::Ipv4Endpoint { transport_protocol, .. } => spec_transport_protocol_roundtrips(transport_protocol),
        SomeIpSdOption::Ipv6Endpoint { transport_protocol, .. } => spec_transport_protocol_roundtrips(transport_protocol),
        SomeIpSdOption::Ipv4Multicast { transport_protocol, .. } => spec_transport_protocol_roundtrips(transport_protocol),
        SomeIpSdOption::Ipv6Multicast { transport_protocol, .. } => spec_transport_protocol_roundtrips(transport_protocol),
        SomeIpSdOption::Ipv4SdEndpoint { transport_protocol, .. } => spec_transport_protocol_roundtrips(transport_protocol),
        SomeIpSdOption::Ipv6SdEndpoint { transport_protocol, .. } => spec_transport_protocol_roundtrips(transport_protocol),
        _ => true,
    }
}

/// Parsing the 16 bytes an in-range entry was written as gives the entry
/// back.
pub proof fn lemma_sd_entry_roundtrip(e: SomeIpSdEntry)
    requires
        spec_sd_entry_valid(e),
    ensures
        spec_parse_sd_entry(spec_sd_entry_bytes(e)) == Ok::<_, err::ReadError>(e),
{
    let b = spec_sd_entry_bytes(e);
    match e {
        SomeIpSdEntry::Service {
            number_of_options_1,
            number_of_options_2,
            service_id,
            instance_id,
            ttl,
            minor_version,
            ..
        } => {
            lemma_nibble_roundtrip(number_of_options_1, number_of_options_2);
            crate::bytes::lemma_be16_roundtrip(service_id, 0, 0);
            crate::bytes::lemma_be16_roundtrip(instance_id, 0, 0);
            lemma_ttl_roundtrip(ttl);
            crate::bytes::lemma_be32_roundtrip(minor_version, 0, 0, 0, 0);
        },
        SomeIpSdEntry::Eventgroup {
            number_of_options_1,
            number_of_options_2,
            service_id,
            instance_id,
            ttl,
            initial_data_requested,
            counter,
            eventgroup_id,
            ..
        } => {
            lemma_nibble_roundtrip(number_of_options_1, number_of_options_2);
            crate::bytes::lemma_be16_roundtrip(service_id, 0, 0);
            crate::bytes::lemma_be16_roundtrip(instance_id, 0, 0);
            crate::bytes::lemma_be16_roundtrip(eventgroup_id, 0, 0);
            lemma_ttl_roundtrip(ttl);
            lemma_counter_roundtrip(counter);
        },
    }
}

/// Packing two nibbles into one byte keeps both recoverable.
proof fn lemma_nibble_roundtrip(n1: u8, n2: u8)
    by (bit_vector)
    requires
        n1 <= 0x0f,
        n2 <= 0x0f,
    ensures
        ((n1 << 4) | (n2 & 0x0f)) >> 4 == n1,
        ((n1 << 4) | (n2 & 0x0f)) & 0x0f == n2,
{
}

/// The three TTL bytes of a 24-bit value decode back to the value.
proof fn lemma_ttl_roundtrip(ttl: u32)
    by (bit_vector)
    requires
        ttl <= 0xff_ffff,
    ensures
        be32(0, be32_b1(ttl), be32_b2(ttl), be32_b3(ttl)) == ttl,
{
}

/// The packed flag-and-counter byte of an eventgroup entry decodes back to
/// the flag and the counter.
proof fn lemma_counter_roundtrip(counter: u8)
    by (bit_vector)
    requires
        counter <= 0x0f,
    ensures
        ((0x80u8 | (counter & 0x0f)) & 0x80) != 0,
        ((counter & 0x0f) & 0x80) == 0,
        ((0x80u8 | (counter & 0x0f)) & 0x0f) == counter,
        ((counter & 0x0f) & 0x0f) == counter,
{
}

/// Decoding a protocol number written from a round-trippable transport
/// protocol gives the protocol back.
proof fn lemma_transport_protocol_roundtrip(tp: TransportProtocol)
    requires
        spec_transport_protocol_roundtrips(tp),
    ensures
        spec_transport_protocol_of_raw(spec_transport_protocol_raw(tp)) == tp,
{
}

/// Small constant bit facts the option round trip rests on.
proof fn lemma_option_bit_facts()
    by (bit_vector)
    ensures
        be16_hi(5u16) == 0 && be16_lo(5u16) == 5,
        be16_hi(9u16) == 0 && be16_lo(9u16) == 9,
        be16_hi(21u16) == 0 && be16_lo(21u16) == 21,
        be16(0u8, 5u8) == 5,
        be16(0u8, 9u8) == 9,
        be16(0u8, 21u8) == 21,
{
}

/// Parsing the bytes a round-trippable option was written as — with
/// anything behind them — consumes exactly those bytes and gives the option
/// back.
pub proof fn lemma_sd_option_roundtrip(o: SomeIpSdOption, rest: Seq<u8>)
    requires
        spec_sd_option_roundtrips(o),
    ensures
        spec_parse_sd_option_len(spec_sd_option_bytes(o) + rest) == Ok::<_, err::ReadError>(
            spec_sd_option_bytes(o).len() as int,
        ),
        spec_parsed_sd_option(spec_sd_option_bytes(o) + rest, o),
{
    let ob = spec_sd_option_bytes(o);
    let b = ob + rest;
    lemma_option_bit_facts();
    match o {
        SomeIpSdOption::Configuration { configuration_string } => {
            let length = (1 + configuration_string@.len()) as u16;
            crate::bytes::lemma_be16_roundtrip(length, 0, 0);
            assert(be16(b[0], b[1]) == length);
            assert(ob.len() == 4 + configuration_string@.len());
            assert(b.subrange(4, 3 + length as int) =~= configuration_string@);
        },
        SomeIpSdOption::LoadBalancing { priority, weight } => {
            crate::bytes::lemma_be16_roundtrip(priority, 0, 0);
            crate::bytes::lemma_be16_roundtrip(weight, 0, 0);
            assert(be16(b[4], b[5]) == priority && be16(b[6], b[7]) == weight);
        },
        SomeIpSdOption::Ipv4Endpoint { ipv4_address, transport_protocol, transport_protocol_number } => {
            lemma_ip4_option_roundtrip(
                0x04,
                ipv4_address,
                transport_protocol,
                transport_protocol_number,
                rest,
            );
        },
        SomeIpSdOption::Ipv4Multicast { ipv4_address, transport_protocol, transport_protocol_number } => {
            lemma_ip4_option_roundtrip(
                0x14,
                ipv4_address,
                transport_protocol,
                transport_protocol_number,
                rest,
            );
        },
        SomeIpSdOption::Ipv4SdEndpoint { ipv4_address, transport_protocol, transport_protocol_number } => {
            lemma_ip4_option_roundtrip(
                0x24,
                ipv4_address,
                transport_protocol,
                transport_protocol_number,
                rest,
            );
        },
        SomeIpSdOption::Ipv6Endpoint { ipv6_address, transport_protocol, transport_protocol_number } => {
            lemma_ip6_option_roundtrip(
                0x06,
                ipv6_address,
                transport_protocol,
                transport_protocol_number,
                rest,
            );
        },
        SomeIpSdOption::Ipv6Multicast { ipv6_address, transport_protocol, transport_protocol_number } => {
            lemma_ip6_option_roundtrip(
                0x16,
                ipv6_address,
                transport_protocol,
                transport_protocol_number,
                rest,
            );
        },
        SomeIpSdOption::Ipv6SdEndpoint { ipv6_address, transport_protocol, transport_protocol_number } => {
            lemma_ip6_option_roundtrip(
                0x26,
                ipv6_address,
                transport_protocol,
                transport_protocol_number,
                rest,
            );
        },
        SomeIpSdOption::UnknownDiscardable { .. } => {
            assert(false);
        },
    }
}

/// The 12 bytes of an IPv4 endpoint-shaped option decode back to its
/// address, protocol and port.
proof fn lemma_ip4_option_roundtrip(
    t: u8,
    address: [u8; 4],
    tp: TransportProtocol,
    port: u16,
    rest: Seq<u8>,
)
    requires
        t == 0x04 || t == 0x14 || t == 0x24,
        spec_transport_protocol_roundtrips(tp),
    ensures
        ({
            let b = spec_ip_option_bytes(9, t, address@, tp, port) + rest;
            &&& spec_parse_sd_option_len(b) == Ok::<_, err::ReadError>(12int)
            &&& be16(b[0], b[1]) == 9
            &&& b[2] == t
            &&& [b[4], b[5], b[6], b[7]] == address
            &&& spec_transport_protocol_of_raw(b[9]) == tp
            &&& be16(b[10], b[11]) == port
        }),
{
    let b = spec_ip_option_bytes(9, t, address@, tp, port) + rest;
    lemma_option_bit_facts();
    crate::bytes::lemma_be16_roundtrip(port, 0, 0);
    lemma_transport_protocol_roundtrip(tp);
    assert(b[4] == address@[0] && b[5] == address@[1] && b[6] == address@[2] && b[7]
        == address@[3]);
    assert([b[4], b[5], b[6], b[7]]@ =~= address@);
    assert([b[4], b[5], b[6], b[7]] == address) by {
        lemma_array_ext4([b[4], b[5], b[6], b[7]], address);
    }
}

/// The 24 bytes of an IPv6 endpoint-shaped option decode back to its
/// address, protocol and port.
proof fn lemma_ip6_option_roundtrip(
    t: u8,
    address: [u8; 16],
    tp: TransportProtocol,
    port: u16,
    rest: Seq<u8>,
)
    requires
        t == 0x06 || t == 0x16 || t == 0x26,
        spec_transport_protocol_roundtrips(tp),
    ensures
        ({
            let b = spec_ip_option_bytes(21, t, address@, tp, port) + rest;
            &&& spec_parse_sd_option_len(b) == Ok::<_, err::ReadError>(24int)
            &&& be16(b[0], b[1]) == 21
            &&& b[2] == t
            &&& spec_sixteen(b) == address
            &&& spec_transport_protocol_of_raw(b[21]) == tp
            &&& be16(b[22], b[23]) == port
        }),
{
    let b = spec_ip_option_bytes(21, t, address@, tp, port) + rest;
    lemma_option_bit_facts();
    crate::bytes::lemma_be16_roundtrip(port, 0, 0);
    lemma_transport_protocol_roundtrip(tp);
    assert(forall|k: int| 0 <= k < 16 ==> b[4 + k] == address@[k]);
    assert(spec_sixteen(b)@ =~= address@);
    lemma_array_ext16(spec_sixteen(b), address);
}

/// Two 4-byte arrays with the same bytes are the same array.
proof fn lemma_array_ext4(a: [u8; 4], b: [u8; 4])
    requires
        a@ == b@,
    ensures
        a == b,
{
    assert(a@[0] == b@[0] && a@[1] == b@[1] && a@[2] == b@[2] && a@[3] == b@[3]);
    vstd::array::axiom_array_ext_equal(a, b);
}

/// Two 16-byte arrays with the same bytes are the same array.
proof fn lemma_array_ext16(a: [u8; 16], b: [u8; 16])
    requires
        a@ == b@,
    ensures
        a == b,
{
    vstd::array::axiom_array_ext_equal(a, b);
}

/// Parsing an options region made of round-trippable options — followed by
/// nothing — gives the options back, option by option.
pub proof fn lemma_sd_options_region_roundtrip(options: Seq<SomeIpSdOption>)
    requires
        forall|i: int| 0 <= i < options.len() ==> spec_sd_option_roundtrips(#[trigger] options[i]),
    ensures
        spec_parse_sd_options_err(spec_sd_options_bytes(options)) is None,
        spec_parsed_sd_options(spec_sd_options_bytes(options), options),
    decreases options.len(),
{
    if options.len() == 0 {
    } else {
        let ob = spec_sd_option_bytes(options[0]);
        let rest = spec_sd_options_bytes(options.skip(1));
        let b = ob + rest;
        assert(spec_sd_options_bytes(options) == b);
        lemma_sd_option_roundtrip(options[0], rest);
        lemma_sd_option_bytes_min_len(options[0]);
        assert forall|i: int|
            0 <= i < options.skip(1).len() implies spec_sd_option_roundtrips(
            #[trigger] options.skip(1)[i]) by {
            assert(options.skip(1)[i] == options[i + 1]);
        }
        lemma_sd_options_region_roundtrip(options.skip(1));
        assert(b.skip(ob.len() as int) =~= rest);
        assert(options.skip(1) =~= options.skip(1));
        assert(spec_parsed_sd_options(b, options));
    }
}

/// A writable option's record is at least 4 bytes long, and exactly as long
/// as its length field plus 3.
proof fn lemma_sd_option_bytes_min_len(o: SomeIpSdOption)
    requires
        spec_sd_option_writable(o),
    ensures
        spec_sd_option_bytes(o).len() >= 4,
{
}

/// Round trip of a whole SD PDU: reading the bytes a header was written as
/// succeeds and gives back the flags, the entries and the options — for
/// every header whose entries are in range, whose options are writable and
/// round-trippable, and whose arrays stay within the pre-read safety caps.
pub proof fn lemma_sd_header_roundtrip(h: SomeIpSdHeader)
    requires
        forall|i: int| 0 <= i < h.entries@.len() ==> spec_sd_entry_valid(#[trigger] h.entries@[i]),
        forall|i: int|
            0 <= i < h.options@.len() ==> spec_sd_option_roundtrips(#[trigger] h.options@[i]),
        spec_sd_entries_bytes(h.entries@).len() <= 1388,
        spec_sd_options_bytes(h.options@).len() <= 1388,
    ensures
        ({
            let eb = spec_sd_entries_bytes(h.entries@);
            let ob = spec_sd_options_bytes(h.options@);
            let bytes = seq![
                spec_sd_flags_byte(h.reboot, h.unicast, h.explicit_initial_data_control),
                0u8,
                0u8,
                0u8,
            ] + spec_be4(eb.len() as u32) + eb + spec_be4(ob.len() as u32) + ob;
            &&& spec_parse_sd_err(bytes) is None
            &&& ((bytes[0] & 0x80) != 0) == h.reboot
            &&& ((bytes[0] & 0x40) != 0) == h.unicast
            &&& ((bytes[0] & 0x20) != 0) == h.explicit_initial_data_control
            &&& spec_parse_sd_entries(
                bytes.skip(8),
                be32(bytes[4], bytes[5], bytes[6], bytes[7]) as int / 16,
            ) == Ok::<_, err::ReadError>(h.entries@)
            &&& ({
                let n = be32(bytes[4], bytes[5], bytes[6], bytes[7]) as int / 16;
                let off = 8 + 16 * n;
                let options_len = be32(bytes[off], bytes[off + 1], bytes[off + 2], bytes[off + 3]);
                spec_parsed_sd_options(
                    bytes.subrange(off + 4, off + 4 + options_len),
                    h.options@,
                )
            })
        }),
{
    let eb = spec_sd_entries_bytes(h.entries@);
    let ob = spec_sd_options_bytes(h.options@);
    let bytes = seq![
        spec_sd_flags_byte(h.reboot, h.unicast, h.explicit_initial_data_control),
        0u8,
        0u8,
        0u8,
    ] + spec_be4(eb.len() as u32) + eb + spec_be4(ob.len() as u32) + ob;
    lemma_sd_entries_bytes_len(h.entries@);
    lemma_sd_flags_bits(h.reboot, h.unicast, h.explicit_initial_data_control);
    crate::bytes::lemma_be32_roundtrip(eb.len() as u32, 0, 0, 0, 0);
    crate::bytes::lemma_be32_roundtrip(ob.len() as u32, 0, 0, 0, 0);
    assert(bytes[4] == be32_b0(eb.len() as u32) && bytes[5] == be32_b1(eb.len() as u32) && bytes[6]
        == be32_b2(eb.len() as u32) && bytes[7] == be32_b3(eb.len() as u32));
    let entries_len = be32(bytes[4], bytes[5], bytes[6], bytes[7]);
    assert(entries_len == eb.len());
    let n = entries_len as int / 16;
    assert(16 * h.entries@.len() as int / 16 == h.entries@.len() as int) by (nonlinear_arith);
    assert(n == h.entries@.len());
    assert(bytes.len() == 12 + eb.len() + ob.len());
    // the entries parse back
    lemma_sd_entries_region_roundtrip(h.entries@, spec_be4(ob.len() as u32) + ob);
    assert(bytes.skip(8) =~= eb + (spec_be4(ob.len() as u32) + ob));
    // the options length field sits right behind the entries
    let off = 8 + 16 * n;
    assert(bytes[off] == be32_b0(ob.len() as u32) && bytes[off + 1] == be32_b1(ob.len() as u32)
        && bytes[off + 2] == be32_b2(ob.len() as u32) && bytes[off + 3] == be32_b3(
        ob.len() as u32,
    ));
    let options_len = be32(bytes[off], bytes[off + 1], bytes[off + 2], bytes[off + 3]);
    assert(options_len == ob.len());
    assert(bytes.subrange(off + 4, off + 4 + options_len as int) =~= ob);
    lemma_sd_options_region_roundtrip(h.options@);
}

/// The flag bits of the flags byte read back as the three flags.
proof fn lemma_sd_flags_bits(reboot: bool, unicast: bool, explicit: bool)
    ensures
        ((spec_sd_flags_byte(reboot, unicast, explicit) & 0x80) != 0) == reboot,
        ((spec_sd_flags_byte(reboot, unicast, explicit) & 0x40) != 0) == unicast,
        ((spec_sd_flags_byte(reboot, unicast, explicit) & 0x20) != 0) == explicit,
{
    assert forall|x: u8|
        true implies ((x | 0x40) & 0x80) == (x & 0x80) && ((x | 0x20) & 0x80) == (x & 0x80) && ((x
        | 0x20) & 0x40) == (x & 0x40) && (((x | 0x40) & 0x40) != 0) && (((x | 0x20) & 0x20) != 0)
        && ((x | 0x40) & 0x20) == (x & 0x20) by {
        assert(((x | 0x40) & 0x80) == (x & 0x80) && ((x | 0x20) & 0x80) == (x & 0x80) && ((x
            | 0x20) & 0x40) == (x & 0x40) && (((x | 0x40) & 0x40) != 0) && (((x | 0x20) & 0x20)
            != 0) && ((x | 0x40) & 0x20) == (x & 0x20)) by (bit_vector);
    }
    assert((0x80u8 & 0x80) != 0 && (0u8 & 0x80) == 0 && (0x80u8 & 0x40) == 0 && (0u8 & 0x40) == 0
        && (0x80u8 & 0x20) == 0 && (0u8 & 0x20) == 0) by (bit_vector);
}

/// Parsing `n` consecutive entry records written from `n` valid entries —
/// with anything behind them — gives the entries back.
pub proof fn lemma_sd_entries_region_roundtrip(entries: Seq<SomeIpSdEntry>, rest: Seq<u8>)
    requires
        forall|i: int| 0 <= i < entries.len() ==> spec_sd_entry_valid(#[trigger] entries[i]),
    ensures
        spec_parse_sd_entries(
            spec_sd_entries_bytes(entries) + rest,
            entries.len() as int,
        ) == Ok::<_, err::ReadError>(entries),
    decreases entries.len(),
{
    if entries.len() == 0 {
        assert(spec_sd_entries_bytes(entries) + rest =~= rest);
        assert(Seq::<SomeIpSdEntry>::empty() =~= entries);
    } else {
        let head = spec_sd_entry_bytes(entries[0]);
        let tail_bytes = spec_sd_entries_bytes(entries.skip(1));
        let b = spec_sd_entries_bytes(entries) + rest;
        assert(b =~= head + (tail_bytes + rest));
        lemma_sd_entry_roundtrip(entries[0]);
        assert forall|k: int| 0 <= k < 16 implies b[k] == head[k] by {}
        assert(spec_parse_sd_entry(b) == spec_parse_sd_entry(head)) by {
            lemma_parse_sd_entry_prefix(b, head);
        }
        assert forall|i: int|
            0 <= i < entries.skip(1).len() implies spec_sd_entry_valid(
            #[trigger] entries.skip(1)[i]) by {
            assert(entries.skip(1)[i] == entries[i + 1]);
        }
        lemma_sd_entries_region_roundtrip(entries.skip(1), rest);
        assert(b.skip(16) =~= tail_bytes + rest);
        assert(seq![entries[0]] + entries.skip(1) =~= entries);
    }
}

/// Parsing an entry record reads only its 16 bytes.
proof fn lemma_parse_sd_entry_prefix(b: Seq<u8>, head: Seq<u8>)
    requires
        head.len() == 16,
        b.len() >= 16,
        forall|k: int| 0 <= k < 16 ==> b[k] == head[k],
    ensures
        spec_parse_sd_entry(b) == spec_parse_sd_entry(head),
{
}

} // verus!
