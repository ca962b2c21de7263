//! Parsing, construction and reassembly of SOME/IP messages, including the
//! SOME/IP-TP segmentation extension and the Service Discovery sub-protocol.
//!
//! The crate offers:
//!
//! * a framing codec that validates a byte range as a well formed SOME/IP
//!   message and exposes bit exact field accessors ([`SomeipMsgSlice`],
//!   [`SomeipHeader`], [`TpHeader`]),
//! * an iterator over concatenated messages in one transport payload
//!   ([`SomeipMsgsIterator`]),
//! * a reassembly engine for SOME/IP-TP segments ([`TpBuf`], [`TpPool`]),
//! * a codec for Service Discovery entries and options ([`SomeIpSdHeader`],
//!   [`SomeIpSdEntry`], [`SomeIpSdOption`]).
//!
//! All wire formats are big-endian.
use vstd::prelude::*;

pub mod err;

mod bytes;
mod message_type;
mod return_code;
mod sd;
mod section_range;
mod slice_iterator;
mod someip_header;
mod someip_msg_slice;
mod someip_msgs_iterator;
mod tp_buf;
mod tp_buf_config;
mod tp_header;
mod tp_pool;
mod tp_range;

pub use bytes::{be16, be16_hi, be16_lo, be32, be32_b0, be32_b1, be32_b2, be32_b3};
pub use bytes::{read_be_u16, read_be_u32, lemma_be16_roundtrip, lemma_be32_roundtrip};
pub use message_type::MessageType;
pub use return_code::ReturnCode;
pub use sd::{SomeIpSdHeader, SomeIpSdEntry, SomeIpSdOption, SdServiceEntryType,
    SdEventGroupEntryType, SdOptionType, TransportProtocol, MIN_SD_HEADER_LENGTH,
    SERVICE_ENTRY_LENGTH, EVENTGROUP_ENTRY_LENGTH, MAX_SD_ENTRIES_LEN, MAX_SD_OPTIONS_LEN,
    SD_HEADER_REBOOT_FLAG, SD_HEADER_UNICAST_FLAG, SD_HEADER_EXPLICIT_INITIAL_DATA_CONTROL_FLAG,
    EVENT_ENTRY_INITIAL_DATA_REQUESTED_FLAG, SD_OPTION_DISCARDABLE_FLAG, spec_sd_entry_bytes,
    spec_parse_sd_entry, spec_sd_entries_bytes, spec_sd_options_bytes, spec_sd_option_bytes,
    spec_parse_sd_option_len, spec_parsed_sd_option, spec_parse_sd_options_err,
    spec_parsed_sd_options, spec_parse_sd_err, spec_parse_sd_entries, spec_sd_flags_byte,
    spec_first_unwritable, spec_sd_option_raw_type, spec_sd_option_writable, spec_sd_entry_valid,
    spec_sd_option_roundtrips, spec_transport_protocol_roundtrips, lemma_sd_entry_roundtrip,
    lemma_sd_option_roundtrip, lemma_sd_options_region_roundtrip, lemma_sd_header_roundtrip,
    lemma_sd_entries_region_roundtrip};
pub use someip_header::{SomeipHeader, spec_header_base_bytes, spec_header_bytes,
    spec_parse_header_base, spec_message_type_byte, lemma_header_roundtrip};
pub use section_range::{SectionRange, spec_section_range_connected, spec_section_range_merge};
pub use slice_iterator::{SliceIterator, spec_read_error_of};
pub use someip_msg_slice::{SomeipMsgSlice, spec_from_slice_result, spec_slice_to_header,
    lemma_msg_roundtrip};
pub use someip_msgs_iterator::SomeipMsgsIterator;
pub use tp_buf::{TpBuf, spec_be4, spec_grow, spec_overwrite, spec_insert_section,
    spec_consume_check, spec_consume_written, spec_consume_transition, same_buf_state,
    lemma_consume_places_payload, spec_sections_covered, spec_segment_positions,
    lemma_consume_keeps_sections_covered, spec_seg_offset, spec_seg_payload, spec_seg_end,
    spec_seg_range, spec_chain, spec_overlaps_identical, spec_chain_payload_placed,
    spec_chain_header_placed, spec_ranges_separated, spec_sections_separated,
    spec_sections_proper, spec_range_within, spec_all_positions, lemma_chain_payload_bytes,
    lemma_chain_header_bytes, lemma_stream_reassembly};
pub use tp_buf_config::TpBufConfig;
pub use tp_pool::{TpPool, spec_structural_eq, spec_find_key, spec_empty_buf, spec_request_id,
    spec_entries_retained, spec_consume_hit, spec_filter_entries, spec_evicted_bufs,
    spec_retained_by, spec_rejected_with, spec_acceptance_owed};
pub use tp_range::{TpRange, spec_tp_range_connected, spec_tp_range_merge};
pub use tp_header::{TpHeader, spec_tp_header_bytes, spec_parse_tp_header, spec_tp_header,
    lemma_tp_header_roundtrip};

verus! {

/// Maximum allowed TP segment length.
pub const TP_UDP_MAX_SEGMENT_LEN: usize = 1400;

/// Maximum allowed TP aligned segment length.
///
/// All packets except for the last packet (where the "more segments" flag is
/// set to 0) are required to have a length that is a multiple of 16 bytes.
pub const TP_UDP_MAX_SEGMENT_LEN_ALIGNED: usize = 1392;

/// The currently supported protocol version.
pub const SOMEIP_PROTOCOL_VERSION: u8 = 1;

/// Offset that must be subtracted from the length field to determine the
/// length of the actual payload.
pub const SOMEIP_LEN_OFFSET_TO_PAYLOAD: u32 = 8;

/// Maximum payload length supported by SOME/IP. This is NOT the maximum
/// length that is supported when sending packets over UDP. This constant is
/// based on the limitation of the length field data type (u32).
pub const SOMEIP_MAX_PAYLOAD_LEN: u32 = u32::MAX - SOMEIP_LEN_OFFSET_TO_PAYLOAD;

/// The maximum payload size of a SOME/IP UDP message.
pub const SOMEIP_MAX_PAYLOAD_LEN_UDP: u32 = 1400;

/// Length of a SOME/IP header.
pub const SOMEIP_HEADER_LENGTH: usize = 16;

/// Length of the TP header that follows a SOME/IP header if a SOME/IP packet
/// has been flagged as TP.
pub const TP_HEADER_LENGTH: usize = 4;

/// Flag in the message type field marking the packet as a TP message
/// (transporting large SOME/IP messages over UDP).
pub const SOMEIP_HEADER_MESSAGE_TYPE_TP_FLAG: u8 = 0x20;

/// Message id of SOME/IP service discovery messages.
pub const SOMEIP_SD_MESSAGE_ID: u32 = 0xffff_8100;

} // verus!
