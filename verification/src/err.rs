//! Error types of the SOME/IP codec and reassembler.
use vstd::prelude::*;

verus! {

/// The protocol layer an error was encountered in.
#[derive(Copy, Clone, Debug, Eq, PartialEq, Ord, PartialOrd, Hash)]
pub enum Layer {
    SomeipHeader,
    SomeipTpHeader,
    SomeipPayload,
}

impl Layer {
    /// Title line used when the layer is named in an error message.
    pub fn error_title(&self) -> (r: &'static str)
        ensures
            *self is SomeipHeader ==> r@ == "SOMEIP Header Error"@,
            *self is SomeipTpHeader ==> r@ == "SOMEIP TP Header Error"@,
            *self is SomeipPayload ==> r@ == "SOMEIP Payload Error"@,
    {
        match self {
            Layer::SomeipHeader => "SOMEIP Header Error",
            Layer::SomeipTpHeader => "SOMEIP TP Header Error",
            Layer::SomeipPayload => "SOMEIP Payload Error",
        }
    }

    /// Human readable name of the layer.
    pub fn display_string(&self) -> (r: &'static str)
        ensures
            *self is SomeipHeader ==> r@ == "SOMEIP header"@,
            *self is SomeipTpHeader ==> r@ == "SOMEIP TP header"@,
            *self is SomeipPayload ==> r@ == "SOMEIP payload"@,
    {
        match self {
            Layer::SomeipHeader => "SOMEIP header",
            Layer::SomeipTpHeader => "SOMEIP TP header",
            Layer::SomeipPayload => "SOMEIP payload",
        }
    }
}

/// Source of the length that limited or exceeded a required length: the
/// slice handed in by the caller, or the length calculated from the `length`
/// field of the SOME/IP header.
#[derive(Copy, Clone, Debug, Eq, PartialEq, Ord, PartialOrd, Hash)]
pub enum LenSource {
    Slice,
    SomeipHeaderLength,
}

/// Error when different lengths are conflicting with each other (e.g. not
/// enough data in a slice to decode a header).
///
/// Whenever the error is caused by not enough data being available,
/// `required_len > len` holds.
#[derive(Clone, Copy, Debug, Eq, PartialEq, Ord, PartialOrd, Hash)]
pub struct LenError {
    /// Expected minimum or maximum length conflicting with the `len` value.
    pub required_len: usize,
    /// Length limiting or exceeding the required length.
    pub len: usize,
    /// Source of the outer length (e.g. the slice, or a length specified by
    /// an upper level protocol).
    pub len_source: LenSource,
    /// Layer in which the length error was encountered.
    pub layer: Layer,
}

impl LenError {
    /// Human readable message describing the error.
    pub fn display_string(&self) -> String {
        let len_source: &'static str = match self.len_source {
            LenSource::Slice => "slice length",
            LenSource::SomeipHeaderLength => "length calculated from the SOMEIP header 'length' field",
        };
        fmt_len_error(
            self.layer.error_title(),
            self.layer.display_string(),
            self.required_len,
            self.len,
            len_source,
        )
    }
}

/// Relies on alloc's `format!` to render the length error message.
#[verifier::external_body]
fn fmt_len_error(title: &str, layer: &str, required_len: usize, len: usize, source: &str) -> String {
    format!(
        "{}: Not enough data to decode '{}'. {} byte(s) would be required, but only {} byte(s) are available based on the {}.",
        title, layer, required_len, len, source,
    )
}

/// Errors caused by the contents of a SOME/IP header.
#[derive(Clone, Copy, Debug, Eq, PartialEq, Ord, PartialOrd, Hash)]
pub enum SomeipHeaderError {
    /// The protocol version field contains a version that is not supported.
    UnsupportedProtocolVersion(u8),
    /// The SOME/IP header has a value in the length field that is smaller
    /// than the rest of the SOME/IP header itself (8 bytes).
    LengthFieldTooSmall(u32),
    /// The message type field contains an unknown value.
    UnknownMessageType(u8),
}

impl SomeipHeaderError {
    /// Human readable message describing the error.
    pub fn display_string(&self) -> String {
        match self {
            SomeipHeaderError::UnsupportedProtocolVersion(v) => fmt_unsupported_protocol_version(*v),
            SomeipHeaderError::LengthFieldTooSmall(l) => fmt_length_field_too_small(*l),
            SomeipHeaderError::UnknownMessageType(t) => fmt_unknown_message_type(*t),
        }
    }
}

/// Relies on alloc's `format!` to render the message.
#[verifier::external_body]
fn fmt_unsupported_protocol_version(bad_version: u8) -> String {
    format!("Unsupported protocol version '{bad_version}' found in SOMEIP header.")
}

/// Relies on alloc's `format!` to render the message.
#[verifier::external_body]
fn fmt_length_field_too_small(l: u32) -> String {
    format!("Length '{l}' present in the SOMEIP header is smaller then the minimum allowed lenght of 8.")
}

/// Relies on alloc's `format!` to render the message.
#[verifier::external_body]
fn fmt_unknown_message_type(t: u8) -> String {
    format!("Unknown message type '{t}' found in SOMEIP header.")
}

/// Declares `std::io::Error` so that error enums can carry the I/O errors
/// that unverified readers and writers hand back.
#[verifier::external_type_specification]
#[verifier::external_body]
pub struct ExIoError(std::io::Error);

/// Error when reading a SOME/IP header from a byte stream.
#[derive(Debug)]
pub enum SomeipHeaderReadError {
    /// An I/O error of the byte source, surfaced without interpretation.
    Io(std::io::Error),
    /// Error caused by the contents of the header.
    Content(SomeipHeaderError),
}

impl SomeipHeaderReadError {
    /// The I/O error, if the error is one.
    pub fn io_error(self) -> (r: Option<std::io::Error>)
        ensures
            r is Some <==> self is Io,
    {
        match self {
            SomeipHeaderReadError::Io(value) => Some(value),
            _ => None,
        }
    }

    /// The content error, if the error is one.
    pub fn content_error(self) -> (r: Option<SomeipHeaderError>)
        ensures
            r == match self {
                SomeipHeaderReadError::Content(value) => Some(value),
                _ => None::<SomeipHeaderError>,
            },
    {
        match self {
            SomeipHeaderReadError::Content(value) => Some(value),
            _ => None,
        }
    }

    /// Human readable message describing the error.
    pub fn display_string(&self) -> String {
        match self {
            SomeipHeaderReadError::Io(err) => fmt_someip_header_io_error(err),
            SomeipHeaderReadError::Content(value) => value.display_string(),
        }
    }
}

/// Relies on `std::io::Error`'s display rendering and alloc's `format!`.
#[verifier::external_body]
fn fmt_someip_header_io_error(err: &std::io::Error) -> String {
    format!("SOMEIP Header IO Error: {}", err)
}

/// Error when decoding a SOME/IP header & payload from a slice.
#[derive(Clone, Copy, Debug, Eq, PartialEq, Ord, PartialOrd, Hash)]
pub enum SomeipSliceError {
    /// A length error (e.g. unexpected end of slice).
    Len(LenError),
    /// Error caused by the contents of the header.
    Content(SomeipHeaderError),
}

impl SomeipSliceError {
    /// Human readable message describing the error.
    pub fn display_string(&self) -> String {
        match self {
            SomeipSliceError::Len(err) => err.display_string(),
            SomeipSliceError::Content(value) => value.display_string(),
        }
    }
}

/// Errors that can occur when reading SOME/IP headers or payloads.
#[derive(Debug)]
pub enum ReadError {
    IoError(std::io::Error),
    /// Allocation error when trying to reserve memory.
    AllocationError(std::collections::TryReserveError),
    /// The slice length was not large enough to contain the header.
    UnexpectedEndOfSlice(usize),
    /// The protocol version field contains a version that is not supported.
    UnsupportedProtocolVersion(u8),
    /// The SOME/IP header has a value in the length field that is smaller
    /// than the rest of the SOME/IP header itself (8 bytes).
    LengthFieldTooSmall(u32),
    /// The message type field contains an unknown value.
    UnknownMessageType(u8),
    /// The SD eventgroup entry type field contains an unknown value.
    UnknownSdEventGroupEntryType(u8),
    /// The SD service entry type field contains an unknown value.
    UnknownSdServiceEntryType(u8),
    /// The SD option type contains an unknown value.
    UnknownSdOptionType(u8),
    /// The SD entries array length is greater than the pre-read safety cap.
    SdEntriesArrayLengthTooLarge(u32),
    /// The SD options array length is greater than the pre-read safety cap.
    SdOptionsArrayLengthTooLarge(u32),
    /// The length in an SD option is zero (minimum valid size is 1).
    SdOptionLengthZero,
    /// The `length` of an SD option was different than expected.
    SdOptionUnexpectedLen { expected_len: u16, actual_len: u16, option_type: u8 },
}

/// Errors that can occur when reading SD entries and options.
#[derive(Debug)]
pub enum SdReadError {
    IoError(std::io::Error),
    /// Allocation error when trying to reserve memory.
    AllocationError(std::collections::TryReserveError),
    /// The slice length was not large enough to contain the header.
    UnexpectedEndOfSlice(usize),
    /// The SD eventgroup entry type field contains an unknown value.
    UnknownSdEventGroupEntryType(u8),
    /// The SD service entry type field contains an unknown value.
    UnknownSdServiceEntryType(u8),
    /// The SD option type contains an unknown value.
    UnknownSdOptionType(u8),
    /// The SD entries array length is greater than the pre-read safety cap.
    SdEntriesArrayLengthTooLarge(u32),
    /// The SD options array length is greater than the pre-read safety cap.
    SdOptionsArrayLengthTooLarge(u32),
    /// The length in an SD option is zero (minimum valid size is 1).
    SdOptionLengthZero,
    /// The `length` of an SD option was different than expected.
    SdOptionUnexpectedLen { expected_len: u16, actual_len: u16, option_type: u8 },
}

/// Range errors in fields of the SOME/IP & TP header structs. These can
/// occur when serializing or modifying a header.
#[derive(Clone, Copy, Debug, Eq, PartialEq, Ord, PartialOrd, Hash)]
pub enum ValueError {
    /// Payload length is too long as 8 bytes for the header have to be added.
    LengthTooLarge(u32),
    /// Offset of the TP header is not a multiple of 16.
    TpOffsetNotMultipleOf16(u32),
    /// Counter value exceeds 4 bit.
    CounterTooLarge(u8),
    /// TTL exceeds 24 bit.
    TtlTooLarge(u32),
    /// A TTL of zero indicates stop offering of a service entry.
    TtlZeroIndicatesStopOffering,
    /// Number of options 1 exceeds 4 bit.
    NumberOfOption1TooLarge(u8),
    /// Number of options 2 exceeds 4 bit.
    NumberOfOption2TooLarge(u8),
    /// An unknown-discardable SD option has been passed to a write function.
    /// Such options are only intended to be used in read functions.
    SdUnknownDiscardableOption(u8),
}

/// Range errors in fields of SD entries and options. These can occur when
/// serializing or modifying them.
#[derive(Clone, Copy, Debug, Eq, PartialEq, Ord, PartialOrd, Hash)]
pub enum SdValueError {
    /// Counter value exceeds 4 bit.
    CounterTooLarge(u8),
    /// TTL exceeds 24 bit.
    TtlTooLarge(u32),
    /// A TTL of zero indicates stop offering of a service entry.
    TtlZeroIndicatesStopOffering,
    /// Number of options 1 exceeds 4 bit.
    NumberOfOption1TooLarge(u8),
    /// Number of options 2 exceeds 4 bit.
    NumberOfOption2TooLarge(u8),
    /// An unknown-discardable SD option has been passed to a write function.
    /// Such options are only intended to be used in read functions.
    SdUnknownDiscardableOption(u8),
}

/// Errors that can occur when serializing a SOME/IP & TP header.
#[derive(Debug)]
pub enum WriteError {
    IoError(std::io::Error),
    /// The slice length was not large enough to write the header.
    UnexpectedEndOfSlice(usize),
    /// Error in the data that was attempted to be written.
    ValueError(ValueError),
}

/// Errors that can occur when serializing SD entries and options.
#[derive(Debug)]
pub enum SdWriteError {
    IoError(std::io::Error),
    /// The slice length was not large enough to write the header.
    UnexpectedEndOfSlice(usize),
    /// Error in the data that was attempted to be written.
    ValueError(SdValueError),
}

impl From<std::io::Error> for ReadError {
    /// Wraps an I/O error of the byte source.
    fn from(e: std::io::Error) -> (r: ReadError)
        ensures
            r is IoError,
    {
        ReadError::IoError(e)
    }
}

impl vstd::std_specs::convert::FromSpecImpl<std::io::Error> for ReadError {
    open spec fn obeys_from_spec() -> bool {
        true
    }

    open spec fn from_spec(e: std::io::Error) -> ReadError {
        ReadError::IoError(e)
    }
}

impl From<std::io::Error> for SdReadError {
    /// Wraps an I/O error of the byte source.
    fn from(e: std::io::Error) -> (r: SdReadError)
        ensures
            r is IoError,
    {
        SdReadError::IoError(e)
    }
}

impl vstd::std_specs::convert::FromSpecImpl<std::io::Error> for SdReadError {
    open spec fn obeys_from_spec() -> bool {
        true
    }

    open spec fn from_spec(e: std::io::Error) -> SdReadError {
        SdReadError::IoError(e)
    }
}

impl From<std::io::Error> for WriteError {
    /// Wraps an I/O error of the byte sink.
    fn from(e: std::io::Error) -> (r: WriteError)
        ensures
            r is IoError,
    {
        WriteError::IoError(e)
    }
}

impl vstd::std_specs::convert::FromSpecImpl<std::io::Error> for WriteError {
    open spec fn obeys_from_spec() -> bool {
        true
    }

    open spec fn from_spec(e: std::io::Error) -> WriteError {
        WriteError::IoError(e)
    }
}

impl From<ValueError> for WriteError {
    /// Wraps an error in the data that was attempted to be written.
    fn from(e: ValueError) -> (r: WriteError)
        ensures
            r == WriteError::ValueError(e),
    {
        WriteError::ValueError(e)
    }
}

impl vstd::std_specs::convert::FromSpecImpl<ValueError> for WriteError {
    open spec fn obeys_from_spec() -> bool {
        true
    }

    open spec fn from_spec(e: ValueError) -> WriteError {
        WriteError::ValueError(e)
    }
}

impl From<std::io::Error> for SdWriteError {
    /// Wraps an I/O error of the byte sink.
    fn from(e: std::io::Error) -> (r: SdWriteError)
        ensures
            r is IoError,
    {
        SdWriteError::IoError(e)
    }
}

impl vstd::std_specs::convert::FromSpecImpl<std::io::Error> for SdWriteError {
    open spec fn obeys_from_spec() -> bool {
        true
    }

    open spec fn from_spec(e: std::io::Error) -> SdWriteError {
        SdWriteError::IoError(e)
    }
}

impl From<SdValueError> for SdWriteError {
    /// Wraps an error in the data that was attempted to be written.
    fn from(e: SdValueError) -> (r: SdWriteError)
        ensures
            r == SdWriteError::ValueError(e),
    {
        SdWriteError::ValueError(e)
    }
}

impl vstd::std_specs::convert::FromSpecImpl<SdValueError> for SdWriteError {
    open spec fn obeys_from_spec() -> bool {
        true
    }

    open spec fn from_spec(e: SdValueError) -> SdWriteError {
        SdWriteError::ValueError(e)
    }
}

/// Error when not enough space is available in a slice to write a packet or
/// header to it.
#[derive(Clone, Copy, Debug, Eq, PartialEq, Ord, PartialOrd, Hash)]
pub struct SliceWriteSpaceError {
    /// Expected minimum length conflicting with the `len` value.
    pub required_len: usize,
    /// Length limiting or exceeding the required length.
    pub len: usize,
    /// Layer which could not be written to the slice.
    pub layer: Layer,
}

impl SliceWriteSpaceError {
    /// Human readable message describing the error.
    pub fn display_string(&self) -> String {
        fmt_slice_write_space_error(self.layer.display_string(), self.required_len, self.len)
    }
}

/// Relies on alloc's `format!` to render the message.
#[verifier::external_body]
fn fmt_slice_write_space_error(layer: &str, required_len: usize, len: usize) -> String {
    format!(
        "Not enough space to write {} to slice. Needed {} byte(s), but only {} byte(s) were available.",
        layer, required_len, len,
    )
}

/// Errors of a TP buffer configuration.
#[derive(Clone, Copy, Debug, Eq, PartialEq, Ord, PartialOrd, Hash)]
pub enum TpBufConfigError {
    /// The configured maximum payload is bigger than the possible value.
    MaxPayloadLenTooBig { allowed_max: u32, actual: u32 },
}

impl TpBufConfigError {
    /// Human readable message describing the error.
    pub fn display_string(&self) -> String {
        match self {
            TpBufConfigError::MaxPayloadLenTooBig { allowed_max, actual } => fmt_max_payload_len_too_big(
                *allowed_max,
                *actual,
            ),
        }
    }
}

/// Relies on alloc's `format!` to render the message.
#[verifier::external_body]
fn fmt_max_payload_len_too_big(allowed_max: u32, actual: u32) -> String {
    format!("TP pool config 'maximum payload value' {actual} is bigger then the maximum allowed value {allowed_max}.")
}

/// Error if the offset of a TP header is not a multiple of 16.
///
/// The offset field transports the upper 28 bits of a u32; the lower 4 bits
/// are always interpreted as 0, so the field can only transport offset
/// values that are multiples of 16 bytes.
#[derive(Clone, Copy, Debug, Eq, PartialEq, Ord, PartialOrd, Hash)]
pub struct TpOffsetNotMultipleOf16Error {
    pub bad_offset: u32,
}

impl TpOffsetNotMultipleOf16Error {
    /// Human readable message describing the error.
    pub fn display_string(&self) -> String {
        fmt_tp_offset_not_multiple_of_16(self.bad_offset)
    }
}

/// Relies on alloc's `format!` to render the message.
#[verifier::external_body]
fn fmt_tp_offset_not_multiple_of_16(bad_offset: u32) -> String {
    format!("Error SOMEIP TP offset {} is not a multiple of 16 (this is required).", bad_offset)
}

/// Errors of the TP reassembler.
#[derive(Clone, Copy, Debug, Eq, PartialEq, Ord, PartialOrd, Hash)]
pub enum TpReassembleError {
    /// A payload length of a SOME/IP TP packet is not a multiple of 16 while
    /// the "more segments" flag is set.
    UnalignedTpPayloadLen { offset: u32, payload_len: usize },
    /// A segment is bigger than the maximum allowed size.
    SegmentTooBig { offset: u32, payload_len: usize, max: u32 },
    /// Multiple TP segments were received with the "more segments" flag
    /// unset and differing end points.
    ConflictingEnd {
        /// Offset + payload length of the previous packet with the "more
        /// segments" flag unset.
        previous_end: u32,
        /// Offset + payload length of the current packet.
        conflicting_end: u32,
    },
    /// Not enough memory could be allocated to store the TP payload.
    AllocationFailure { len: usize },
}

impl TpReassembleError {
    /// Human readable message describing the error.
    pub fn display_string(&self) -> String {
        match self {
            TpReassembleError::UnalignedTpPayloadLen { offset, payload_len } => fmt_unaligned_tp_payload_len(
                *offset,
                *payload_len,
            ),
            TpReassembleError::SegmentTooBig { offset, payload_len, max } => fmt_segment_too_big(
                *offset,
                *payload_len,
                *max,
            ),
            TpReassembleError::ConflictingEnd { previous_end, conflicting_end } => fmt_conflicting_end(
                *previous_end,
                *conflicting_end,
            ),
            TpReassembleError::AllocationFailure { len } => fmt_allocation_failure(*len),
        }
    }
}

/// Relies on alloc's `format!` to render the message.
#[verifier::external_body]
fn fmt_unaligned_tp_payload_len(offset: u32, payload_len: usize) -> String {
    format!("Payload length {payload_len} of SOMEIP TP segment (offset {offset}) is not a multiple of 16. This is only allowed for TP packets where the 'more segements' flag is not set.")
}

/// Relies on alloc's `format!` to render the message.
#[verifier::external_body]
fn fmt_segment_too_big(offset: u32, payload_len: usize, max: u32) -> String {
    format!("Overall length of TP segment (offset {offset}, payload len: {payload_len}) bigger then the maximum allowed size of {max}.")
}

/// Relies on alloc's `format!` to render the message.
#[verifier::external_body]
fn fmt_conflicting_end(previous_end: u32, conflicting_end: u32) -> String {
    format!("Received a TP package (offset + len: {conflicting_end}) which conflicts a package that previously set the end to {previous_end}.")
}

/// Relies on alloc's `format!` to render the message.
#[verifier::external_body]
fn fmt_allocation_failure(len: usize) -> String {
    format!("Faield to allocate {len} bytes of memory to reconstruct the SOMEIP TP packets.")
}

} // verus!
