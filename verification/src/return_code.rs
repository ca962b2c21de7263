//! Return code contained in a SOME/IP header.
use vstd::prelude::*;

verus! {

/// Return code contained in a SOME/IP header.
///
/// The well known values occupy `0x00..=0x0a`; `Generic` stands for the
/// reserved range `0x0b..=0x1f` and `InterfaceError` for `0x20..=0x5e`,
/// both carrying the raw value.
#[derive(Copy, Clone, Debug, Eq, PartialEq, Ord, PartialOrd, Hash)]
pub enum ReturnCode {
    Okay,
    NotOk,
    UnknownService,
    UnknownMethod,
    NotReady,
    NotReachable,
    Timeout,
    WrongProtocolVersion,
    WrongInterfaceVersion,
    MalformedMessage,
    WrongMessageType,
    Generic(u8),
    InterfaceError(u8),
}

/// The raw byte a return code is written as.
pub open spec fn spec_return_code_raw(r: ReturnCode) -> u8 {
    match r {
        ReturnCode::Okay => 0x00,
        ReturnCode::NotOk => 0x01,
        ReturnCode::UnknownService => 0x02,
        ReturnCode::UnknownMethod => 0x03,
        ReturnCode::NotReady => 0x04,
        ReturnCode::NotReachable => 0x05,
        ReturnCode::Timeout => 0x06,
        ReturnCode::WrongProtocolVersion => 0x07,
        ReturnCode::WrongInterfaceVersion => 0x08,
        ReturnCode::MalformedMessage => 0x09,
        ReturnCode::WrongMessageType => 0x0a,
        ReturnCode::Generic(value) => value,
        ReturnCode::InterfaceError(value) => value,
    }
}

impl From<ReturnCode> for u8 {
    /// The raw byte the return code is written as.
    fn from(r: ReturnCode) -> (v: u8)
        ensures
            v == spec_return_code_raw(r),
    {
        match r {
            ReturnCode::Okay => 0x00,
            ReturnCode::NotOk => 0x01,
            ReturnCode::UnknownService => 0x02,
            ReturnCode::UnknownMethod => 0x03,
            ReturnCode::NotReady => 0x04,
            ReturnCode::NotReachable => 0x05,
            ReturnCode::Timeout => 0x06,
            ReturnCode::WrongProtocolVersion => 0x07,
            ReturnCode::WrongInterfaceVersion => 0x08,
            ReturnCode::MalformedMessage => 0x09,
            ReturnCode::WrongMessageType => 0x0a,
            ReturnCode::Generic(value) => value,
            ReturnCode::InterfaceError(value) => value,
        }
    }
}

impl vstd::std_specs::convert::FromSpecImpl<ReturnCode> for u8 {
    open spec fn obeys_from_spec() -> bool {
        true
    }

    open spec fn from_spec(r: ReturnCode) -> u8 {
        spec_return_code_raw(r)
    }
}

} // verus!
