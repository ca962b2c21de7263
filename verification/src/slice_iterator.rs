//! Iteration over concatenated SOME/IP messages, reporting errors with the
//! plain [`err::ReadError`] taxonomy.
use vstd::prelude::*;

use crate::err;
use crate::someip_msg_slice::{spec_from_slice_result, SomeipMsgSlice};

verus! {

/// The [`err::ReadError`] that a slice validation error is reported as: a
/// length error becomes `UnexpectedEndOfSlice` carrying the available
/// length, and each content error keeps its value.
pub open spec fn spec_read_error_of(e: err::SomeipSliceError) -> err::ReadError {
    match e {
        err::SomeipSliceError::Len(l) => err::ReadError::UnexpectedEndOfSlice(l.len),
        err::SomeipSliceError::Content(c) => match c {
            err::SomeipHeaderError::UnsupportedProtocolVersion(v) => err::ReadError::UnsupportedProtocolVersion(
                v,
            ),
            err::SomeipHeaderError::LengthFieldTooSmall(l) => err::ReadError::LengthFieldTooSmall(
                l,
            ),
            err::SomeipHeaderError::UnknownMessageType(t) => err::ReadError::UnknownMessageType(t),
        },
    }
}

/// Iterates over the SOME/IP messages in a UDP or TCP payload, reporting
/// errors as plain [`err::ReadError`] values.
///
/// Behaves as [`crate::SomeipMsgsIterator`] does; only the error type
/// differs.
#[derive(Clone, Copy, Debug, Eq, PartialEq)]
pub struct SliceIterator<'a> {
    slice: &'a [u8],
}

impl<'a> View for SliceIterator<'a> {
    type V = Seq<u8>;

    /// The bytes not consumed yet.
    closed spec fn view(&self) -> Seq<u8> {
        self.slice@
    }
}

impl<'a> SliceIterator<'a> {
    /// Creates an iterator over the messages in the given payload.
    pub fn new(slice: &'a [u8]) -> (r: SliceIterator<'a>)
        ensures
            r@ == slice@,
    {
        SliceIterator { slice }
    }

    /// Yields the next message, in wire order.
    ///
    /// Returns `None` once the payload is exhausted. Otherwise validates the
    /// next message: on success yields the message view and consumes exactly
    /// its bytes; on failure yields the validation error and consumes the
    /// rest, so that every later call returns `None`.
    pub fn next(&mut self) -> (r: Option<Result<SomeipMsgSlice<'a>, err::ReadError>>)
        ensures
            old(self)@.len() == 0 ==> (r is None && final(self)@ == old(self)@),
            old(self)@.len() > 0 ==> match spec_from_slice_result(old(self)@) {
                Ok(p) => (r matches Some(q) && (q matches Ok(m) && m.spec_is_tp() == p.0 && m@
                    == old(self)@.take(p.1) && final(self)@ == old(self)@.skip(p.1))),
                Err(e) => r == Some(Err::<SomeipMsgSlice<'a>, _>(spec_read_error_of(e)))
                    && final(self)@.len() == 0,
            },
    {
        if !self.slice.is_empty() {
            let current = self.slice;
            match SomeipMsgSlice::from_slice(current) {
                Err(e) => {
                    let len = self.slice.len();
                    self.slice = &current[len..len];
                    let mapped = match e {
                        err::SomeipSliceError::Len(l) => err::ReadError::UnexpectedEndOfSlice(
                            l.len,
                        ),
                        err::SomeipSliceError::Content(c) => match c {
                            err::SomeipHeaderError::UnsupportedProtocolVersion(v) => err::ReadError::UnsupportedProtocolVersion(
                                v,
                            ),
                            err::SomeipHeaderError::LengthFieldTooSmall(l) => err::ReadError::LengthFieldTooSmall(
                                l,
                            ),
                            err::SomeipHeaderError::UnknownMessageType(t) => err::ReadError::UnknownMessageType(
                                t,
                            ),
                        },
                    };
                    Some(Err(mapped))
                },
                Ok(value) => {
                    let consumed = value.slice().len();
                    self.slice = &current[consumed..current.len()];
                    proof {
                        assert(final(self)@ =~= old(self)@.skip(
                            spec_from_slice_result(old(self)@)->Ok_0.1,
                        ));
                    }
                    Some(Ok(value))
                },
            }
        } else {
            None
        }
    }
}

} // verus!
