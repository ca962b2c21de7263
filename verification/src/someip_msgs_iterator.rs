//! Iteration over the SOME/IP messages concatenated in one transport
//! payload.
use vstd::prelude::*;

use crate::err;
use crate::someip_msg_slice::{spec_from_slice_result, SomeipMsgSlice};

verus! {

/// Iterates over the SOME/IP messages in a UDP or TCP payload.
///
/// Each step validates the next message in the remaining bytes. On success
/// the iterator advances by exactly the message's length; on failure it
/// reports the error once and then ends (the remaining bytes are dropped, no
/// resynchronisation is attempted).
#[derive(Clone, Copy, Debug, Eq, PartialEq)]
pub struct SomeipMsgsIterator<'a> {
    slice: &'a [u8],
}

impl<'a> View for SomeipMsgsIterator<'a> {
    type V = Seq<u8>;

    /// The bytes not consumed yet.
    closed spec fn view(&self) -> Seq<u8> {
        self.slice@
    }
}

impl<'a> SomeipMsgsIterator<'a> {
    /// Creates an iterator over the messages in the given payload.
    pub fn new(slice: &'a [u8]) -> (r: SomeipMsgsIterator<'a>)
        ensures
            r@ == slice@,
    {
        SomeipMsgsIterator { slice }
    }

    /// Yields the next message, in wire order.
    ///
    /// Returns `None` once the payload is exhausted. Otherwise validates the
    /// next message: on success yields the message view and consumes exactly
    /// its bytes; on failure yields the validation error and consumes the
    /// rest, so that every later call returns `None`.
    pub fn next(&mut self) -> (r: Option<Result<SomeipMsgSlice<'a>, err::SomeipSliceError>>)
        ensures
            old(self)@.len() == 0 ==> (r is None && final(self)@ == old(self)@),
            old(self)@.len() > 0 ==> match spec_from_slice_result(old(self)@) {
                Ok(p) => (r matches Some(q) && (q matches Ok(m) && m.spec_is_tp() == p.0 && m@
                    == old(self)@.take(p.1) && final(self)@ == old(self)@.skip(p.1))),
                Err(e) => r == Some(Err::<SomeipMsgSlice<'a>, _>(e)) && final(self)@.len() == 0,
            },
    {
        if !self.slice.is_empty() {
            let current = self.slice;
            let result = SomeipMsgSlice::from_slice(current);
            match &result {
                Err(_) => {
                    let len = self.slice.len();
                    self.slice = &current[len..len];
                },
                Ok(value) => {
                    let consumed = value.slice().len();
                    self.slice = &current[consumed..current.len()];
                    proof {
                        assert(final(self)@ =~= old(self)@.skip(
                            spec_from_slice_result(old(self)@)->Ok_0.1,
                        ));
                    }
                },
            }
            Some(result)
        } else {
            None
        }
    }
}

} // verus!
