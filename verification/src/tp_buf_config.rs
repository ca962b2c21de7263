//! Configuration of a TP buffer's maximum allowed size and initial
//! allocation size.
use vstd::prelude::*;

use crate::err;

verus! {

/// Configuration of a TP buffer's maximum allowed payload size and initially
/// allocated buffer size.
#[derive(Debug, Clone, Copy, Eq, PartialEq, Hash, Ord, PartialOrd)]
pub struct TpBufConfig {
    /// Number of bytes that should be allocated to store payload when a new
    /// [`crate::TpBuf`] gets created. An allocation hint only.
    pub tp_buffer_start_payload_alloc_len: usize,
    /// Maximum allowed payload length (in bytes) of the final reconstructed
    /// packet. At most [`TpBufConfig::MAX_TP_PAYLOAD_LEN`].
    tp_max_payload_len: u32,
}

impl TpBufConfig {
    /// Maximum representable payload length of a reassembled TP packet,
    /// determined by the maximum value the length field in the SOME/IP
    /// header can take, minus the 16 header bytes stored in front of the
    /// payload.
    pub const MAX_TP_PAYLOAD_LEN: u32 = u32::MAX - 16;

    /// Every configuration keeps its maximum payload length representable:
    /// at most `u32::MAX - 16`.
    #[verifier::type_invariant]
    pub closed spec fn inv(self) -> bool {
        self.tp_max_payload_len <= TpBufConfig::MAX_TP_PAYLOAD_LEN
    }

    /// The configured maximum payload length.
    pub closed spec fn spec_tp_max_payload_len(&self) -> u32 {
        self.tp_max_payload_len
    }

    /// The configured initial allocation size.
    pub closed spec fn spec_start_alloc_len(&self) -> usize {
        self.tp_buffer_start_payload_alloc_len
    }

    /// Every well formed configuration's maximum payload length is
    /// representable.
    pub proof fn lemma_max_bound(&self)
        requires
            self.inv(),
        ensures
            self.spec_tp_max_payload_len() <= u32::MAX - 16,
    {
    }

    /// The configured initial allocation size.
    pub fn start_alloc_len(&self) -> (r: usize)
        ensures
            r == self.spec_start_alloc_len(),
    {
        self.tp_buffer_start_payload_alloc_len
    }

    /// Maximum allowed payload length (in bytes) of the final reconstructed
    /// packet.
    pub fn tp_max_payload_len(&self) -> (r: u32)
        ensures
            r == self.spec_tp_max_payload_len(),
            r <= u32::MAX - 16,
    {
        proof {
            use_type_invariant(self);
        }
        self.tp_max_payload_len
    }

    /// Creates a new config with the given initial allocation size and
    /// maximum allowed payload size. Fails exactly when the maximum exceeds
    /// [`TpBufConfig::MAX_TP_PAYLOAD_LEN`].
    pub fn new(tp_buffer_start_payload_alloc_len: usize, tp_max_payload_len: u32) -> (r: Result<
        TpBufConfig,
        err::TpBufConfigError,
    >)
        ensures
            tp_max_payload_len > u32::MAX - 16 ==> r == Err::<TpBufConfig, _>(
                err::TpBufConfigError::MaxPayloadLenTooBig {
                    allowed_max: (u32::MAX - 16) as u32,
                    actual: tp_max_payload_len,
                },
            ),
            tp_max_payload_len <= u32::MAX - 16 ==> (r matches Ok(c)
                && c.spec_tp_max_payload_len() == tp_max_payload_len && c.spec_start_alloc_len()
                == tp_buffer_start_payload_alloc_len),
    {
        if tp_max_payload_len > TpBufConfig::MAX_TP_PAYLOAD_LEN {
            Err(
                err::TpBufConfigError::MaxPayloadLenTooBig {
                    allowed_max: TpBufConfig::MAX_TP_PAYLOAD_LEN,
                    actual: tp_max_payload_len,
                },
            )
        } else {
            Ok(TpBufConfig { tp_buffer_start_payload_alloc_len, tp_max_payload_len })
        }
    }
}

impl Default for TpBufConfig {
    /// A configuration with a 256 KiB initial allocation and the maximum
    /// representable payload length.
    fn default() -> (r: Self)
        ensures
            r.spec_start_alloc_len() == 0x40000,
            r.spec_tp_max_payload_len() == u32::MAX - 16,
    {
        TpBufConfig {
            tp_buffer_start_payload_alloc_len: 0x40000,
            tp_max_payload_len: TpBufConfig::MAX_TP_PAYLOAD_LEN,
        }
    }
}

} // verus!
