//! Reassembly buffer for one SOME/IP TP packet stream.
use vstd::prelude::*;

use crate::bytes::{be32, be32_b0, be32_b1, be32_b2, be32_b3, split_be_u32};
use crate::err;
use crate::message_type::spec_message_type_of_raw;
use crate::someip_msg_slice::{spec_from_slice_result, SomeipMsgSlice};
use crate::tp_buf_config::TpBufConfig;
use crate::tp_range::{spec_tp_range_merge, TpRange};

verus! {

/// The four big-endian bytes of `v`.
pub open spec fn spec_be4(v: u32) -> Seq<u8> {
    seq![be32_b0(v), be32_b1(v), be32_b2(v), be32_b3(v)]
}

/// `s` extended with zero bytes to length `n` (unchanged if already long
/// enough).
pub open spec fn spec_grow(s: Seq<u8>, n: int) -> Seq<u8> {
    if s.len() >= n {
        s
    } else {
        s + Seq::new((n - s.len()) as nat, |i: int| 0u8)
    }
}

/// `s` with the bytes of `p` written at position `at`, everything else
/// unchanged.
pub open spec fn spec_overwrite(s: Seq<u8>, at: int, p: Seq<u8>) -> Seq<u8> {
    Seq::new(s.len(), |i: int| if at <= i < at + p.len() { p[i - at] } else { s[i] })
}

/// The section list after inserting `n`: walking the list in order, every
/// section that overlaps or touches the accumulated section is folded into
/// it; the rest keep their order, and the accumulated section is appended at
/// the end.
pub open spec fn spec_insert_section(sections: Seq<TpRange>, n: TpRange) -> Seq<TpRange>
    decreases sections.len(),
{
    if sections.len() == 0 {
        seq![n]
    } else {
        match spec_tp_range_merge(n, sections[0]) {
            Some(m) => spec_insert_section(sections.skip(1), m),
            None => seq![sections[0]] + spec_insert_section(sections.skip(1), n),
        }
    }
}

/// The error, if any, that rejects a TP segment with the given offset,
/// payload length and more-segments flag, against the buffer's configured
/// maximum and previously fixed end. `None` means the segment is accepted
/// (up to allocation).
pub open spec fn spec_consume_check(
    prev_end: Option<u32>,
    max: u32,
    offset: u32,
    payload_len: usize,
    more: bool,
) -> Option<err::TpReassembleError> {
    if offset > max || payload_len > max - offset {
        Some(err::TpReassembleError::SegmentTooBig { offset, payload_len, max })
    } else if more && payload_len % 16 != 0 {
        Some(err::TpReassembleError::UnalignedTpPayloadLen { offset, payload_len })
    } else if prev_end matches Some(p) && (p < offset + payload_len || (!more && offset
        + payload_len != p)) {
        Some(
            err::TpReassembleError::ConflictingEnd {
                previous_end: prev_end->0,
                conflicting_end: (offset + payload_len) as u32,
            },
        )
    } else {
        None
    }
}

/// The buffer bytes after accepting the TP message `msg` into `old_data`:
/// the buffer is grown with zeroes to cover the segment, the 16 header bytes
/// of `msg` are copied to the front with the TP flag cleared when the
/// segment's offset is 0, and the segment's payload is written at
/// `16 + offset`.
pub open spec fn spec_consume_written(old_data: Seq<u8>, msg: Seq<u8>) -> Seq<u8> {
    let tp = crate::tp_header::spec_parse_tp_header(msg.skip(16));
    let offset = tp.spec_offset() as int;
    let payload = msg.skip(20);
    let grown = spec_grow(old_data, 16 + offset + payload.len());
    let headered = if offset == 0 {
        spec_overwrite(grown, 0, msg.take(16).update(14, (msg[14] & 0xdf) as u8))
    } else {
        grown
    };
    spec_overwrite(headered, 16 + offset, payload)
}

/// How accepting the TP message `msg` changes a reassembly buffer from
/// `pre` to `post`: the configuration is kept, a final segment fixes the
/// end, the segment's range is merged into the sections, and the bytes are
/// written as [`spec_consume_written`] says — with the length field set to
/// the reassembled length once the stream is complete. The new state is
/// well formed.
pub open spec fn spec_consume_transition(pre: TpBuf, post: TpBuf, msg: Seq<u8>) -> bool {
    let tp = crate::tp_header::spec_parse_tp_header(msg.skip(16));
    let offset = tp.spec_offset();
    let more = tp.spec_more_segment();
    let payload = msg.skip(20);
    let range = TpRange { start: offset, end: (offset + payload.len()) as u32 };
    &&& post.spec_config() == pre.spec_config()
    &&& post.spec_end() == if !more {
        Some((offset + payload.len()) as u32)
    } else {
        pre.spec_end()
    }
    &&& post.spec_sections() == spec_insert_section(pre.spec_sections(), range)
    &&& post.spec_data() == {
        let written = spec_consume_written(pre.spec_data(), msg);
        if post.spec_is_complete() {
            spec_overwrite(written, 4, spec_be4((post.spec_sections()[0].end + 8) as u32))
        } else {
            written
        }
    }
    &&& post.wf()
}

/// Buffer to reconstruct one SOME/IP TP packet stream, without checks that
/// the message id & request id are the same for all packets (that is the
/// caller's duty — or use [`crate::TpPool`], which keys streams by channel
/// and request id).
///
/// The buffer holds the future SOME/IP header in its first 16 bytes and the
/// reassembled payload behind it. Once a stream is complete,
/// [`TpBuf::try_finalize`] returns the reassembled message as a non-TP
/// message view borrowing the buffer.
#[derive(Debug, Clone, Eq, PartialEq, Hash, Ord, PartialOrd)]
pub struct TpBuf {
    /// Data buffer that contains the SOME/IP header + reconstructed payload
    /// in the end.
    data: Vec<u8>,
    /// The ranges filled with data.
    sections: Vec<TpRange>,
    /// Set to the fixed end offset once a segment without the more-segments
    /// flag was accepted.
    end: Option<u32>,
    /// TP configuration.
    config: TpBufConfig,
}

impl TpBuf {
    /// What every buffer constructed by this module guarantees, so that a
    /// complete stream always finalizes: sections lie within the written
    /// bytes and one of them ends exactly at the buffer's end; and once the
    /// stream is complete, the first 16 bytes are a valid non-TP SOME/IP
    /// header whose length field holds the reassembled length. Constructors
    /// establish it and every method preserves it.
    pub closed spec fn wf(&self) -> bool {
        &&& self.sections@.len() == 0 ==> self.data@.len() == 0
        &&& self.sections@.len() > 0 ==> {
            &&& self.data@.len() >= 16
            &&& forall|i: int|
                0 <= i < self.sections@.len() ==> ((#[trigger] self.sections@[i]).start
                    <= self.sections@[i].end && 16 + self.sections@[i].end <= self.data@.len())
            &&& exists|i: int|
                0 <= i < self.sections@.len() && 16 + (#[trigger] self.sections@[i]).end
                    == self.data@.len()
        }
        &&& self.data@.len() <= 16 + self.config.spec_tp_max_payload_len()
        &&& self.config.spec_tp_max_payload_len() <= u32::MAX - 16
        &&& (exists|i: int|
            0 <= i < self.sections@.len() && (#[trigger] self.sections@[i]).start == 0) ==> {
            &&& self.data@[12] == 1
            &&& self.data@[14] & 0x20 == 0
            &&& spec_message_type_of_raw(self.data@[14]) is Some
        }
        &&& self.spec_is_complete() ==> {
            &&& self.data@.len() == 16 + self.sections@[0].end
            &&& self.data@.subrange(4, 8) == spec_be4((self.sections@[0].end + 8) as u32)
        }
    }

    /// The buffer's bytes.
    pub closed spec fn spec_data(&self) -> Seq<u8> {
        self.data@
    }

    /// The merged sections filled with data so far.
    pub closed spec fn spec_sections(&self) -> Seq<TpRange> {
        self.sections@
    }

    /// The fixed end offset, if a final segment was accepted.
    pub closed spec fn spec_end(&self) -> Option<u32> {
        self.end
    }

    /// The buffer's configuration.
    pub closed spec fn spec_config(&self) -> TpBufConfig {
        self.config
    }

    /// Whether the stream is complete: a final segment fixed the end and the
    /// received ranges merged into a single section starting at 0.
    pub open spec fn spec_is_complete(&self) -> bool {
        &&& self.spec_end() is Some
        &&& self.spec_sections().len() == 1
        &&& self.spec_sections()[0].start == 0
    }

    /// Creates an empty buffer with the given configuration. The
    /// configuration's initial allocation size is a capacity hint only.
    pub fn new(config: TpBufConfig) -> (r: TpBuf)
        ensures
            r.wf(),
            r.spec_data().len() == 0,
            r.spec_sections().len() == 0,
            r.spec_end() is None,
            r.spec_config() == config,
    {
        proof {
            use_type_invariant(&config);
            config.lemma_max_bound();
        }
        let alloc_len = config.start_alloc_len();
        let capacity = if alloc_len <= usize::MAX - 16 {
            16 + alloc_len
        } else {
            alloc_len
        };
        TpBuf { data: Vec::with_capacity(capacity), sections: Vec::new(), end: None, config }
    }

    /// Resets the buffer to its starting state, keeping the configuration
    /// and the allocated memory.
    pub fn clear(&mut self)
        requires
            old(self).wf(),
        ensures
            final(self).wf(),
            final(self).spec_data().len() == 0,
            final(self).spec_sections().len() == 0,
            final(self).spec_end() is None,
            final(self).spec_config() == old(self).spec_config(),
    {
        self.data.clear();
        self.sections.clear();
        self.end = None;
    }

    /// The buffer's bytes: the 16 header bytes followed by the payload
    /// received so far.
    pub fn data(&self) -> (r: &[u8])
        ensures
            r@ == self.spec_data(),
    {
        self.data.as_slice()
    }

    /// The merged sections filled with data so far.
    pub fn sections(&self) -> (r: &Vec<TpRange>)
        ensures
            r@ == self.spec_sections(),
    {
        &self.sections
    }

    /// The fixed end offset, if a final segment was accepted.
    pub fn end(&self) -> (r: Option<u32>)
        ensures
            r == self.spec_end(),
    {
        self.end
    }

    /// The buffer's configuration.
    pub fn config(&self) -> (r: &TpBufConfig)
        ensures
            *r == self.spec_config(),
    {
        &self.config
    }

    /// Whether the stream is complete and [`TpBuf::try_finalize`] will
    /// return the reassembled message.
    pub fn is_complete(&self) -> (r: bool)
        ensures
            r == self.spec_is_complete(),
    {
        if self.end.is_some() && 1 == self.sections.len() {
            let s = self.sections[0];
            s.start == 0
        } else {
            false
        }
    }

    /// Consumes one TP message into the buffer.
    ///
    /// The segment is rejected exactly as [`spec_consume_check`] says — it
    /// does not fit under the configured maximum (`SegmentTooBig`), a
    /// non-final segment's payload is not a multiple of 16
    /// (`UnalignedTpPayloadLen`), or it conflicts with a previously fixed
    /// end (`ConflictingEnd`) — and otherwise accepted, up to allocation
    /// failure; a segment that fits into the already allocated bytes (for
    /// example a byte-identical resend) never involves the allocator and is
    /// owed acceptance. On acceptance the payload is written at its offset
    /// (bytes of overlapping earlier segments are overwritten), the header
    /// is taken from the segment with offset 0 with its TP flag cleared,
    /// the segment's range is merged into the sections, a final segment
    /// fixes the end, and — once the stream is complete — the header's
    /// length field is set to the reassembled length. On rejection the
    /// buffer is unchanged.
    #[verifier::rlimit(100)]
    pub fn consume_tp(&mut self, someip_slice: SomeipMsgSlice<'_>) -> (r: Result<
        (),
        err::TpReassembleError,
    >)
        requires
            old(self).wf(),
            someip_slice.spec_is_tp(),
        ensures
            final(self).wf(),
            ({
                let tp = crate::tp_header::spec_parse_tp_header(someip_slice@.skip(16));
                let offset = tp.spec_offset();
                let more = tp.spec_more_segment();
                let payload = someip_slice@.skip(20);
                let max = old(self).spec_config().spec_tp_max_payload_len();
                match spec_consume_check(old(self).spec_end(), max, offset, payload.len() as usize, more) {
                    Some(e) => r == Err::<(), _>(e) && same_buf_state(old(self), final(self)),
                    None => match r {
                        Err(e2) => e2 == (err::TpReassembleError::AllocationFailure {
                            len: (16 + offset + payload.len()) as usize,
                        }) && same_buf_state(old(self), final(self)),
                        Ok(_) => spec_consume_transition(*old(self), *final(self), someip_slice@),
                    },
                }
            }),
            ({
                let tp = crate::tp_header::spec_parse_tp_header(someip_slice@.skip(16));
                let offset = tp.spec_offset();
                let more = tp.spec_more_segment();
                let payload = someip_slice@.skip(20);
                let max = old(self).spec_config().spec_tp_max_payload_len();
                (spec_consume_check(old(self).spec_end(), max, offset, payload.len() as usize, more)
                    is None && 16 + offset + payload.len() <= old(self).spec_data().len()) ==> r
                    is Ok
            }),
    {
        let tp_header = match someip_slice.tp_header() {
            Some(t) => t,
            None => {
                proof {
                    assert(false);
                }
                return Ok(());
            },
        };
        let payload = someip_slice.payload();
        let offset = tp_header.offset();
        let more = tp_header.more_segment();
        let max = self.config.tp_max_payload_len();

        // validate lengths
        if max < offset || ((max - offset) as usize) < payload.len() {
            return Err(
                err::TpReassembleError::SegmentTooBig {
                    offset,
                    payload_len: payload.len(),
                    max,
                },
            );
        }

        // a non-final segment's payload must be a multiple of 16
        if more && 0 != payload.len() % 16 {
            return Err(
                err::TpReassembleError::UnalignedTpPayloadLen {
                    offset,
                    payload_len: payload.len(),
                },
            );
        }

        let end32: u32 = offset + payload.len() as u32;

        // check against a previously fixed end
        if let Some(previous_end) = self.end {
            if previous_end < end32 || (!more && end32 != previous_end) {
                return Err(
                    err::TpReassembleError::ConflictingEnd {
                        previous_end,
                        conflicting_end: end32,
                    },
                );
            }
        }

        // get enough memory to store the header + reassembled payload
        let offset_usize = offset as usize;
        let required_len: usize = 16 + offset_usize + payload.len();
        let ghost grown = spec_grow(self.data@, required_len as int);
        if self.data.len() < required_len {
            let missing = required_len - self.data.len();
            if self.data.try_reserve(missing).is_err() {
                return Err(err::TpReassembleError::AllocationFailure { len: required_len });
            }
            self.data.resize(required_len, 0);
            proof {
                assert forall|b: u8| cloned::<u8>(0u8, b) implies b == 0u8 by {}
                assert(self.data@ =~= grown);
            }
        }
        proof {
            assert(self.data@ == grown);
        }

        let msg_bytes = someip_slice.slice();
        let ghost headered = if offset == 0 {
            spec_overwrite(
                grown,
                0,
                someip_slice@.take(16).update(14, (someip_slice@[14] & 0xdf) as u8),
            )
        } else {
            grown
        };
        if 0 == offset {
            // copy the header of the first segment and clear its TP flag
            proof {
                assert(spec_overwrite(grown, 0, someip_slice@.take(0)) =~= grown);
            }
            let mut i: usize = 0;
            while i < 16
                invariant
                    i <= 16,
                    msg_bytes@ == someip_slice@,
                    someip_slice@.len() >= 20,
                    self.data@.len() == grown.len() >= 16,
                    self.data@ == spec_overwrite(grown, 0, someip_slice@.take(i as int)),
                    self.sections@ == old(self).spec_sections(),
                    self.end == old(self).spec_end(),
                    self.config == old(self).spec_config(),
                decreases 16 - i,
            {
                let b = msg_bytes[i];
                self.data[i] = b;
                proof {
                    assert(self.data@ =~= spec_overwrite(
                        grown,
                        0,
                        someip_slice@.take(i + 1 as int),
                    ));
                }
                i += 1;
            }
            let b14 = self.data[14];
            self.data[14] = b14 & 0b1101_1111;
            proof {
                assert(self.data@ =~= headered);
            }
        }
        proof {
            assert(self.data@ == headered);
        }

        // insert the payload
        let data_offset = 16 + offset_usize;
        proof {
            assert(spec_overwrite(headered, data_offset as int, payload@.take(0)) =~= headered);
        }
        let mut j: usize = 0;
        while j < payload.len()
            invariant
                j <= payload@.len(),
                payload@ == someip_slice@.skip(20),
                data_offset == 16 + offset,
                16 + offset + payload@.len() <= usize::MAX,
                self.data@.len() == headered.len(),
                headered.len() >= 16 + offset + payload@.len(),
                self.data@ == spec_overwrite(headered, data_offset as int, payload@.take(j as int)),
                self.sections@ == old(self).spec_sections(),
                self.end == old(self).spec_end(),
                self.config == old(self).spec_config(),
            decreases payload@.len() - j,
        {
            let b = payload[j];
            self.data[data_offset + j] = b;
            proof {
                assert(self.data@ =~= spec_overwrite(
                    headered,
                    data_offset as int,
                    payload@.take(j + 1 as int),
                ));
            }
            j += 1;
        }
        proof {
            assert(payload@.take(payload@.len() as int) =~= payload@);
            assert(self.data@ == spec_consume_written(old(self).spec_data(), someip_slice@));
        }

        // merge the new range into the sections
        let ghost old_sections = self.sections@;
        let mut new_section = TpRange { start: offset, end: end32 };
        let mut kept: Vec<TpRange> = Vec::new();
        proof {
            assert(old_sections.skip(0) =~= old_sections);
            assert((Seq::<TpRange>::empty() + spec_insert_section(
                old_sections,
                TpRange { start: offset, end: end32 },
            )) =~= spec_insert_section(old_sections, TpRange { start: offset, end: end32 }));
        }
        let mut k: usize = 0;
        while k < self.sections.len()
            invariant
                k <= self.sections@.len(),
                self.sections@ == old_sections,
                self.data@ == spec_consume_written(old(self).spec_data(), someip_slice@),
                self.end == old(self).spec_end(),
                self.config == old(self).spec_config(),
                spec_insert_section(old_sections, TpRange { start: offset, end: end32 })
                    == kept@ + spec_insert_section(old_sections.skip(k as int), new_section),
                forall|i: int|
                    0 <= i < kept@.len() ==> exists|m: int|
                        0 <= m < old_sections.len() && #[trigger] kept@[i] == #[trigger] old_sections[m],
                forall|m: int|
                    0 <= m < k ==> ((exists|i: int|
                        0 <= i < kept@.len() && #[trigger] kept@[i] == old_sections[m]) || (
                    new_section.start <= (#[trigger] old_sections[m]).start && old_sections[m].end
                        <= new_section.end)),
                new_section.start <= new_section.end,
                new_section.end >= end32,
                new_section.start <= offset,
                (new_section.end == end32) || (exists|m: int|
                    0 <= m < old_sections.len() && new_section.end == (
                    #[trigger] old_sections[m]).end),
                (new_section.start == offset) || (exists|m: int|
                    0 <= m < old_sections.len() && new_section.start == (
                    #[trigger] old_sections[m]).start),
            decreases self.sections@.len() - k,
        {
            let s = self.sections[k];
            proof {
                assert(old_sections.skip(k as int)[0] == old_sections[k as int]);
                assert(old_sections.skip(k as int).skip(1) =~= old_sections.skip(k + 1 as int));
            }
            let ghost ns_prev = new_section;
            match new_section.merge(s) {
                Some(merged) => {
                    proof {
                        assert(merged.start <= new_section.start && new_section.end <= merged.end);
                        assert(merged.start <= old_sections[k as int].start
                            && old_sections[k as int].end <= merged.end);
                    }
                    new_section = merged;
                    proof {
                        assert forall|mm: int|
                            0 <= mm < k + 1 implies ((exists|i: int|
                            0 <= i < kept@.len() && #[trigger] kept@[i] == old_sections[mm]) || (
                        new_section.start <= (#[trigger] old_sections[mm]).start
                            && old_sections[mm].end <= new_section.end)) by {
                            if mm < k {
                                if !(exists|i: int|
                                    0 <= i < kept@.len() && #[trigger] kept@[i]
                                        == old_sections[mm]) {
                                    assert(ns_prev.start <= old_sections[mm].start
                                        && old_sections[mm].end <= ns_prev.end);
                                }
                            }
                        }
                    }
                },
                None => {
                    let ghost kept_prev = kept@;
                    kept.push(s);
                    proof {
                        assert(kept@[kept@.len() - 1] == old_sections[k as int]);
                        assert forall|mm: int|
                            0 <= mm < k + 1 implies ((exists|i: int|
                            0 <= i < kept@.len() && #[trigger] kept@[i] == old_sections[mm]) || (
                        new_section.start <= (#[trigger] old_sections[mm]).start
                            && old_sections[mm].end <= new_section.end)) by {
                            if mm < k {
                                if exists|i: int|
                                    0 <= i < kept_prev.len() && #[trigger] kept_prev[i]
                                        == old_sections[mm] {
                                    let i1 = choose|i: int|
                                        0 <= i < kept_prev.len() && #[trigger] kept_prev[i]
                                            == old_sections[mm];
                                    assert(kept@[i1] == old_sections[mm]);
                                }
                            }
                        }
                        assert(kept@ =~= kept@.take(kept@.len() - 1).push(s));
                        assert((kept@.take(kept@.len() - 1) + (seq![s] + spec_insert_section(
                            old_sections.skip(k + 1 as int),
                            new_section,
                        ))) =~= kept@ + spec_insert_section(
                            old_sections.skip(k + 1 as int),
                            new_section,
                        ));
                    }
                },
            }
            k += 1;
        }
        proof {
            assert(old_sections.skip(old_sections.len() as int) =~= Seq::<TpRange>::empty());
            assert((kept@ + seq![new_section]) =~= kept@.push(new_section));
        }
        let ghost kept_seq = kept@;
        kept.push(new_section);
        self.sections = kept;

        // fix the end
        if !more {
            self.end = Some(end32);
        }

        proof {
            lemma_after_consume(
                *old(self),
                *self,
                someip_slice@,
                kept_seq,
                old_sections,
                new_section,
                offset,
                end32,
                max,
            );
        }

        // once complete, the header's length field holds the reassembled
        // length
        let now_complete = if self.end.is_some() && 1 == self.sections.len() {
            let s0 = self.sections[0];
            s0.start == 0
        } else {
            false
        };
        if now_complete {
            let s0 = self.sections[0];
            proof {
                assert(16 + self.sections@[0].end <= self.data@.len());
                assert(self.data@.len() <= 16 + max);
            }
            let (l0, l1, l2, l3) = split_be_u32(s0.end + 8);
            let ghost before_len = self.data@;
            self.data[4] = l0;
            self.data[5] = l1;
            self.data[6] = l2;
            self.data[7] = l3;
            proof {
                assert(self.data@ =~= spec_overwrite(
                    before_len,
                    4,
                    spec_be4((s0.end + 8) as u32),
                ));
                assert(self.data@.subrange(4, 8) =~= spec_be4((s0.end + 8) as u32));
            }
        }

        Ok(())
    }

    /// Returns the reassembled message as a non-TP message view borrowing
    /// this buffer, if the stream reconstruction is complete; `None`
    /// otherwise.
    pub fn try_finalize(&self) -> (r: Option<SomeipMsgSlice<'_>>)
        requires
            self.wf(),
        ensures
            !self.spec_is_complete() ==> r is None,
            self.spec_is_complete() ==> (r matches Some(m) && m@ == self.spec_data()
                && !m.spec_is_tp()),
            self.spec_is_complete() ==> (self.spec_data().len() == 16 + self.spec_sections()[0].end
                && self.spec_data().subrange(4, 8) == spec_be4(
                (self.spec_sections()[0].end + 8) as u32,
            )),
    {
        if !self.is_complete() {
            return None;
        }
        proof {
            let d = self.data@;
            let e = self.sections@[0].end;
            crate::bytes::lemma_be32_roundtrip((e + 8) as u32, 0, 0, 0, 0);
            assert(d[4] == d.subrange(4, 8)[0] && d[5] == d.subrange(4, 8)[1] && d[6]
                == d.subrange(4, 8)[2] && d[7] == d.subrange(4, 8)[3]);
            assert(be32(d[4], d[5], d[6], d[7]) == e + 8);
            assert(spec_from_slice_result(d) == Ok::<_, err::SomeipSliceError>(
                (false, d.len() as int),
            ));
            assert(d.take(d.len() as int) =~= d);
        }
        match SomeipMsgSlice::from_slice(self.data.as_slice()) {
            Ok(m) => Some(m),
            Err(_) => {
                proof {
                    assert(false);
                }
                None
            },
        }
    }
}

/// After a segment was accepted — its payload written, the header possibly
/// copied and the section merged in — the buffer's well-formedness facts
/// hold of the new state: all sections lie within the data, one of them ends
/// exactly at the data's end, and a section starting at 0 guarantees a valid
/// non-TP header in front.
#[verifier::rlimit(60)]
#[verifier::spinoff_prover]
proof fn lemma_after_consume(
    prev: TpBuf,
    cur: TpBuf,
    msg: Seq<u8>,
    kept: Seq<TpRange>,
    old_s: Seq<TpRange>,
    ns: TpRange,
    offset: u32,
    end32: u32,
    max: u32,
)
    requires
        prev.wf(),
        spec_from_slice_result(msg) == Ok::<_, err::SomeipSliceError>((true, msg.len() as int)),
        offset == crate::tp_header::spec_parse_tp_header(msg.skip(16)).spec_offset(),
        end32 == offset + msg.skip(20).len(),
        max == prev.spec_config().spec_tp_max_payload_len(),
        cur.spec_config() == prev.spec_config(),
        offset <= max,
        msg.skip(20).len() <= max - offset,
        old_s == prev.spec_sections(),
        cur.spec_data() == spec_consume_written(prev.spec_data(), msg),
        cur.spec_sections() == kept.push(ns),
        forall|i: int|
            0 <= i < kept.len() ==> exists|m: int|
                0 <= m < old_s.len() && #[trigger] kept[i] == #[trigger] old_s[m],
        forall|m: int|
            0 <= m < old_s.len() ==> ((exists|i: int|
                0 <= i < kept.len() && #[trigger] kept[i] == old_s[m]) || (ns.start <= (
            #[trigger] old_s[m]).start && old_s[m].end <= ns.end)),
        ns.start <= ns.end,
        ns.end >= end32,
        ns.start <= offset,
        (ns.end == end32) || (exists|m: int|
            0 <= m < old_s.len() && ns.end == (#[trigger] old_s[m]).end),
        (ns.start == offset) || (exists|m: int|
            0 <= m < old_s.len() && ns.start == (#[trigger] old_s[m]).start),
    ensures
        cur.spec_sections().len() > 0,
        cur.spec_data().len() >= 16,
        cur.spec_data().len() <= 16 + max,
        forall|i: int|
            0 <= i < cur.spec_sections().len() ==> ((#[trigger] cur.spec_sections()[i]).start
                <= cur.spec_sections()[i].end && 16 + cur.spec_sections()[i].end
                <= cur.spec_data().len()),
        exists|i: int|
            0 <= i < cur.spec_sections().len() && 16 + (#[trigger] cur.spec_sections()[i]).end
                == cur.spec_data().len(),
        (exists|i: int|
            0 <= i < cur.spec_sections().len() && (#[trigger] cur.spec_sections()[i]).start == 0)
            ==> (cur.spec_data()[12] == 1 && cur.spec_data()[14] & 0x20 == 0
            && spec_message_type_of_raw(cur.spec_data()[14]) is Some),
{
    let d = cur.spec_data();
    let fs = cur.spec_sections();
    let payload = msg.skip(20);
    let old_len = prev.spec_data().len() as int;
    let req = 16 + offset + payload.len();
    let grown = spec_grow(prev.spec_data(), req);
    let hdr = msg.take(16).update(14, (msg[14] & 0xdf) as u8);
    let headered = if offset == 0 {
        spec_overwrite(grown, 0, hdr)
    } else {
        grown
    };
    // the message is long enough for its TP header and payload indices
    assert(msg.len() >= 20);
    assert(payload.len() == msg.len() - 20);
    assert(d == spec_overwrite(headered, 16 + offset as int, payload));
    assert(grown.len() == if old_len >= req {
        old_len
    } else {
        req
    });
    assert(d.len() == grown.len());
    assert(old_len <= 16 + max);
    assert(req <= 16 + max);
    assert(d.len() >= req && d.len() >= old_len && d.len() >= 16 && d.len() <= 16 + max);

    // every old section lies within the old data
    assert forall|m: int| 0 <= m < old_s.len() implies ((#[trigger] old_s[m]).start <= old_s[m].end
        && 16 + old_s[m].end <= old_len) by {}

    // every new section lies within the new data
    assert forall|i: int| 0 <= i < fs.len() implies ((#[trigger] fs[i]).start <= fs[i].end && 16
        + fs[i].end <= d.len()) by {
        if i < kept.len() {
            assert(fs[i] == kept[i]);
            let m = choose|m: int| 0 <= m < old_s.len() && kept[i] == old_s[m];
            assert(old_s[m].start <= old_s[m].end && 16 + old_s[m].end <= old_len);
        } else {
            assert(fs[i] == ns);
            if ns.end == end32 {
                assert(16 + ns.end <= req);
            } else {
                let m = choose|m: int| 0 <= m < old_s.len() && ns.end == old_s[m].end;
                assert(16 + ns.end <= old_len);
            }
        }
    }

    // one new section ends exactly at the data's end
    if old_len < req {
        assert(d.len() == req);
        assert(16 + end32 == req);
        assert(16 + ns.end <= d.len() && ns.end >= end32);
        assert(16 + ns.end == d.len());
        assert(fs[fs.len() - 1] == ns);
    } else {
        assert(d.len() == old_len);
        assert(old_len >= req >= 16);
        if old_s.len() == 0 {
            assert(old_len == 0);
            assert(false);
        }
        let m0 = choose|m: int|
            0 <= m < old_s.len() && 16 + (#[trigger] old_s[m]).end == old_len;
        if exists|i: int| 0 <= i < kept.len() && #[trigger] kept[i] == old_s[m0] {
            let i0 = choose|i: int| 0 <= i < kept.len() && #[trigger] kept[i] == old_s[m0];
            assert(fs[i0] == old_s[m0]);
            assert(16 + fs[i0].end == d.len());
        } else {
            assert(ns.start <= old_s[m0].start && old_s[m0].end <= ns.end);
            assert(16 + ns.end >= old_len);
            assert(16 + ns.end <= d.len());
            assert(16 + ns.end == d.len());
            assert(fs[fs.len() - 1] == ns);
        }
    }

    // a section starting at 0 means a valid non-TP header in front
    if exists|i: int| 0 <= i < fs.len() && (#[trigger] fs[i]).start == 0 {
        let i0 = choose|i: int| 0 <= i < fs.len() && (#[trigger] fs[i]).start == 0;
        if offset == 0 {
            assert(headered == spec_overwrite(grown, 0, hdr));
            assert(hdr.len() == 16);
            assert(d[12] == hdr[12] && d[14] == hdr[14]);
            assert(hdr[12] == msg[12] && hdr[14] == (msg[14] & 0xdf));
            assert(msg[12] == 1);
            assert(spec_message_type_of_raw(msg[14]) is Some);
            let x = msg[14];
            assert(((x & 0xdf) & 0x20) == 0 && ((x & 0xdf) & 0xdf) == (x & 0xdf)) by (bit_vector);
            assert(spec_message_type_of_raw((x & 0xdf) as u8) == spec_message_type_of_raw(x));
        } else {
            // the section with start 0 stems from the old sections
            assert(exists|m: int| 0 <= m < old_s.len() && (#[trigger] old_s[m]).start == 0) by {
                if i0 < kept.len() {
                    let m = choose|m: int| 0 <= m < old_s.len() && kept[i0] == old_s[m];
                    assert(old_s[m].start == 0);
                } else {
                    assert(fs[i0] == ns && ns.start == 0);
                    let m = choose|m: int|
                        0 <= m < old_s.len() && ns.start == (#[trigger] old_s[m]).start;
                    assert(old_s[m].start == 0);
                }
            }
            assert(old_s.len() > 0);
            assert(old_len >= 16);
            assert(prev.spec_data()[12] == 1 && prev.spec_data()[14] & 0x20 == 0
                && spec_message_type_of_raw(prev.spec_data()[14]) is Some);
            assert(headered == grown);
            assert(d[12] == grown[12] && d[14] == grown[14]);
            assert(grown[12] == prev.spec_data()[12] && grown[14] == prev.spec_data()[14]);
        }
    }
}

/// The two buffers hold the same state: the same bytes, sections, end and
/// configuration.
pub open spec fn same_buf_state(a: &TpBuf, b: &TpBuf) -> bool {
    &&& a.spec_data() == b.spec_data()
    &&& a.spec_sections() == b.spec_sections()
    &&& a.spec_end() == b.spec_end()
    &&& a.spec_config() == b.spec_config()
}

} // verus!
// The law of reassembly, per accepted segment: the segment's payload lands
// at its offset, bytes of other segments are not disturbed, and the header
// of the offset-0 segment (with its TP flag cleared) forms the front of the
// buffer. From these, the payload of a completed stream is the segments'
// payloads in offset order, with later overlapping segments overwriting
// earlier ones.
verus! {

/// What accepting one segment does to the buffer's bytes.
///
/// Every payload byte stands at `16 + offset + k`; every byte of the old
/// buffer at or behind position 16 and outside the segment's range is kept;
/// and the segment with offset 0 installs the message's first 16 header
/// bytes with the TP flag cleared (the length field, bytes 4 to 7, is
/// overwritten with the reassembled length once the stream completes).
pub proof fn lemma_consume_places_payload(pre: TpBuf, post: TpBuf, msg: Seq<u8>)
    requires
        msg.len() >= 20,
        spec_consume_transition(pre, post, msg),
    ensures
        ({
            let offset = crate::tp_header::spec_parse_tp_header(msg.skip(16)).spec_offset() as int;
            let payload = msg.skip(20);
            &&& post.spec_data().len() >= 16 + offset + payload.len()
            &&& forall|k: int|
                0 <= k < payload.len() ==> post.spec_data()[16 + offset + k] == payload[k]
            &&& forall|p: int|
                16 <= p < pre.spec_data().len() && !(16 + offset <= p < 16 + offset
                    + payload.len()) ==> post.spec_data()[p] == pre.spec_data()[p]
            &&& offset == 0 ==> (forall|i: int|
                (0 <= i < 16 && !(4 <= i < 8)) ==> post.spec_data()[i] == msg.take(16).update(
                    14,
                    (msg[14] & 0xdf) as u8,
                )[i])
        }),
{
    let offset = crate::tp_header::spec_parse_tp_header(msg.skip(16)).spec_offset() as int;
    let payload = msg.skip(20);
    let written = spec_consume_written(pre.spec_data(), msg);
    let grown = spec_grow(pre.spec_data(), 16 + offset + payload.len());
    assert(written.len() >= 16 + offset + payload.len());
    assert(post.spec_data().len() == written.len());
    assert forall|k: int|
        0 <= k < payload.len() implies post.spec_data()[16 + offset + k] == payload[k] by {
        assert(written[16 + offset + k] == payload[k]);
        if post.spec_is_complete() {
            assert(16 + offset + k >= 8);
        }
    }
    assert forall|p: int|
        16 <= p < pre.spec_data().len() && !(16 + offset <= p < 16 + offset + payload.len())
        implies post.spec_data()[p] == pre.spec_data()[p] by {
        assert(grown[p] == pre.spec_data()[p]);
        assert(written[p] == grown[p]);
    }
    if offset == 0 {
        let hdr = msg.take(16).update(14, (msg[14] & 0xdf) as u8);
        assert forall|i: int| 0 <= i < 16 && !(4 <= i < 8) implies post.spec_data()[i]
            == hdr[i] by {
            assert(written[i] == hdr[i]);
        }
    }
}

} // verus!
// The coverage law of the reassembler: every section always lies within the
// positions that accepted segments have written, and a segment extends those
// positions by exactly its range. A complete stream has the single section
// `[0, end)`, so completeness is only ever reported when the accepted
// segments cover the whole reassembled payload — the reassembler cannot
// fabricate gaps.
verus! {

/// Every position inside any section belongs to `covered`.
pub open spec fn spec_sections_covered(sections: Seq<TpRange>, covered: Set<int>) -> bool {
    forall|i: int, p: int|
        0 <= i < sections.len() && (#[trigger] sections[i]).start <= p < sections[i].end
            ==> #[trigger] covered.contains(p)
}

/// The payload positions a TP message's segment occupies in the reassembled
/// payload: its offset up to its offset plus its payload length.
pub open spec fn spec_segment_positions(msg: Seq<u8>) -> Set<int> {
    let tp = crate::tp_header::spec_parse_tp_header(msg.skip(16));
    Set::new(
        |p: int| tp.spec_offset() <= p < tp.spec_offset() + msg.skip(20).len(),
    )
}

/// Inserting a range whose positions are covered keeps every section
/// covered: a merge only ever spans the union of two connected ranges.
proof fn lemma_insert_section_covered(sections: Seq<TpRange>, n: TpRange, covered: Set<int>)
    requires
        forall|i: int|
            0 <= i < sections.len() ==> (#[trigger] sections[i]).start <= sections[i].end,
        n.start <= n.end,
        spec_sections_covered(sections, covered),
        forall|p: int| n.start <= p < n.end ==> #[trigger] covered.contains(p),
    ensures
        spec_sections_covered(spec_insert_section(sections, n), covered),
    decreases sections.len(),
{
    if sections.len() == 0 {
    } else {
        let s = sections[0];
        assert forall|i: int|
            0 <= i < sections.skip(1).len() implies ((#[trigger] sections.skip(1)[i]).start
            <= sections.skip(1)[i].end && (forall|p: int|
            sections.skip(1)[i].start <= p < sections.skip(1)[i].end ==> #[trigger] covered.contains(
                p,
            ))) by {
            assert(sections.skip(1)[i] == sections[i + 1]);
        }
        match spec_tp_range_merge(n, s) {
            Some(m) => {
                assert forall|p: int| m.start <= p < m.end implies #[trigger] covered.contains(
                    p,
                ) by {
                    if n.start <= p < n.end {
                    } else {
                        assert(s.start <= p < s.end);
                    }
                }
                lemma_insert_section_covered(sections.skip(1), m, covered);
            },
            None => {
                lemma_insert_section_covered(sections.skip(1), n, covered);
                let result = seq![s] + spec_insert_section(sections.skip(1), n);
                assert forall|i: int, p: int|
                    0 <= i < result.len() && (#[trigger] result[i]).start <= p < result[i].end
                    implies #[trigger] covered.contains(p) by {
                    if i > 0 {
                        assert(result[i] == spec_insert_section(sections.skip(1), n)[i - 1]);
                    }
                }
            },
        }
    }
}

/// Accepting a segment keeps every section within the covered positions,
/// the covered positions now also holding the segment's own range. When the
/// new state is complete, its whole payload — positions 0 to its single
/// section's end — is covered by the accepted segments.
pub proof fn lemma_consume_keeps_sections_covered(
    pre: TpBuf,
    post: TpBuf,
    msg: Seq<u8>,
    covered: Set<int>,
)
    requires
        msg.len() >= 20,
        pre.wf(),
        spec_consume_transition(pre, post, msg),
        spec_sections_covered(pre.spec_sections(), covered),
    ensures
        spec_sections_covered(
            post.spec_sections(),
            covered.union(spec_segment_positions(msg)),
        ),
        post.spec_is_complete() ==> (forall|p: int|
            0 <= p < post.spec_sections()[0].end ==> #[trigger] covered.union(
                spec_segment_positions(msg),
            ).contains(p)),
{
    let tp = crate::tp_header::spec_parse_tp_header(msg.skip(16));
    let offset = tp.spec_offset();
    let payload = msg.skip(20);
    let range = TpRange { start: offset, end: (offset + payload.len()) as u32 };
    let covered2 = covered.union(spec_segment_positions(msg));
    assert forall|i: int, p: int|
        0 <= i < pre.spec_sections().len() && (#[trigger] pre.spec_sections()[i]).start <= p
            < pre.spec_sections()[i].end implies #[trigger] covered2.contains(p) by {
        assert(covered.contains(p));
    }
    assert forall|i: int|
        0 <= i < pre.spec_sections().len() implies (#[trigger] pre.spec_sections()[i]).start
        <= pre.spec_sections()[i].end by {}
    assert(range.end == offset + payload.len());
    assert forall|p: int| range.start <= p < range.end implies #[trigger] covered2.contains(
        p,
    ) by {
        assert(spec_segment_positions(msg).contains(p));
    }
    lemma_insert_section_covered(pre.spec_sections(), range, covered2);
}

} // verus!
// The whole-stream law of reassembly: feeding any sequence of accepted TP
// segments — in any order, with byte-identical overlaps — leaves a buffer
// whose bytes are the segments' payloads laid out at their offsets (the
// concatenation in offset order, read position by position) behind the
// offset-0 segment's header with its TP flag cleared.
verus! {

/// The offset of a TP message's segment within the reassembled payload.
pub open spec fn spec_seg_offset(msg: Seq<u8>) -> int {
    crate::tp_header::spec_parse_tp_header(msg.skip(16)).spec_offset() as int
}

/// The payload bytes a TP message carries.
pub open spec fn spec_seg_payload(msg: Seq<u8>) -> Seq<u8> {
    msg.skip(20)
}

/// One past the last payload position a TP message's segment fills.
pub open spec fn spec_seg_end(msg: Seq<u8>) -> int {
    spec_seg_offset(msg) + spec_seg_payload(msg).len()
}

/// The buffers `b` are the states of a reassembly that accepted the TP
/// messages `msgs` one after the other.
pub open spec fn spec_chain(b: Seq<TpBuf>, msgs: Seq<Seq<u8>>) -> bool {
    &&& b.len() == msgs.len() + 1
    &&& forall|k: int| 0 <= k < msgs.len() ==> (#[trigger] msgs[k]).len() >= 20
    &&& forall|k: int|
        0 <= k < msgs.len() ==> spec_consume_transition(b[k], #[trigger] b[k + 1], msgs[k])
}

/// Wherever two segments overlap, they carry the same bytes.
pub open spec fn spec_overlaps_identical(msgs: Seq<Seq<u8>>) -> bool {
    forall|k1: int, k2: int, i1: int|
        (0 <= k1 < msgs.len() && 0 <= k2 < msgs.len() && 0 <= i1 < spec_seg_payload(
            msgs[k1],
        ).len() && spec_seg_offset(#[trigger] msgs[k2]) <= spec_seg_offset(msgs[k1]) + i1
            < spec_seg_end(msgs[k2])) ==> #[trigger] spec_seg_payload(msgs[k1])[i1]
            == spec_seg_payload(msgs[k2])[spec_seg_offset(msgs[k1]) + i1 - spec_seg_offset(
            msgs[k2],
        )]
}

/// Every segment's payload stands at its offset in `final_data` (16 bytes
/// in, behind the header), which is long enough for each of them.
pub open spec fn spec_chain_payload_placed(final_data: Seq<u8>, msgs: Seq<Seq<u8>>) -> bool {
    &&& (forall|k: int|
        0 <= k < msgs.len() ==> final_data.len() >= 16 + spec_seg_end(#[trigger] msgs[k]))
    &&& (forall|k: int, i: int|
        #![trigger spec_seg_payload(msgs[k])[i]]
        (0 <= k < msgs.len() && 0 <= i < spec_seg_payload(msgs[k]).len()) ==> final_data[16
            + spec_seg_offset(msgs[k]) + i] == spec_seg_payload(msgs[k])[i])
}

/// The front of `final_data` holds the 16 header bytes `hdr` with the TP
/// flag cleared, apart from the length field (bytes 4 to 7).
pub open spec fn spec_chain_header_placed(final_data: Seq<u8>, hdr: Seq<u8>) -> bool {
    &&& final_data.len() >= 16
    &&& (forall|i: int|
        #![trigger final_data[i]]
        (0 <= i < 16 && !(4 <= i < 8)) ==> final_data[i] == hdr.update(
            14,
            (hdr[14] & 0xdf) as u8,
        )[i])
}

/// A segment with a non-zero offset leaves the bytes in front of the
/// payload area untouched, except for the length field.
proof fn lemma_consume_preserves_front(pre: TpBuf, post: TpBuf, msg: Seq<u8>)
    requires
        msg.len() >= 20,
        spec_consume_transition(pre, post, msg),
        spec_seg_offset(msg) != 0,
    ensures
        forall|i: int|
            (0 <= i < 16 && !(4 <= i < 8) && i < pre.spec_data().len()) ==> post.spec_data()[i]
                == pre.spec_data()[i],
        post.spec_data().len() >= pre.spec_data().len(),
{
    let offset = spec_seg_offset(msg);
    let payload = spec_seg_payload(msg);
    let grown = spec_grow(pre.spec_data(), 16 + offset + payload.len());
    let written = spec_consume_written(pre.spec_data(), msg);
    assert(written == spec_overwrite(grown, 16 + offset, payload));
    assert forall|i: int|
        (0 <= i < 16 && !(4 <= i < 8) && i < pre.spec_data().len()) implies post.spec_data()[i]
        == pre.spec_data()[i] by {
        assert(grown[i] == pre.spec_data()[i]);
        assert(written[i] == grown[i]);
    }
}

/// After any chain of accepted segments, every segment's payload stands at
/// its offset in the final buffer: later segments overlap only with
/// byte-identical data, so they change nothing.
pub proof fn lemma_chain_payload_bytes(b: Seq<TpBuf>, msgs: Seq<Seq<u8>>)
    requires
        spec_chain(b, msgs),
        spec_overlaps_identical(msgs),
        b[0].spec_data().len() == 0,
    ensures
        spec_chain_payload_placed(b.last().spec_data(), msgs),
    decreases msgs.len(),
{
    if msgs.len() == 0 {
    } else {
        let n = msgs.len() as int;
        let prefix_b = b.take(n);
        let prefix_msgs = msgs.take(n - 1);
        lemma_chain_prefix(b, msgs);
        lemma_chain_reassembly_step(b, msgs);
        let mid = b[n - 1];
        let post = b[n];
        let last_msg = msgs[n - 1];
        lemma_chain_payload_bytes(prefix_b, prefix_msgs);
        assert(prefix_b.last() == mid);
        assert(spec_chain_payload_placed(mid.spec_data(), prefix_msgs));
        lemma_consume_places_payload(mid, post, last_msg);
        let off_n = spec_seg_offset(last_msg);
        let pay_n = spec_seg_payload(last_msg);

        assert forall|k: int|
            0 <= k < msgs.len() implies post.spec_data().len() >= 16 + spec_seg_end(
            #[trigger] msgs[k]) by {
            if k == n - 1 {
                assert(post.spec_data().len() >= 16 + off_n + pay_n.len());
            } else {
                assert(prefix_msgs[k] == msgs[k]);
                assert(mid.spec_data().len() >= 16 + spec_seg_end(prefix_msgs[k]));
                assert(post.spec_data().len() >= mid.spec_data().len());
            }
        }
        assert forall|k: int, i: int|
            #![trigger spec_seg_payload(msgs[k])[i]]
            (0 <= k < msgs.len() && 0 <= i < spec_seg_payload(msgs[k]).len()) implies post.spec_data()[16
            + spec_seg_offset(msgs[k]) + i] == spec_seg_payload(msgs[k])[i] by {
            let p = spec_seg_offset(msgs[k]) + i;
            if k == n - 1 {
                assert(post.spec_data()[16 + p] == pay_n[i]);
            } else {
                assert(prefix_msgs[k] == msgs[k]);
                assert(spec_seg_payload(prefix_msgs[k])[i] == spec_seg_payload(msgs[k])[i]);
                assert(mid.spec_data().len() >= 16 + spec_seg_end(prefix_msgs[k]));
                assert(mid.spec_data()[16 + p] == spec_seg_payload(msgs[k])[i]);
                if off_n <= p < off_n + pay_n.len() {
                    // the last segment overlaps this position with the same
                    // byte
                    assert(post.spec_data()[16 + off_n + (p - off_n)] == pay_n[p - off_n]);
                    assert(spec_seg_payload(msgs[n - 1])[p - off_n] == spec_seg_payload(
                        msgs[k],
                    )[spec_seg_offset(msgs[n - 1]) + (p - off_n) - spec_seg_offset(msgs[k])]);
                } else {
                    assert(post.spec_data()[16 + p] == mid.spec_data()[16 + p]);
                }
            }
        }
        assert(spec_chain_payload_placed(post.spec_data(), msgs));
        assert(b.last().spec_data() == post.spec_data());
    }
}

/// After any chain of accepted segments among which segment `k0` has offset
/// 0 — every offset-0 segment carrying the same 16 header bytes `hdr` —
/// the final buffer's front holds those bytes with the TP flag cleared
/// (bytes 4 to 7 carry the length and are maintained separately).
pub proof fn lemma_chain_header_bytes(b: Seq<TpBuf>, msgs: Seq<Seq<u8>>, hdr: Seq<u8>, k0: int)
    requires
        spec_chain(b, msgs),
        b[0].spec_data().len() == 0,
        0 <= k0 < msgs.len(),
        spec_seg_offset(msgs[k0]) == 0,
        forall|k: int|
            (0 <= k < msgs.len() && spec_seg_offset(#[trigger] msgs[k]) == 0) ==> msgs[k].take(16)
                == hdr,
    ensures
        spec_chain_header_placed(b.last().spec_data(), hdr),
    decreases msgs.len(),
{
    let n = msgs.len() as int;
    let prefix_b = b.take(n);
    let prefix_msgs = msgs.take(n - 1);
    lemma_chain_prefix(b, msgs);
    lemma_chain_reassembly_step(b, msgs);
    let mid = b[n - 1];
    let post = b[n];
    let last_msg = msgs[n - 1];
    assert(prefix_b.last() == mid);
    lemma_consume_places_payload(mid, post, last_msg);
    let masked = hdr.update(14, (hdr[14] & 0xdf) as u8);
    assert(b.last().spec_data() == post.spec_data());
    if spec_seg_offset(last_msg) == 0 {
        assert(last_msg.take(16) == hdr);
        assert forall|i: int| (0 <= i < 16 && !(4 <= i < 8)) implies (post.spec_data().len() > i
            && post.spec_data()[i] == masked[i]) by {
            assert(post.spec_data()[i] == last_msg.take(16).update(
                14,
                (last_msg[14] & 0xdf) as u8,
            )[i]);
            assert(last_msg.take(16)[14] == last_msg[14]);
            assert(hdr[14] == last_msg[14]);
        }
    } else {
        // the offset-0 segment sits in the prefix, whose result the last
        // step keeps in front
        assert(k0 < n - 1);
        assert(prefix_msgs[k0] == msgs[k0]);
        assert forall|k: int|
            (0 <= k < prefix_msgs.len() && spec_seg_offset(#[trigger] prefix_msgs[k]) == 0)
            implies prefix_msgs[k].take(16) == hdr by {
            assert(prefix_msgs[k] == msgs[k]);
        }
        lemma_chain_header_bytes(prefix_b, prefix_msgs, hdr, k0);
        assert(spec_chain_header_placed(mid.spec_data(), hdr));
        lemma_consume_preserves_front(mid, post, last_msg);
        assert forall|i: int| (0 <= i < 16 && !(4 <= i < 8)) implies (post.spec_data().len() > i
            && post.spec_data()[i] == masked[i]) by {
            assert(mid.spec_data()[i] == masked[i]);
            assert(post.spec_data().len() >= mid.spec_data().len());
        }
    }
    assert(post.spec_data().len() >= 16);
    assert(spec_chain_header_placed(post.spec_data(), hdr));
}

/// A non-empty chain restricted to all but its last step is a chain, with
/// the same overlap property.
proof fn lemma_chain_prefix(b: Seq<TpBuf>, msgs: Seq<Seq<u8>>)
    requires
        spec_chain(b, msgs),
        msgs.len() > 0,
    ensures
        spec_chain(b.take(msgs.len() as int), msgs.take(msgs.len() - 1)),
        spec_overlaps_identical(msgs) ==> spec_overlaps_identical(msgs.take(msgs.len() - 1)),
        b.take(msgs.len() as int)[0] == b[0],
{
    let n = msgs.len() as int;
    let prefix_b = b.take(n);
    let prefix_msgs = msgs.take(n - 1);
    assert forall|k: int| 0 <= k < prefix_msgs.len() implies ((#[trigger] prefix_msgs[k]).len()
        >= 20 && spec_consume_transition(prefix_b[k], prefix_b[k + 1], prefix_msgs[k])) by {
        assert(prefix_msgs[k] == msgs[k]);
        assert(prefix_b[k] == b[k] && prefix_b[k + 1] == b[k + 1]);
        assert(spec_consume_transition(b[k], b[k + 1], msgs[k]));
    }
    if spec_overlaps_identical(msgs) {
        assert forall|k1: int, k2: int, i1: int|
            (0 <= k1 < prefix_msgs.len() && 0 <= k2 < prefix_msgs.len() && 0 <= i1
                < spec_seg_payload(prefix_msgs[k1]).len() && spec_seg_offset(
                #[trigger] prefix_msgs[k2],
            ) <= spec_seg_offset(prefix_msgs[k1]) + i1 < spec_seg_end(prefix_msgs[k2])) implies
            #[trigger] spec_seg_payload(prefix_msgs[k1])[i1] == spec_seg_payload(
            prefix_msgs[k2],
        )[spec_seg_offset(prefix_msgs[k1]) + i1 - spec_seg_offset(prefix_msgs[k2])] by {
            assert(prefix_msgs[k1] == msgs[k1] && prefix_msgs[k2] == msgs[k2]);
            assert(spec_seg_payload(msgs[k1])[i1] == spec_seg_payload(
                msgs[k2],
            )[spec_seg_offset(msgs[k1]) + i1 - spec_seg_offset(msgs[k2])]);
        }
    }
}

/// The last step of a non-empty chain is a transition from the next-to-last
/// buffer to the last one, and the buffer only ever grows.
proof fn lemma_chain_reassembly_step(b: Seq<TpBuf>, msgs: Seq<Seq<u8>>)
    requires
        spec_chain(b, msgs),
        msgs.len() > 0,
    ensures
        spec_consume_transition(b[msgs.len() - 1], b[msgs.len() as int], msgs[msgs.len() - 1]),
        b[msgs.len() as int].spec_data().len() >= b[msgs.len() - 1].spec_data().len(),
        b.last() == b[msgs.len() as int],
{
    let n = msgs.len() as int;
    assert(spec_consume_transition(b[n - 1], b[(n - 1) + 1], msgs[n - 1]));
    assert(b[(n - 1) + 1] == b[n]);
    let off_n = spec_seg_offset(msgs[n - 1]);
    let pay_n = spec_seg_payload(msgs[n - 1]);
    let written = spec_consume_written(b[n - 1].spec_data(), msgs[n - 1]);
    assert(written.len() >= spec_grow(b[n - 1].spec_data(), 16 + off_n + pay_n.len()).len());
}

} // verus!
// Completeness of the merge bookkeeping: the sections stay pairwise
// separated, non-empty, and every accepted range lies within one of them.
// From this, a stream whose accepted segments cover the whole payload
// exactly has merged everything into the single section the completeness
// check looks for.
verus! {

/// Two ranges that neither overlap nor touch.
pub open spec fn spec_ranges_separated(a: TpRange, b: TpRange) -> bool {
    spec_tp_range_merge(a, b) is None
}

/// All sections are pairwise separated.
pub open spec fn spec_sections_separated(sections: Seq<TpRange>) -> bool {
    forall|i: int, j: int|
        0 <= i < sections.len() && 0 <= j < sections.len() && i != j ==> spec_ranges_separated(
            #[trigger] sections[i],
            #[trigger] sections[j],
        )
}

/// All sections are proper ranges, and non-empty when asked for.
pub open spec fn spec_sections_proper(sections: Seq<TpRange>, nonempty: bool) -> bool {
    forall|i: int|
        0 <= i < sections.len() ==> ((#[trigger] sections[i]).start <= sections[i].end && (
        nonempty ==> sections[i].start < sections[i].end))
}

/// Merging two connected ranges spans exactly their union, so a range
/// separated from both is separated from the merge.
proof fn lemma_separated_from_merge(h: TpRange, a: TpRange, b: TpRange, m: TpRange)
    requires
        h.start <= h.end,
        a.start <= a.end,
        b.start <= b.end,
        spec_tp_range_merge(a, b) == Some(m),
        spec_ranges_separated(h, a),
        spec_ranges_separated(h, b),
    ensures
        spec_ranges_separated(h, m),
{
}

/// A range separated from the inserted range and from every section is
/// separated from every section of the result.
proof fn lemma_insert_keeps_separated(sections: Seq<TpRange>, n: TpRange, h: TpRange)
    requires
        spec_sections_proper(sections, false),
        n.start <= n.end,
        h.start <= h.end,
        spec_ranges_separated(h, n),
        forall|i: int|
            0 <= i < sections.len() ==> spec_ranges_separated(h, #[trigger] sections[i]),
    ensures
        forall|j: int|
            0 <= j < spec_insert_section(sections, n).len() ==> spec_ranges_separated(
                h,
                #[trigger] spec_insert_section(sections, n)[j],
            ),
    decreases sections.len(),
{
    if sections.len() == 0 {
        assert(spec_insert_section(sections, n)[0] == n);
    } else {
        let s = sections[0];
        assert forall|i: int|
            0 <= i < sections.skip(1).len() implies ((#[trigger] sections.skip(1)[i]).start
            <= sections.skip(1)[i].end && spec_ranges_separated(h, sections.skip(1)[i])) by {
            assert(sections.skip(1)[i] == sections[i + 1]);
        }
        match spec_tp_range_merge(n, s) {
            Some(m) => {
                lemma_separated_from_merge(h, n, s, m);
                lemma_insert_keeps_separated(sections.skip(1), m, h);
                assert(spec_insert_section(sections, n) == spec_insert_section(
                    sections.skip(1),
                    m,
                ));
            },
            None => {
                lemma_insert_keeps_separated(sections.skip(1), n, h);
                let result = seq![s] + spec_insert_section(sections.skip(1), n);
                assert(spec_insert_section(sections, n) == result);
                assert forall|j: int|
                    0 <= j < result.len() implies spec_ranges_separated(
                    h,
                    #[trigger] result[j]) by {
                    if j > 0 {
                        assert(result[j] == spec_insert_section(sections.skip(1), n)[j - 1]);
                    }
                }
            },
        }
    }
}

/// Inserting into pairwise separated proper sections keeps them pairwise
/// separated and proper, and non-empty sections stay non-empty when the
/// inserted range is.
proof fn lemma_insert_separated(sections: Seq<TpRange>, n: TpRange, nonempty: bool)
    requires
        spec_sections_proper(sections, nonempty),
        spec_sections_separated(sections),
        n.start <= n.end,
        nonempty ==> n.start < n.end,
    ensures
        spec_sections_proper(spec_insert_section(sections, n), nonempty),
        spec_sections_separated(spec_insert_section(sections, n)),
    decreases sections.len(),
{
    if sections.len() == 0 {
    } else {
        let s = sections[0];
        assert forall|i: int, j: int|
            (0 <= i < sections.skip(1).len() && 0 <= j < sections.skip(1).len() && i != j) implies
            spec_ranges_separated(
            #[trigger] sections.skip(1)[i],
            #[trigger] sections.skip(1)[j]) by {
            assert(sections.skip(1)[i] == sections[i + 1]);
            assert(sections.skip(1)[j] == sections[j + 1]);
        }
        assert forall|i: int|
            0 <= i < sections.skip(1).len() implies ((#[trigger] sections.skip(1)[i]).start
            <= sections.skip(1)[i].end && (nonempty ==> sections.skip(1)[i].start
            < sections.skip(1)[i].end)) by {
            assert(sections.skip(1)[i] == sections[i + 1]);
        }
        match spec_tp_range_merge(n, s) {
            Some(m) => {
                lemma_insert_separated(sections.skip(1), m, nonempty);
            },
            None => {
                lemma_insert_separated(sections.skip(1), n, nonempty);
                assert forall|i: int|
                    0 <= i < sections.skip(1).len() implies spec_ranges_separated(
                    s,
                    #[trigger] sections.skip(1)[i]) by {
                    assert(sections.skip(1)[i] == sections[i + 1]);
                }
                lemma_insert_keeps_separated(sections.skip(1), n, s);
                let rest = spec_insert_section(sections.skip(1), n);
                let result = seq![s] + rest;
                assert forall|i: int, j: int|
                    (0 <= i < result.len() && 0 <= j < result.len() && i != j) implies
                    spec_ranges_separated(#[trigger] result[i], #[trigger] result[j]) by {
                    if i > 0 && j > 0 {
                        assert(result[i] == rest[i - 1] && result[j] == rest[j - 1]);
                    } else if i == 0 {
                        assert(result[j] == rest[j - 1]);
                        assert(spec_ranges_separated(s, rest[j - 1]));
                    } else {
                        assert(result[i] == rest[i - 1]);
                        assert(spec_ranges_separated(s, rest[i - 1]));
                    }
                }
                assert forall|i: int|
                    0 <= i < result.len() implies ((#[trigger] result[i]).start <= result[i].end
                    && (nonempty ==> result[i].start < result[i].end)) by {
                    if i > 0 {
                        assert(result[i] == rest[i - 1]);
                    }
                }
            },
        }
    }
}

/// A range is contained in another.
pub open spec fn spec_range_within(inner: TpRange, outer: TpRange) -> bool {
    outer.start <= inner.start && inner.end <= outer.end
}

/// After an insert, every old section and the inserted range lie within
/// some section of the result.
proof fn lemma_insert_contains(sections: Seq<TpRange>, n: TpRange)
    requires
        spec_sections_proper(sections, false),
        n.start <= n.end,
    ensures
        forall|i: int|
            0 <= i < sections.len() ==> (exists|j: int|
                0 <= j < spec_insert_section(sections, n).len() && spec_range_within(
                    #[trigger] sections[i],
                    #[trigger] spec_insert_section(sections, n)[j],
                )),
        exists|j: int|
            0 <= j < spec_insert_section(sections, n).len() && spec_range_within(
                n,
                #[trigger] spec_insert_section(sections, n)[j],
            ),
    decreases sections.len(),
{
    let result = spec_insert_section(sections, n);
    if sections.len() == 0 {
        assert(result[0] == n);
        assert(spec_range_within(n, result[0]));
    } else {
        let s = sections[0];
        assert forall|i: int|
            0 <= i < sections.skip(1).len() implies (#[trigger] sections.skip(1)[i]).start
            <= sections.skip(1)[i].end by {
            assert(sections.skip(1)[i] == sections[i + 1]);
        }
        match spec_tp_range_merge(n, s) {
            Some(m) => {
                lemma_insert_contains(sections.skip(1), m);
                let j0 = choose|j: int|
                    0 <= j < result.len() && spec_range_within(m, #[trigger] result[j]);
                assert(spec_range_within(n, m) && spec_range_within(s, m));
                assert(spec_range_within(n, result[j0]) && spec_range_within(s, result[j0]));
                assert forall|i: int|
                    0 <= i < sections.len() implies (exists|j: int|
                    0 <= j < result.len() && spec_range_within(
                        #[trigger] sections[i],
                        #[trigger] result[j],
                    )) by {
                    if i == 0 {
                        assert(spec_range_within(sections[0], result[j0]));
                    } else {
                        assert(sections.skip(1)[i - 1] == sections[i]);
                        let jj = choose|j: int|
                            0 <= j < result.len() && spec_range_within(
                                sections.skip(1)[i - 1],
                                #[trigger] result[j],
                            );
                        assert(spec_range_within(sections[i], result[jj]));
                    }
                }
            },
            None => {
                lemma_insert_contains(sections.skip(1), n);
                let rest = spec_insert_section(sections.skip(1), n);
                assert(result == seq![s] + rest);
                assert(result[0] == s);
                assert forall|i: int|
                    0 <= i < sections.len() implies (exists|j: int|
                    0 <= j < result.len() && spec_range_within(
                        #[trigger] sections[i],
                        #[trigger] result[j],
                    )) by {
                    if i == 0 {
                        assert(spec_range_within(sections[0], result[0]));
                    } else {
                        assert(sections.skip(1)[i - 1] == sections[i]);
                        let jj = choose|j: int|
                            0 <= j < rest.len() && spec_range_within(
                                sections.skip(1)[i - 1],
                                #[trigger] rest[j],
                            );
                        assert(result[jj + 1] == rest[jj]);
                        assert(spec_range_within(sections[i], result[jj + 1]));
                    }
                }
                let jn = choose|j: int|
                    0 <= j < rest.len() && spec_range_within(n, #[trigger] rest[j]);
                assert(result[jn + 1] == rest[jn]);
                assert(spec_range_within(n, result[jn + 1]));
            },
        }
    }
}

} // verus!
verus! {

/// The range of positions a TP message's segment fills.
pub open spec fn spec_seg_range(msg: Seq<u8>) -> TpRange {
    TpRange {
        start: crate::tp_header::spec_parse_tp_header(msg.skip(16)).spec_offset(),
        end: spec_seg_end(msg) as u32,
    }
}

/// The payload positions some segment of `msgs` fills.
pub open spec fn spec_all_positions(msgs: Seq<Seq<u8>>) -> Set<int> {
    Set::new(
        |p: int|
            exists|k: int|
                0 <= k < msgs.len() && spec_seg_offset(#[trigger] msgs[k]) <= p < spec_seg_end(
                    msgs[k],
                ),
    )
}

/// After any chain of accepted non-empty segments, the buffer's sections
/// are non-empty, pairwise separated, each accepted segment's range lies
/// within one of them, and every section position was written by some
/// segment.
proof fn lemma_chain_sections(b: Seq<TpBuf>, msgs: Seq<Seq<u8>>)
    requires
        spec_chain(b, msgs),
        b[0].wf(),
        b[0].spec_sections().len() == 0,
        forall|k: int|
            0 <= k < msgs.len() ==> 0 < spec_seg_payload(#[trigger] msgs[k]).len(),
        forall|k: int| 0 <= k < msgs.len() ==> spec_seg_end(#[trigger] msgs[k]) <= u32::MAX,
    ensures
        spec_sections_proper(b.last().spec_sections(), true),
        spec_sections_separated(b.last().spec_sections()),
        forall|k: int|
            0 <= k < msgs.len() ==> (exists|j: int|
                0 <= j < b.last().spec_sections().len() && spec_range_within(
                    spec_seg_range(#[trigger] msgs[k]),
                    #[trigger] b.last().spec_sections()[j],
                )),
        spec_sections_covered(b.last().spec_sections(), spec_all_positions(msgs)),
    decreases msgs.len(),
{
    if msgs.len() == 0 {
    } else {
        let n = msgs.len() as int;
        let prefix_b = b.take(n);
        let prefix_msgs = msgs.take(n - 1);
        lemma_chain_prefix(b, msgs);
        lemma_chain_reassembly_step(b, msgs);
        let mid = b[n - 1];
        let post = b[n];
        let last_msg = msgs[n - 1];
        assert forall|k: int|
            0 <= k < prefix_msgs.len() implies (0 < spec_seg_payload(
            #[trigger] prefix_msgs[k]).len() && spec_seg_end(prefix_msgs[k]) <= u32::MAX) by {
            assert(prefix_msgs[k] == msgs[k]);
        }
        lemma_chain_sections(prefix_b, prefix_msgs);
        assert(prefix_b.last() == mid);
        let range = spec_seg_range(last_msg);
        assert(range.start < range.end <= u32::MAX);
        assert(post.spec_sections() == spec_insert_section(mid.spec_sections(), range));
        lemma_insert_separated(mid.spec_sections(), range, true);
        lemma_insert_contains(mid.spec_sections(), range);

        // every earlier segment's range keeps a containing section
        assert forall|k: int|
            0 <= k < msgs.len() implies (exists|j: int|
            0 <= j < post.spec_sections().len() && spec_range_within(
                spec_seg_range(#[trigger] msgs[k]),
                #[trigger] post.spec_sections()[j],
            )) by {
            if k == n - 1 {
                let j1 = choose|j: int|
                    0 <= j < post.spec_sections().len() && spec_range_within(
                        range,
                        #[trigger] post.spec_sections()[j],
                    );
                assert(spec_range_within(spec_seg_range(msgs[k]), post.spec_sections()[j1]));
            } else {
                assert(prefix_msgs[k] == msgs[k]);
                let j1 = choose|j: int|
                    0 <= j < mid.spec_sections().len() && spec_range_within(
                        spec_seg_range(prefix_msgs[k]),
                        #[trigger] mid.spec_sections()[j],
                    );
                let j2 = choose|j: int|
                    0 <= j < post.spec_sections().len() && spec_range_within(
                        mid.spec_sections()[j1],
                        #[trigger] post.spec_sections()[j],
                    );
                assert(spec_range_within(spec_seg_range(msgs[k]), post.spec_sections()[j2]));
            }
        }

        // every section position stems from some segment
        assert forall|p: int|
            #[trigger] spec_all_positions(prefix_msgs).contains(p) implies spec_all_positions(
            msgs).contains(p) by {
            let i = choose|i: int|
                0 <= i < prefix_msgs.len() && spec_seg_offset(#[trigger] prefix_msgs[i]) <= p
                    < spec_seg_end(prefix_msgs[i]);
            assert(prefix_msgs[i] == msgs[i]);
            assert(spec_seg_offset(msgs[i]) <= p < spec_seg_end(msgs[i]));
        }
        assert forall|i: int, p: int|
            0 <= i < mid.spec_sections().len() && (#[trigger] mid.spec_sections()[i]).start <= p
                < mid.spec_sections()[i].end implies #[trigger] spec_all_positions(msgs).contains(
            p) by {
            assert(spec_all_positions(prefix_msgs).contains(p));
        }
        assert(mid.wf()) by {
            if n == 1 {
                assert(mid == b[0]);
            } else {
                assert(spec_consume_transition(b[n - 2], b[(n - 2) + 1], msgs[n - 2]));
                assert(b[(n - 2) + 1] == b[n - 1]);
            }
        }
        lemma_consume_keeps_sections_covered(mid, post, last_msg, spec_all_positions(msgs));
        assert forall|i: int, p: int|
            0 <= i < post.spec_sections().len() && (#[trigger] post.spec_sections()[i]).start <= p
                < post.spec_sections()[i].end implies #[trigger] spec_all_positions(msgs).contains(
            p) by {
            assert(spec_all_positions(msgs).union(spec_segment_positions(last_msg)).contains(p));
            if spec_segment_positions(last_msg).contains(p) {
                assert(spec_seg_offset(msgs[n - 1]) <= p < spec_seg_end(msgs[n - 1]));
            }
        }
        assert(b.last() == post);
    }
}

/// Round trip of a whole TP stream, in one statement: feed — in any order —
/// non-empty segments that together cover the positions 0 to `end` exactly
/// (overlapping bytes identical), let a final segment fix the end at `end`,
/// and the buffer is complete: its single section is exactly `[0, end)`,
/// its bytes are `16 + end` long, every segment's payload stands at its
/// offset (the concatenation in offset order, read position by position),
/// the front holds the offset-0 segment's header with the TP flag cleared,
/// and the length field holds `end + 8` — so `try_finalize` returns the
/// reassembled non-TP message.
pub proof fn lemma_stream_reassembly(b: Seq<TpBuf>, msgs: Seq<Seq<u8>>, hdr: Seq<u8>, end: u32)
    requires
        spec_chain(b, msgs),
        spec_overlaps_identical(msgs),
        b[0].wf(),
        b[0].spec_data().len() == 0,
        b[0].spec_sections().len() == 0,
        msgs.len() > 0,
        0 < end,
        forall|k: int|
            0 <= k < msgs.len() ==> 0 < spec_seg_payload(#[trigger] msgs[k]).len(),
        forall|k: int| 0 <= k < msgs.len() ==> spec_seg_end(#[trigger] msgs[k]) <= end,
        forall|p: int| 0 <= p < end ==> #[trigger] spec_all_positions(msgs).contains(p),
        b.last().spec_end() == Some(end),
        forall|k: int|
            (0 <= k < msgs.len() && spec_seg_offset(#[trigger] msgs[k]) == 0) ==> msgs[k].take(16)
                == hdr,
    ensures
        b.last().spec_is_complete(),
        b.last().spec_sections() == seq![TpRange { start: 0u32, end }],
        b.last().spec_data().len() == 16 + end,
        b.last().spec_data().subrange(4, 8) == spec_be4((end + 8) as u32),
        spec_chain_payload_placed(b.last().spec_data(), msgs),
        spec_chain_header_placed(b.last().spec_data(), hdr),
{
    lemma_chain_sections(b, msgs);
    lemma_chain_reassembly_step(b, msgs);
    let ss = b.last().spec_sections();
    let fin = b.last();
    assert(fin.wf());

    // every section lies within the covered positions, which end at `end`
    assert forall|i: int| 0 <= i < ss.len() implies ((#[trigger] ss[i]).start < ss[i].end
        && ss[i].end <= end) by {
        assert(ss[i].start < ss[i].end);
        let p = ss[i].end - 1;
        assert(spec_all_positions(msgs).contains(p));
        let k = choose|k: int|
            0 <= k < msgs.len() && spec_seg_offset(#[trigger] msgs[k]) <= p < spec_seg_end(
                msgs[k],
            );
        assert(p < spec_seg_end(msgs[k]) <= end);
    }

    // position 0 is covered, so a section starting at 0 exists
    assert(spec_all_positions(msgs).contains(0));
    let k0 = choose|k: int|
        0 <= k < msgs.len() && spec_seg_offset(#[trigger] msgs[k]) <= 0 < spec_seg_end(msgs[k]);
    assert(spec_seg_offset(msgs[k0]) == 0);
    let j0 = choose|j: int|
        0 <= j < ss.len() && spec_range_within(spec_seg_range(msgs[k0]), #[trigger] ss[j]);
    assert(ss[j0].start == 0);

    // two separated sections would leave a covered position outside every
    // section
    assert(ss.len() == 1) by {
        if ss.len() >= 2 {
            let a = ss[0];
            let c = ss[1];
            assert(spec_ranges_separated(a, c));
            let lo: TpRange = if a.start <= c.start {
                a
            } else {
                c
            };
            let hi: TpRange = if a.start <= c.start {
                c
            } else {
                a
            };
            assert(lo.end < hi.start);
            let g = lo.end as int;
            assert(0 <= g < end);
            assert(spec_all_positions(msgs).contains(g));
            let kg = choose|k: int|
                0 <= k < msgs.len() && spec_seg_offset(#[trigger] msgs[k]) <= g < spec_seg_end(
                    msgs[k],
                );
            let jg = choose|j: int|
                0 <= j < ss.len() && spec_range_within(
                    spec_seg_range(msgs[kg]),
                    #[trigger] ss[j],
                );
            assert(ss[jg].start <= g < ss[jg].end);
            // the section holding `g` can be neither `lo` nor separated
            // from it
            let i_lo: int = if a.start <= c.start {
                0
            } else {
                1
            };
            if jg == i_lo {
                assert(ss[jg] == lo);
                assert(false);
            } else {
                assert(spec_ranges_separated(ss[i_lo], ss[jg]));
                assert(false);
            }
        }
    }
    let s = ss[0];
    assert(j0 == 0);
    assert(s.start == 0);

    // the single section reaches exactly `end`
    assert(s.end == end) by {
        let p = end - 1;
        assert(spec_all_positions(msgs).contains(p as int));
        let kp = choose|k: int|
            0 <= k < msgs.len() && spec_seg_offset(#[trigger] msgs[k]) <= p < spec_seg_end(
                msgs[k],
            );
        let jp = choose|j: int|
            0 <= j < ss.len() && spec_range_within(
                spec_seg_range(msgs[kp]),
                #[trigger] ss[j],
            );
        assert(jp == 0);
        assert(p < spec_seg_end(msgs[kp]) <= s.end);
    }
    assert(ss =~= seq![TpRange { start: 0u32, end }]);
    assert(fin.spec_is_complete());

    lemma_chain_payload_bytes(b, msgs);
    lemma_chain_header_bytes(b, msgs, hdr, k0);
}

} // verus!
