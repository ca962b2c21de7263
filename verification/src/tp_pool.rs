//! Pool of reassembly buffers reconstructing several SOME/IP TP streams in
//! parallel, re-using buffers to minimise allocations.
use vstd::prelude::*;
use vstd::std_specs::cmp::PartialEqSpec;

use crate::bytes::be32;
use crate::err;
use crate::someip_msg_slice::SomeipMsgSlice;
use crate::tp_buf::{spec_consume_check, spec_consume_transition, TpBuf};
use crate::tp_buf_config::TpBufConfig;

verus! {

/// Whether the executable `==` of `C` decides exactly the mathematical
/// equality of values. It holds of the plain integer types; for a type
/// whose equality Verus has no specification of, the pool's contracts that
/// depend on finding a stream by key say nothing.
pub open spec fn spec_structural_eq<C: PartialEq>() -> bool {
    &&& C::obeys_eq_spec()
    &&& forall|a: C, b: C| #[trigger] a.eq_spec(&b) <==> a == b
}

/// The first position holding the stream key `key`, if any.
pub open spec fn spec_find_key<C, T>(
    s: Seq<((C, u32), (TpBuf, T))>,
    key: (C, u32),
) -> Option<int>
    decreases s.len(),
{
    if s.len() == 0 {
        None
    } else if s[0].0 == key {
        Some(0)
    } else {
        match spec_find_key(s.skip(1), key) {
            Some(i) => Some(i + 1),
            None => None,
        }
    }
}

/// The request id carried in bytes 8 to 11 of a SOME/IP message.
pub open spec fn spec_request_id(msg: Seq<u8>) -> u32 {
    be32(msg[8], msg[9], msg[10], msg[11])
}

/// Every entry of `new_active` is an entry of `old_active` whose timestamp
/// the predicate `f` accepted.
pub open spec fn spec_entries_retained<C, T, F: Fn(&T) -> bool>(
    new_active: Seq<((C, u32), (TpBuf, T))>,
    old_active: Seq<((C, u32), (TpBuf, T))>,
    f: F,
) -> bool {
    forall|i: int|
        0 <= i < new_active.len() ==> (exists|j: int|
            0 <= j < old_active.len() && #[trigger] new_active[i] == old_active[j]
                && call_ensures(f, (&old_active[j].1.1,), true))
}

/// How feeding a TP segment of an already active stream changes the pool:
/// the stream's buffer at position `i` consumes the message; a completed
/// stream moves its buffer to the free list and the reassembled non-TP
/// message is handed out, an incomplete one is re-appended with the new
/// timestamp.
pub open spec fn spec_consume_hit<'a, C, T>(
    old_active: Seq<((C, u32), (TpBuf, T))>,
    old_finished: Seq<TpBuf>,
    new_active: Seq<((C, u32), (TpBuf, T))>,
    new_finished: Seq<TpBuf>,
    key: (C, u32),
    i: int,
    timestamp: T,
    msg: Seq<u8>,
    out: Option<SomeipMsgSlice<'a>>,
) -> bool {
    let pre = old_active[i].1.0;
    exists|post: TpBuf|
        {
            &&& #[trigger] spec_consume_transition(pre, post, msg)
            &&& if post.spec_is_complete() {
                &&& new_active == old_active.remove(i)
                &&& new_finished == old_finished.push(post)
                &&& out matches Some(m) && m@ == post.spec_data() && !m.spec_is_tp()
            } else {
                &&& new_active == old_active.remove(i).push((key, (post, timestamp)))
                &&& new_finished == old_finished
                &&& out is None
            }
        }
}

/// The entries of `entries` whose decision bit in `keeps` is set, in order.
pub open spec fn spec_filter_entries<C, T>(
    entries: Seq<((C, u32), (TpBuf, T))>,
    keeps: Seq<bool>,
) -> Seq<((C, u32), (TpBuf, T))>
    decreases entries.len(),
{
    if entries.len() == 0 {
        Seq::empty()
    } else {
        let rest = spec_filter_entries(entries.skip(1), keeps.skip(1));
        if keeps.len() > 0 && keeps[0] {
            seq![entries[0]] + rest
        } else {
            rest
        }
    }
}

/// The buffers of the entries whose decision bit in `keeps` is clear, in
/// order.
pub open spec fn spec_evicted_bufs<C, T>(
    entries: Seq<((C, u32), (TpBuf, T))>,
    keeps: Seq<bool>,
) -> Seq<TpBuf>
    decreases entries.len(),
{
    if entries.len() == 0 {
        Seq::empty()
    } else {
        let rest = spec_evicted_bufs(entries.skip(1), keeps.skip(1));
        if keeps.len() > 0 && keeps[0] {
            rest
        } else {
            seq![entries[0].1.0] + rest
        }
    }
}

/// How eviction relates the new stream list and free list to the old ones:
/// one call of the predicate per old entry, in order, decided its fate; the
/// new active list is the old one filtered by those decisions, order kept,
/// and the free list grew by exactly the evicted entries' buffers, in order.
pub open spec fn spec_retained_by<C, T, F: Fn(&T) -> bool>(
    old_active: Seq<((C, u32), (TpBuf, T))>,
    old_finished: Seq<TpBuf>,
    new_active: Seq<((C, u32), (TpBuf, T))>,
    new_finished: Seq<TpBuf>,
    f: F,
) -> bool {
    exists|keeps: Seq<bool>|
        {
            &&& keeps.len() == old_active.len()
            &&& (forall|j: int|
                0 <= j < keeps.len() ==> call_ensures(
                    f,
                    (&old_active[j].1.1,),
                    #[trigger] keeps[j],
                ))
            &&& new_active == spec_filter_entries(old_active, keeps)
            &&& new_finished == old_finished + spec_evicted_bufs(old_active, keeps)
        }
}

/// The error a reassembly buffer in state `pre` hands back for the TP
/// message `msg`: its own validation error when [`spec_consume_check`]
/// rejects the segment, else an allocation failure asking for the bytes the
/// segment needs.
pub open spec fn spec_rejected_with<'a>(
    pre: TpBuf,
    msg: Seq<u8>,
    r: Result<Option<SomeipMsgSlice<'a>>, err::TpReassembleError>,
) -> bool {
    let tp = crate::tp_header::spec_parse_tp_header(msg.skip(16));
    let offset = tp.spec_offset();
    let more = tp.spec_more_segment();
    let payload = msg.skip(20);
    match spec_consume_check(
        pre.spec_end(),
        pre.spec_config().spec_tp_max_payload_len(),
        offset,
        payload.len() as usize,
        more,
    ) {
        Some(e) => r == Err::<Option<SomeipMsgSlice<'a>>, _>(e),
        None => r == Err::<Option<SomeipMsgSlice<'a>>, _>(
            err::TpReassembleError::AllocationFailure {
                len: (16 + offset + payload.len()) as usize,
            },
        ),
    }
}

/// Whether the keyed buffer must accept the TP message `msg` without
/// involving the allocator: the segment passes the checks and fits into the
/// already allocated bytes.
pub open spec fn spec_acceptance_owed(pre: TpBuf, msg: Seq<u8>) -> bool {
    let tp = crate::tp_header::spec_parse_tp_header(msg.skip(16));
    let offset = tp.spec_offset();
    let more = tp.spec_more_segment();
    let payload = msg.skip(20);
    &&& spec_consume_check(
        pre.spec_end(),
        pre.spec_config().spec_tp_max_payload_len(),
        offset,
        payload.len() as usize,
        more,
    ) is None
    &&& 16 + offset + payload.len() <= pre.spec_data().len()
}

/// A buffer in its starting state: no bytes, no sections, no fixed end.
pub open spec fn spec_empty_buf(b: TpBuf, config: TpBufConfig) -> bool {
    &&& b.spec_data().len() == 0
    &&& b.spec_sections().len() == 0
    &&& b.spec_end() is None
    &&& b.spec_config() == config
}

/// Pool of buffers reconstructing multiple SOME/IP TP packet streams in
/// parallel, keyed by a caller-chosen channel id together with the wire
/// request id. Finished buffers are kept on a free list and re-used.
///
/// The pool imposes no cap on the number of active streams; in an
/// untrusted environment call [`TpPool::retain`] periodically to evict
/// stalled streams and bound memory.
#[derive(Debug, Clone)]
pub struct TpPool<ChannelId, Timestamp> {
    /// Currently reconstructing TP streams.
    active: Vec<((ChannelId, u32), (TpBuf, Timestamp))>,
    /// Buffers that have finished receiving data and can be re-used.
    finished: Vec<TpBuf>,
    /// Configuration used for new buffers.
    buf_config: TpBufConfig,
}

impl<ChannelId, Timestamp> TpPool<ChannelId, Timestamp> where
    ChannelId: core::hash::Hash + Eq + PartialEq + Clone + Sized,
    Timestamp: core::fmt::Debug + Clone + Sized,
 {
    /// Every buffer the pool stores is well formed, so that each of them
    /// can consume segments and finalize.
    pub closed spec fn wf(&self) -> bool {
        &&& forall|i: int|
            0 <= i < self.active@.len() ==> ((#[trigger] self.active@[i]).1.0.wf()
                && self.active@[i].1.0.spec_config() == self.buf_config)
        &&& forall|i: int|
            0 <= i < self.finished@.len() ==> ((#[trigger] self.finished@[i]).wf()
                && self.finished@[i].spec_config() == self.buf_config)
        &&& spec_structural_eq::<ChannelId>() ==> (forall|i: int, j: int|
            0 <= i < j < self.active@.len() ==> (#[trigger] self.active@[i]).0 != (
            #[trigger] self.active@[j]).0)
    }

    /// The active streams: key, buffer and the timestamp of the last
    /// accepted segment.
    pub closed spec fn spec_active(&self) -> Seq<((ChannelId, u32), (TpBuf, Timestamp))> {
        self.active@
    }

    /// The free list of re-usable buffers.
    pub closed spec fn spec_finished(&self) -> Seq<TpBuf> {
        self.finished@
    }

    /// The configuration used for new buffers.
    pub closed spec fn spec_buf_config(&self) -> TpBufConfig {
        self.buf_config
    }

    /// Creates an empty pool that will configure new buffers with the given
    /// configuration.
    pub fn new(buf_config: TpBufConfig) -> (r: TpPool<ChannelId, Timestamp>)
        ensures
            r.wf(),
            r.spec_active().len() == 0,
            r.spec_finished().len() == 0,
            r.spec_buf_config() == buf_config,
    {
        TpPool { active: Vec::new(), finished: Vec::new(), buf_config }
    }

    /// Creates a pool holding the given number of pre-allocated buffers on
    /// its free list.
    pub fn with_capacity(buf_config: TpBufConfig, initial_bufs_count: usize) -> (r: TpPool<
        ChannelId,
        Timestamp,
    >)
        ensures
            r.wf(),
            r.spec_active().len() == 0,
            r.spec_finished().len() == initial_bufs_count,
            forall|i: int|
                0 <= i < initial_bufs_count ==> spec_empty_buf(
                    #[trigger] r.spec_finished()[i],
                    buf_config,
                ),
            r.spec_buf_config() == buf_config,
    {
        let mut finished: Vec<TpBuf> = Vec::with_capacity(initial_bufs_count);
        let mut n: usize = 0;
        while n < initial_bufs_count
            invariant
                n <= initial_bufs_count,
                finished@.len() == n,
                forall|i: int| 0 <= i < n ==> (#[trigger] finished@[i]).wf(),
                forall|i: int|
                    0 <= i < n ==> spec_empty_buf(#[trigger] finished@[i], buf_config),
            decreases initial_bufs_count - n,
        {
            finished.push(TpBuf::new(buf_config));
            n += 1;
        }
        TpPool { active: Vec::with_capacity(initial_bufs_count), finished, buf_config }
    }

    /// Adds the given number of fresh buffers to the free list.
    pub fn reserve(&mut self, additional: usize)
        requires
            old(self).wf(),
        ensures
            final(self).wf(),
            final(self).spec_active() == old(self).spec_active(),
            final(self).spec_buf_config() == old(self).spec_buf_config(),
            final(self).spec_finished().len() == old(self).spec_finished().len() + additional,
            forall|i: int|
                0 <= i < old(self).spec_finished().len() ==> final(self).spec_finished()[i] == old(self).spec_finished()[i],
            forall|i: int|
                old(self).spec_finished().len() <= i < final(self).spec_finished().len()
                    ==> spec_empty_buf(
                    #[trigger] final(self).spec_finished()[i],
                    old(self).spec_buf_config(),
                ),
    {
        self.finished.reserve(additional);
        let mut n: usize = 0;
        while n < additional
            invariant
                n <= additional,
                self.active@ == old(self).spec_active(),
                self.buf_config == old(self).spec_buf_config(),
                old(self).wf(),
                self.finished@.len() == old(self).spec_finished().len() + n,
                forall|i: int|
                    0 <= i < old(self).spec_finished().len() ==> self.finished@[i] == old(self).spec_finished()[i],
                forall|i: int|
                    old(self).spec_finished().len() <= i < self.finished@.len()
                        ==> spec_empty_buf(
                        #[trigger] self.finished@[i],
                        old(self).spec_buf_config(),
                    ),
                forall|i: int|
                    old(self).spec_finished().len() <= i < self.finished@.len() ==> (
                    #[trigger] self.finished@[i]).wf(),
            decreases additional - n,
        {
            self.finished.push(TpBuf::new(self.buf_config));
            n += 1;
        }
        proof {
            assert forall|i: int| 0 <= i < self.finished@.len() implies (
            #[trigger] self.finished@[i]).wf() by {
                if i < old(self).spec_finished().len() {
                    assert(old(self).spec_finished()[i].wf());
                }
            }
        }
    }

    /// The active streams: key, buffer and the timestamp of the last
    /// accepted segment.
    pub fn active_bufs(&self) -> (r: &Vec<((ChannelId, u32), (TpBuf, Timestamp))>)
        ensures
            r@ == self.spec_active(),
    {
        &self.active
    }

    /// The free list of re-usable buffers.
    pub fn finished_bufs(&self) -> (r: &Vec<TpBuf>)
        ensures
            r@ == self.spec_finished(),
    {
        &self.finished
    }

    /// The configuration used for new buffers.
    pub fn buf_config(&self) -> (r: &TpBufConfig)
        ensures
            *r == self.spec_buf_config(),
    {
        &self.buf_config
    }

    /// Feeds one SOME/IP message into the pool.
    ///
    /// A non-TP message is handed back unchanged. A TP message is consumed
    /// into the stream keyed by `(id, request id)` — continuing the active
    /// stream if one exists, else starting one in a buffer taken from the
    /// free list (or a fresh one) — and the stream's timestamp becomes
    /// `timestamp`. When the segment completes its stream, the stream's
    /// buffer moves to the free list and the reassembled non-TP message,
    /// borrowed from that buffer, is returned; otherwise `None`. A segment
    /// the buffer rejects leaves the pool unchanged and hands the
    /// reassembly error back.
    ///
    /// The clauses below that locate the stream by key hold when `==` on
    /// the channel id decides equality ([`spec_structural_eq`]), which is
    /// the case for the integer types.
    #[verifier::rlimit(100)]
    #[verifier::spinoff_prover]
    pub fn consume<'a>(
        &'a mut self,
        id: ChannelId,
        timestamp: Timestamp,
        someip_slice: SomeipMsgSlice<'a>,
    ) -> (r: Result<Option<SomeipMsgSlice<'a>>, err::TpReassembleError>)
        requires
            old(self).wf(),
        ensures
            final(self).wf(),
            final(self).spec_buf_config() == old(self).spec_buf_config(),
            !someip_slice.spec_is_tp() ==> (r == Ok::<_, err::TpReassembleError>(
                Some(someip_slice),
            ) && final(self).spec_active() == old(self).spec_active() && final(self).spec_finished() == old(self).spec_finished()),
            (someip_slice.spec_is_tp() && spec_structural_eq::<ChannelId>() && spec_find_key(
                old(self).spec_active(),
                (id, spec_request_id(someip_slice@)),
            ) is Some && r is Err) ==> ({
                let i = spec_find_key(
                    old(self).spec_active(),
                    (id, spec_request_id(someip_slice@)),
                )->0;
                &&& final(self).spec_finished() == old(self).spec_finished()
                &&& final(self).spec_active() == old(self).spec_active().update(
                    i,
                    final(self).spec_active()[i],
                )
                &&& final(self).spec_active()[i].0 == old(self).spec_active()[i].0
                &&& final(self).spec_active()[i].1.1 == old(self).spec_active()[i].1.1
                &&& crate::tp_buf::same_buf_state(
                    &final(self).spec_active()[i].1.0,
                    &old(self).spec_active()[i].1.0,
                )
                &&& spec_rejected_with(old(self).spec_active()[i].1.0, someip_slice@, r)
            }),
            (someip_slice.spec_is_tp() && spec_structural_eq::<ChannelId>() && spec_find_key(
                old(self).spec_active(),
                (id, spec_request_id(someip_slice@)),
            ) is Some && spec_acceptance_owed(
                old(self).spec_active()[spec_find_key(
                    old(self).spec_active(),
                    (id, spec_request_id(someip_slice@)),
                )->0].1.0,
                someip_slice@,
            )) ==> r is Ok,
            (someip_slice.spec_is_tp() && spec_structural_eq::<ChannelId>() && spec_find_key(
                old(self).spec_active(),
                (id, spec_request_id(someip_slice@)),
            ) is Some && r is Ok) ==> spec_consume_hit(
                old(self).spec_active(),
                old(self).spec_finished(),
                final(self).spec_active(),
                final(self).spec_finished(),
                (id, spec_request_id(someip_slice@)),
                spec_find_key(old(self).spec_active(), (id, spec_request_id(someip_slice@)))->0,
                timestamp,
                someip_slice@,
                r->Ok_0,
            ),
            (someip_slice.spec_is_tp() && spec_structural_eq::<ChannelId>() && spec_find_key(
                old(self).spec_active(),
                (id, spec_request_id(someip_slice@)),
            ) is None && r is Err) ==> (final(self).spec_active() == old(self).spec_active() && (
            final(self).spec_finished() == old(self).spec_finished() || final(self).spec_finished()
                == old(self).spec_finished().drop_last()) && (exists|pre: TpBuf|
                #[trigger] spec_empty_buf(pre, old(self).spec_buf_config()) && spec_rejected_with(
                    pre,
                    someip_slice@,
                    r,
                ))),
            (someip_slice.spec_is_tp() && spec_structural_eq::<ChannelId>() && spec_find_key(
                old(self).spec_active(),
                (id, spec_request_id(someip_slice@)),
            ) is None && r is Ok) ==> ({
                let key = (id, spec_request_id(someip_slice@));
                let out = r->Ok_0;
                exists|pre: TpBuf, post: TpBuf|
                    {
                        &&& spec_empty_buf(pre, old(self).spec_buf_config())
                        &&& #[trigger] spec_consume_transition(pre, post, someip_slice@)
                        &&& if post.spec_is_complete() {
                            &&& final(self).spec_active() == old(self).spec_active()
                            &&& (final(self).spec_finished() == old(self).spec_finished().push(
                                post,
                            ) || final(self).spec_finished() == old(self).spec_finished().drop_last().push(post))
                            &&& out matches Some(m) && m@ == post.spec_data() && !m.spec_is_tp()
                        } else {
                            &&& final(self).spec_active() == old(self).spec_active().push(
                                (key, (post, timestamp)),
                            )
                            &&& (final(self).spec_finished() == old(self).spec_finished() || final(self).spec_finished() == old(self).spec_finished().drop_last())
                            &&& out is None
                        }
                    }
            }),
    {
        if !someip_slice.is_tp() {
            return Ok(Some(someip_slice));
        }
        let request_id = someip_slice.request_id();

        // look for an active stream with this key
        let mut found: Option<usize> = None;
        let mut i: usize = 0;
        while i < self.active.len() && found.is_none()
            invariant
                i <= self.active@.len(),
                self.active@ == old(self).spec_active(),
                found is None ==> (spec_structural_eq::<ChannelId>() ==> (forall|j: int|
                    0 <= j < i ==> (#[trigger] self.active@[j]).0 != (id, request_id))),
                found matches Some(fi) ==> (fi < self.active@.len()
                    && (spec_structural_eq::<ChannelId>() ==> (self.active@[fi as int].0 == (
                id,
                request_id,
                ) && (forall|j: int|
                    0 <= j < fi ==> (#[trigger] self.active@[j]).0 != (id, request_id))))),
            decreases self.active@.len() - i + (if found is None {
                1int
            } else {
                0int
            }),
        {
            let entry = &self.active[i];
            if entry.0.1 == request_id && entry.0.0 == id {
                found = Some(i);
            } else {
                i += 1;
            }
        }
        proof {
            if spec_structural_eq::<ChannelId>() {
                match found {
                    Some(fi) => {
                        lemma_find_key_first(self.active@, (id, request_id), fi as int);
                    },
                    None => {
                        lemma_find_key_none(self.active@, (id, request_id));
                    },
                }
            }
        }

        match found {
            Some(idx) => {
                // stream already known: consume the data & update the
                // timestamp
                proof {
                    assert(old(self).spec_active()[idx as int].1.0.wf());
                }
                let entry = self.active.remove(idx);
                let (key, (mut buf, _old_timestamp)) = entry;
                let ghost pre_buf = buf;
                proof {
                    assert(pre_buf == old(self).spec_active()[idx as int].1.0);
                }
                match buf.consume_tp(someip_slice) {
                    Err(e) => {
                        // keep the stream as it was
                        self.active.insert(idx, (key, (buf, _old_timestamp)));
                        proof {
                            assert(self.active@ =~= old(self).spec_active().update(
                                idx as int,
                                self.active@[idx as int],
                            ));
                        }
                        Err(e)
                    },
                    Ok(_) => {
                        let ghost post = buf;
                        proof {
                            assert(spec_consume_transition(pre_buf, post, someip_slice@));
                            if spec_structural_eq::<ChannelId>() {
                                assert(key == (id, request_id));
                            }
                        }
                        if buf.is_complete() {
                            self.finished.push(buf);
                            let n = self.finished.len();
                            let finished_buf = &self.finished[n - 1];
                            proof {
                                assert(finished_buf == post);
                                assert(self.finished@ == old(self).spec_finished().push(post));
                            }
                            match finished_buf.try_finalize() {
                                Some(m) => {
                                    proof {
                                        if spec_structural_eq::<ChannelId>() {
                                            assert(spec_consume_hit(
                                                old(self).spec_active(),
                                                old(self).spec_finished(),
                                                self.spec_active(),
                                                self.spec_finished(),
                                                (id, request_id),
                                                idx as int,
                                                timestamp,
                                                someip_slice@,
                                                Some(m),
                                            ));
                                        }
                                    }
                                    Ok(Some(m))
                                },
                                None => {
                                    proof {
                                        assert(false);
                                    }
                                    Ok(None)
                                },
                            }
                        } else {
                            self.active.push((key, (buf, timestamp)));
                            proof {
                                assert(self.active@ == old(self).spec_active().remove(
                                    idx as int,
                                ).push((key, (post, timestamp))));
                                if spec_structural_eq::<ChannelId>() {
                                    assert(spec_consume_hit(
                                        old(self).spec_active(),
                                        old(self).spec_finished(),
                                        self.spec_active(),
                                        self.spec_finished(),
                                        (id, request_id),
                                        idx as int,
                                        timestamp,
                                        someip_slice@,
                                        None::<SomeipMsgSlice<'_>>,
                                    ));
                                }
                            }
                            Ok(None)
                        }
                    },
                }
            },
            None => {
                // new stream: take a finished buffer or allocate a new one
                let ghost popped = self.finished@.len() > 0;
                let mut buf = match self.finished.pop() {
                    Some(mut b) => {
                        proof {
                            assert(old(self).spec_finished()[old(self).spec_finished().len()
                                - 1].wf());
                        }
                        b.clear();
                        b
                    },
                    None => TpBuf::new(self.buf_config),
                };
                proof {
                    assert(spec_empty_buf(buf, old(self).spec_buf_config()));
                }
                match buf.consume_tp(someip_slice) {
                    Err(e) => Err(e),
                    Ok(_) => {
                        let ghost post = buf;
                        if buf.is_complete() {
                            self.finished.push(buf);
                            let n = self.finished.len();
                            let finished_buf = &self.finished[n - 1];
                            proof {
                                assert(finished_buf == post);
                            }
                            match finished_buf.try_finalize() {
                                Some(m) => Ok(Some(m)),
                                None => {
                                    proof {
                                        assert(false);
                                    }
                                    Ok(None)
                                },
                            }
                        } else {
                            self.active.push(((id, request_id), (buf, timestamp)));
                            Ok(None)
                        }
                    },
                }
            },
        }
    }

    /// Retains exactly the active streams whose timestamp satisfies the
    /// predicate; the buffers of evicted streams move to the free list.
    /// This is the caller's tool for bounding memory against stalled
    /// streams.
    ///
    /// The contract fixes the whole outcome through one call of the
    /// predicate per stream, in order ([`spec_retained_by`]): the surviving
    /// streams are the old list filtered by those calls' results, order
    /// kept, and the free list grows by exactly the evicted buffers, in
    /// order.
    pub fn retain<F: Fn(&Timestamp) -> bool>(&mut self, f: F)
        requires
            old(self).wf(),
            forall|t: &Timestamp| #[trigger] f.requires((t,)),
        ensures
            final(self).wf(),
            final(self).spec_buf_config() == old(self).spec_buf_config(),
            spec_retained_by(
                old(self).spec_active(),
                old(self).spec_finished(),
                final(self).spec_active(),
                final(self).spec_finished(),
                f,
            ),
            spec_entries_retained(final(self).spec_active(), old(self).spec_active(), f),
    {
        let ghost old_active = self.active@;
        let ghost old_finished = self.finished@;
        let ghost mut keeps: Seq<bool> = Seq::empty();
        let mut kept: Vec<((ChannelId, u32), (TpBuf, Timestamp))> = Vec::new();
        proof {
            assert(old_active.take(0) =~= Seq::<((ChannelId, u32), (TpBuf, Timestamp))>::empty());
            assert(kept@ =~= spec_filter_entries(old_active.take(0), keeps));
            assert(self.finished@ =~= old_finished + spec_evicted_bufs(old_active.take(0), keeps));
        }
        while self.active.len() > 0
            invariant
                old(self).wf(),
                self.buf_config == old(self).spec_buf_config(),
                self.active@.len() <= old_active.len(),
                self.active@ == old_active.skip(old_active.len() - self.active@.len()),
                keeps.len() == old_active.len() - self.active@.len(),
                forall|j: int|
                    0 <= j < keeps.len() ==> call_ensures(
                        f,
                        (&old(self).spec_active()[j].1.1,),
                        #[trigger] keeps[j],
                    ),
                kept@ == spec_filter_entries(old_active.take(keeps.len() as int), keeps),
                self.finished@ == old_finished + spec_evicted_bufs(
                    old_active.take(keeps.len() as int),
                    keeps,
                ),
                spec_entries_retained(kept@, old(self).spec_active(), f),
                forall|i: int|
                    0 <= i < kept@.len() ==> ((#[trigger] kept@[i]).1.0.wf()
                        && kept@[i].1.0.spec_config() == old(self).spec_buf_config()),
                spec_structural_eq::<ChannelId>() ==> (forall|a: int, b: int|
                    0 <= a < b < kept@.len() ==> (#[trigger] kept@[a]).0 != (
                    #[trigger] kept@[b]).0),
                spec_structural_eq::<ChannelId>() ==> (forall|a: int, b: int|
                    0 <= a < kept@.len() && 0 <= b < self.active@.len() ==> (
                    #[trigger] kept@[a]).0 != (#[trigger] self.active@[b]).0),
                forall|i: int|
                    0 <= i < self.finished@.len() ==> ((#[trigger] self.finished@[i]).wf()
                        && self.finished@[i].spec_config() == old(self).spec_buf_config()),
                old_active == old(self).spec_active(),
                old_finished == old(self).spec_finished(),
                forall|t: &Timestamp| #[trigger] f.requires((t,)),
            decreases self.active@.len(),
        {
            let ghost p = old_active.len() - self.active@.len();
            let entry = self.active.remove(0);
            proof {
                assert(entry == old(self).spec_active()[p as int]);
                assert(self.active@ =~= old_active.skip(p + 1 as int));
                assert(old(self).spec_active()[p as int].1.0.wf());
                if spec_structural_eq::<ChannelId>() {
                    assert forall|b: int|
                        0 <= b < self.active@.len() implies entry.0 != (
                    #[trigger] self.active@[b]).0 by {
                        assert(self.active@[b] == old_active[p + 1 + b]);
                    }
                }
            }
            let keep = f(&entry.1.1);
            let ghost keeps_prev = keeps;
            proof {
                keeps = keeps.push(keep);
                assert(keeps.take(keeps.len() - 1) =~= keeps_prev);
                lemma_filter_entries_snoc(old_active, keeps, p as int);
                lemma_evicted_bufs_snoc(old_active, keeps, p as int);
            }
            if keep {
                let ghost kept_prev = kept@;
                kept.push(entry);
                proof {
                    assert(kept@[kept@.len() - 1] == old(self).spec_active()[p as int]);
                    assert(kept@ =~= spec_filter_entries(old_active.take(p + 1 as int), keeps));
                    assert forall|i: int| 0 <= i < kept@.len() implies (exists|j: int|
                        0 <= j < old(self).spec_active().len() && #[trigger] kept@[i] == old(self).spec_active()[j] && call_ensures(
                            f,
                            (&old(self).spec_active()[j].1.1,),
                            true,
                        )) by {
                        if i < kept@.len() - 1 {
                            assert(kept@[i] == kept_prev[i]);
                        } else {
                            assert(kept@[i] == old(self).spec_active()[p as int]);
                        }
                    }
                }
            } else {
                let ghost fin_prev = self.finished@;
                let ghost moved_buf = entry.1.0;
                self.finished.push(entry.1.0);
                proof {
                    assert(self.finished@ == fin_prev.push(moved_buf));
                    assert(self.finished@ =~= old_finished + spec_evicted_bufs(
                        old_active.take(p + 1 as int),
                        keeps,
                    ));
                }
            }
        }
        let ghost kept_final = kept@;
        proof {
            assert(old_active.take(keeps.len() as int) =~= old_active);
            assert(spec_entries_retained(kept_final, old(self).spec_active(), f));
        }
        self.active = kept;
        proof {
            assert(self.active@ == kept_final);
            assert(spec_entries_retained(self.spec_active(), old(self).spec_active(), f));
            assert(spec_retained_by(
                old(self).spec_active(),
                old(self).spec_finished(),
                self.spec_active(),
                self.spec_finished(),
                f,
            )) by {
                assert(self.spec_active() == spec_filter_entries(old(self).spec_active(), keeps));
                assert(self.spec_finished() == old(self).spec_finished() + spec_evicted_bufs(
                    old(self).spec_active(),
                    keeps,
                ));
            }
        }
    }
}

impl<ChannelId, Timestamp> PartialEq for TpPool<ChannelId, Timestamp> where
    ChannelId: core::hash::Hash + Eq + PartialEq + Clone + Sized,
    Timestamp: core::fmt::Debug + Clone + Sized + PartialEq,
 {
    /// Compares the active streams, the free list and the configuration.
    fn eq(&self, other: &Self) -> (r: bool) {
        self.active == other.active && self.finished == other.finished
            && self.buf_config.tp_max_payload_len() == other.buf_config.tp_max_payload_len()
            && self.buf_config.start_alloc_len() == other.buf_config.start_alloc_len()
    }
}

impl<ChannelId, Timestamp> vstd::std_specs::cmp::PartialEqSpecImpl for TpPool<ChannelId, Timestamp> where
    ChannelId: core::hash::Hash + Eq + PartialEq + Clone + Sized,
    Timestamp: core::fmt::Debug + Clone + Sized + PartialEq,
 {
    /// The comparison leans on the buffers' derived equality, of which
    /// nothing is known here, so no claim is made about the result.
    open spec fn obeys_eq_spec() -> bool {
        false
    }

    open spec fn eq_spec(&self, other: &Self) -> bool {
        self.spec_active() == other.spec_active() && self.spec_finished()
            == other.spec_finished() && self.spec_buf_config() == other.spec_buf_config()
    }
}

impl<ChannelId, Timestamp> Eq for TpPool<ChannelId, Timestamp> where
    ChannelId: core::hash::Hash + Eq + PartialEq + Clone + Sized,
    Timestamp: core::fmt::Debug + Clone + Sized + PartialEq + Eq,
 {
}

/// Filtering one more entry appends it to the filtered list when its
/// decision bit is set.
proof fn lemma_filter_entries_snoc<C, T>(
    entries: Seq<((C, u32), (TpBuf, T))>,
    keeps: Seq<bool>,
    j: int,
)
    requires
        0 <= j,
        j + 1 <= entries.len(),
        keeps.len() == j + 1,
    ensures
        spec_filter_entries(entries.take(j + 1), keeps) == spec_filter_entries(
            entries.take(j),
            keeps.take(j),
        ) + (if keeps[j] {
            seq![entries[j]]
        } else {
            Seq::<((C, u32), (TpBuf, T))>::empty()
        }),
    decreases j,
{
    let tail = if keeps[j] {
        seq![entries[j]]
    } else {
        Seq::<((C, u32), (TpBuf, T))>::empty()
    };
    if j == 0 {
        assert(entries.take(1)[0] == entries[0]);
        assert(entries.take(1).skip(1) =~= Seq::<((C, u32), (TpBuf, T))>::empty());
        assert(entries.take(0) =~= Seq::<((C, u32), (TpBuf, T))>::empty());
        assert(spec_filter_entries(entries.take(1).skip(1), keeps.skip(1)) =~= Seq::<
            ((C, u32), (TpBuf, T)),
        >::empty());
        assert(spec_filter_entries(entries.take(1), keeps) =~= spec_filter_entries(
            entries.take(0),
            keeps.take(0),
        ) + tail);
    } else {
        assert(keeps.skip(1).len() == j);
        assert(keeps.skip(1)[j - 1] == keeps[j]);
        lemma_filter_entries_snoc(entries.skip(1), keeps.skip(1), j - 1);
        assert(entries.take(j + 1)[0] == entries[0]);
        assert(entries.take(j + 1).skip(1) =~= entries.skip(1).take(j));
        assert(entries.take(j)[0] == entries[0]);
        assert(entries.take(j).skip(1) =~= entries.skip(1).take(j - 1));
        assert(keeps.take(j).skip(1) =~= keeps.skip(1).take(j - 1));
        assert(keeps.take(j)[0] == keeps[0]);
        assert(entries.skip(1)[j - 1] == entries[j]);
        assert(spec_filter_entries(entries.take(j + 1), keeps) =~= spec_filter_entries(
            entries.take(j),
            keeps.take(j),
        ) + tail);
    }
}

/// Evicting one more entry appends its buffer to the evicted list when its
/// decision bit is clear.
proof fn lemma_evicted_bufs_snoc<C, T>(
    entries: Seq<((C, u32), (TpBuf, T))>,
    keeps: Seq<bool>,
    j: int,
)
    requires
        0 <= j,
        j + 1 <= entries.len(),
        keeps.len() == j + 1,
    ensures
        spec_evicted_bufs(entries.take(j + 1), keeps) == spec_evicted_bufs(
            entries.take(j),
            keeps.take(j),
        ) + (if keeps[j] {
            Seq::<TpBuf>::empty()
        } else {
            seq![entries[j].1.0]
        }),
    decreases j,
{
    let tail = if keeps[j] {
        Seq::<TpBuf>::empty()
    } else {
        seq![entries[j].1.0]
    };
    if j == 0 {
        assert(entries.take(1)[0] == entries[0]);
        assert(entries.take(1).skip(1) =~= Seq::<((C, u32), (TpBuf, T))>::empty());
        assert(entries.take(0) =~= Seq::<((C, u32), (TpBuf, T))>::empty());
        assert(spec_evicted_bufs(entries.take(1).skip(1), keeps.skip(1)) =~= Seq::<TpBuf>::empty());
        assert(spec_evicted_bufs(entries.take(1), keeps) =~= spec_evicted_bufs(
            entries.take(0),
            keeps.take(0),
        ) + tail);
    } else {
        assert(keeps.skip(1).len() == j);
        assert(keeps.skip(1)[j - 1] == keeps[j]);
        lemma_evicted_bufs_snoc(entries.skip(1), keeps.skip(1), j - 1);
        assert(entries.take(j + 1)[0] == entries[0]);
        assert(entries.take(j + 1).skip(1) =~= entries.skip(1).take(j));
        assert(entries.take(j)[0] == entries[0]);
        assert(entries.take(j).skip(1) =~= entries.skip(1).take(j - 1));
        assert(keeps.take(j).skip(1) =~= keeps.skip(1).take(j - 1));
        assert(keeps.take(j)[0] == keeps[0]);
        assert(entries.skip(1)[j - 1] == entries[j]);
        assert(spec_evicted_bufs(entries.take(j + 1), keeps) =~= spec_evicted_bufs(
            entries.take(j),
            keeps.take(j),
        ) + tail);
    }
}

/// When the executable equality is structural and no entry before `fi`
/// carries the key while entry `fi` does, `fi` is the first position of the
/// key.
proof fn lemma_find_key_first<C, T>(s: Seq<((C, u32), (TpBuf, T))>, key: (C, u32), fi: int)
    requires
        0 <= fi < s.len(),
        s[fi].0 == key,
        forall|j: int| 0 <= j < fi ==> (#[trigger] s[j]).0 != key,
    ensures
        spec_find_key(s, key) == Some(fi),
    decreases s.len(),
{
    if fi == 0 {
    } else {
        assert(s[0].0 != key);
        assert(s.skip(1)[fi - 1] == s[fi]);
        assert forall|j: int| 0 <= j < fi - 1 implies (#[trigger] s.skip(1)[j]).0 != key by {
            assert(s.skip(1)[j] == s[j + 1]);
        }
        lemma_find_key_first(s.skip(1), key, fi - 1);
    }
}

/// When the executable equality is structural and no entry carries the key,
/// the key is not found.
proof fn lemma_find_key_none<C, T>(s: Seq<((C, u32), (TpBuf, T))>, key: (C, u32))
    requires
        forall|j: int| 0 <= j < s.len() ==> (#[trigger] s[j]).0 != key,
    ensures
        spec_find_key(s, key) is None,
    decreases s.len(),
{
    if s.len() > 0 {
        assert forall|j: int| 0 <= j < s.skip(1).len() implies (#[trigger] s.skip(1)[j]).0
            != key by {
            assert(s.skip(1)[j] == s[j + 1]);
        }
        lemma_find_key_none(s.skip(1), key);
    }
}

} // verus!
