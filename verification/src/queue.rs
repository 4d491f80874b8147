//! The queue of coverage-yielding entries.
//!
//! A queue entry freezes one fuzzing result: the exact Sink input, an
//! optional serialised mutation-cache snapshot, and a monotonically
//! assigned ID.  Its mutable statistics carry the lazily computed trace
//! and the `tracing_in_progress` flag that gives at most one worker the
//! right to compute it.  Dumping serialises the frozen part of every entry
//! to a stable byte layout; restoring yields entries with identical `id`,
//! `input` and `mutations`.

use vstd::prelude::*;

use crate::codec::{le32_at, le32_bytes, le64_at, le64_bytes};
use crate::codec;
use crate::trace::Trace;

verus! {

/// What a worker's request to trace an entry came to.
#[derive(Clone, Copy, Debug, PartialEq, Eq, Structural)]
pub enum TraceAttempt {
    /// The entry already carries a trace; use it.
    AlreadyTraced,
    /// Another worker is tracing this entry; skip it for now.
    InProgress,
    /// The flag is now set and the caller must trace, then either
    /// finish or abort.
    Started,
}

/// Mathematical image of an entry's mutable statistics.
#[verifier::ext_equal]
pub ghost struct StatsView {
    pub trace: Option<Seq<u64>>,
    pub tracing_in_progress: bool,
    pub execs: u64,
}

/// Mutable per-entry statistics, guarded by a per-entry lock in the
/// process; here the protocol itself is what is verified.
#[derive(Debug)]
pub struct EntryStats {
    trace: Option<Trace>,
    tracing_in_progress: bool,
    execs: u64,
}

impl View for EntryStats {
    type V = StatsView;

    closed spec fn view(&self) -> StatsView {
        StatsView {
            trace: match self.trace {
                Some(t) => Some(t@),
                None => None,
            },
            tracing_in_progress: self.tracing_in_progress,
            execs: self.execs,
        }
    }
}

/// What `try_begin_tracing` does to the statistics: the state is only
/// changed when no trace exists and nobody is tracing, and the stored
/// trace is never touched.
pub open spec fn begin_tracing_step(s: StatsView) -> (StatsView, TraceAttempt) {
    if s.trace is Some {
        (s, TraceAttempt::AlreadyTraced)
    } else if s.tracing_in_progress {
        (s, TraceAttempt::InProgress)
    } else {
        (StatsView { tracing_in_progress: true, ..s }, TraceAttempt::Started)
    }
}

/// Once a trace is attached it is never replaced, and only one worker can
/// hold the `Started` ticket at a time: starting is impossible while the
/// flag is up, and starting raises the flag.
pub proof fn lemma_tracing_monopoly(s: StatsView)
    ensures
        s.trace is Some ==> begin_tracing_step(s).0.trace == s.trace,
        begin_tracing_step(s).0.trace == s.trace,
        s.tracing_in_progress ==> begin_tracing_step(s).1 != TraceAttempt::Started,
        begin_tracing_step(s).1 == TraceAttempt::Started
            ==> begin_tracing_step(s).0.tracing_in_progress,
{
}

impl EntryStats {
    /// Fresh statistics: no trace, nobody tracing, no executions.
    pub fn new() -> (r: EntryStats)
        ensures
            r@ == (StatsView { trace: None, tracing_in_progress: false, execs: 0 }),
    {
        EntryStats { trace: None, tracing_in_progress: false, execs: 0 }
    }

    /// The attached trace, if any.
    pub fn trace(&self) -> (r: Option<&Trace>)
        ensures
            match r {
                Some(t) => self@.trace == Some(t@),
                None => self@.trace is None,
            },
    {
        match &self.trace {
            Some(t) => Some(t),
            None => None,
        }
    }

    /// Whether some worker holds the tracing ticket.
    pub fn tracing_in_progress(&self) -> (r: bool)
        ensures
            r == self@.tracing_in_progress,
    {
        self.tracing_in_progress
    }

    /// Number of executions charged to this entry.
    pub fn execs(&self) -> (r: u64)
        ensures
            r == self@.execs,
    {
        self.execs
    }

    /// Charge `n` executions.
    pub fn add_execs(&mut self, n: u64)
        requires
            old(self)@.execs + n <= u64::MAX,
        ensures
            final(self)@ == (StatsView { execs: (old(self)@.execs + n) as u64, ..old(self)@ }),
    {
        self.execs = self.execs + n;
    }

    /// Ask for the right to trace this entry.
    pub fn try_begin_tracing(&mut self) -> (r: TraceAttempt)
        ensures
            (final(self)@, r) == begin_tracing_step(old(self)@),
    {
        if self.trace.is_some() {
            TraceAttempt::AlreadyTraced
        } else if self.tracing_in_progress {
            TraceAttempt::InProgress
        } else {
            self.tracing_in_progress = true;
            TraceAttempt::Started
        }
    }

    /// Attach the computed trace and drop the ticket.  Only the holder of
    /// a `Started` ticket may call this, and only once.
    pub fn finish_tracing(&mut self, trace: Trace)
        requires
            old(self)@.tracing_in_progress,
            old(self)@.trace is None,
        ensures
            final(self)@ == (StatsView {
                trace: Some(trace@),
                tracing_in_progress: false,
                execs: old(self)@.execs,
            }),
    {
        self.trace = Some(trace);
        self.tracing_in_progress = false;
    }

    /// Drop the ticket after a failed trace; the entry stays untraced.
    pub fn abort_tracing(&mut self)
        requires
            old(self)@.tracing_in_progress,
        ensures
            final(self)@ == (StatsView { tracing_in_progress: false, ..old(self)@ }),
    {
        self.tracing_in_progress = false;
    }
}

/// Mathematical image of the frozen part of a queue entry — exactly what
/// the dump writes to disk.
#[verifier::ext_equal]
pub ghost struct QeDump {
    pub id: u64,
    pub generation: u32,
    pub input: Seq<u8>,
    pub mutations: Option<Seq<u8>>,
}

/// A frozen fuzzing result plus its mutable statistics.
#[derive(Debug)]
pub struct QueueEntry {
    id: u64,
    generation: u32,
    input: Vec<u8>,
    mutations: Option<Vec<u8>>,
    stats: EntryStats,
}

impl QueueEntry {
    /// The entry's mutable statistics, mathematically.
    pub closed spec fn stats_view(&self) -> StatsView {
        self.stats@
    }

    /// Read access to the entry's mutable statistics.
    pub fn stats(&self) -> (r: &EntryStats)
        ensures
            r@ == self.stats_view(),
    {
        &self.stats
    }

    /// The frozen (dumped) part.
    pub closed spec fn dump_view(&self) -> QeDump {
        QeDump {
            id: self.id,
            generation: self.generation,
            input: self.input@,
            mutations: match self.mutations {
                Some(m) => Some(m@),
                None => None,
            },
        }
    }

    /// Both byte fields are short enough for their 32-bit length prefixes.
    pub closed spec fn dump_bounded(&self) -> bool {
        self.input@.len() <= u32::MAX && match self.mutations {
            Some(m) => m@.len() <= u32::MAX,
            None => true,
        }
    }

    /// The monotonically assigned entry ID.
    pub fn id(&self) -> (r: u64)
        ensures
            r == self.dump_view().id,
    {
        self.id
    }

    /// Distance from a Discovery-discovered ancestor.
    pub fn generation(&self) -> (r: u32)
        ensures
            r == self.dump_view().generation,
    {
        self.generation
    }

    /// The exact bytes that were delivered to the Sink.
    pub fn input(&self) -> (r: &Vec<u8>)
        ensures
            r@ == self.dump_view().input,
    {
        &self.input
    }

    /// The serialised mutation-cache snapshot, if any (`None` stands for
    /// an empty cache).
    pub fn mutations(&self) -> (r: Option<&Vec<u8>>)
        ensures
            match r {
                Some(m) => self.dump_view().mutations == Some(m@),
                None => self.dump_view().mutations is None,
            },
    {
        match &self.mutations {
            Some(m) => Some(m),
            None => None,
        }
    }
}

/// The byte image of one entry: ID, generation, input length, a tag for
/// the optional mutations, the mutations length, then the two byte fields.
pub open spec fn encode_qe(e: QeDump) -> Seq<u8> {
    le64_bytes(e.id) + le32_bytes(e.generation) + le32_bytes(e.input.len() as u32) + seq![
        (match e.mutations {
            Some(_) => 1u8,
            None => 0u8,
        }),
    ] + le32_bytes(
        match e.mutations {
            Some(m) => m.len() as u32,
            None => 0u32,
        },
    ) + e.input + (match e.mutations {
        Some(m) => m,
        None => Seq::<u8>::empty(),
    })
}

/// The byte image of a whole queue: its entries back to back.
pub open spec fn encode_queue(s: Seq<QeDump>) -> Seq<u8>
    decreases s.len(),
{
    if s.len() == 0 {
        Seq::<u8>::empty()
    } else {
        encode_qe(s.first()) + encode_queue(s.drop_first())
    }
}

/// The entries encoded in `data`, or nothing if the bytes are not a
/// back-to-back sequence of well-formed entry images.
pub open spec fn decode_queue(data: Seq<u8>) -> Option<Seq<QeDump>>
    decreases data.len(),
{
    if data.len() == 0 {
        Some(Seq::<QeDump>::empty())
    } else if data.len() < 21 {
        None
    } else {
        let ilen = le32_at(data, 12) as int;
        let tag = data[16];
        let mlen = le32_at(data, 17) as int;
        if !(tag == 0 || tag == 1) || (tag == 0 && mlen != 0) || data.len() < 21 + ilen + mlen {
            None
        } else {
            let e = QeDump {
                id: le64_at(data, 0),
                generation: le32_at(data, 8),
                input: data.subrange(21, 21 + ilen),
                mutations: if tag == 1 {
                    Some(data.subrange(21 + ilen, 21 + ilen + mlen))
                } else {
                    None
                },
            };
            match decode_queue(data.skip(21 + ilen + mlen)) {
                Some(rest) => Some(seq![e] + rest),
                None => None,
            }
        }
    }
}

/// Appending one entry to a queue appends its image to the byte form.
proof fn lemma_encode_qe_push(s: Seq<QeDump>, e: QeDump)
    ensures
        encode_queue(s.push(e)) == encode_queue(s) + encode_qe(e),
    decreases s.len(),
{
    if s.len() == 0 {
        assert(s.push(e).drop_first() =~= Seq::<QeDump>::empty());
        assert(s.push(e).first() == e);
        assert(encode_queue(Seq::<QeDump>::empty()) == Seq::<u8>::empty());
        assert(encode_queue(s.push(e)) =~= encode_qe(e));
        assert(encode_queue(s) + encode_qe(e) =~= encode_qe(e));
    } else {
        assert(s.push(e).drop_first() =~= s.drop_first().push(e));
        lemma_encode_qe_push(s.drop_first(), e);
        assert(s.push(e).first() == s.first());
        assert(encode_queue(s) + encode_qe(e) =~= encode_qe(s.first()) + (encode_queue(
            s.drop_first(),
        ) + encode_qe(e)));
    }
}

/// Every byte field is short enough for its 32-bit length prefix.
pub open spec fn bounded_dumps(s: Seq<QeDump>) -> bool {
    forall|i: int|
        0 <= i < s.len() ==> (#[trigger] s[i]).input.len() <= u32::MAX && match s[i].mutations {
            Some(m) => m.len() <= u32::MAX,
            None => true,
        }
}

/// Restoring undoes dumping: the byte image of any queue with bounded
/// fields parses back to exactly the same frozen entries.
#[verifier::rlimit(60)]
pub proof fn lemma_queue_codec_round_trip(s: Seq<QeDump>)
    requires
        bounded_dumps(s),
    ensures
        decode_queue(encode_queue(s)) == Some(s),
    decreases s.len(),
{
    if s.len() == 0 {
        assert(encode_queue(s) == Seq::<u8>::empty());
    } else {
        let e = s.first();
        let rest = s.drop_first();
        let data = encode_queue(s);
        let head = encode_qe(e);
        let tail = encode_queue(rest);
        assert(data == head + tail);
        let ilen = e.input.len() as int;
        let mlen = (match e.mutations {
            Some(m) => m.len(),
            None => 0,
        }) as int;
        assert(head.len() == 21 + ilen + mlen);
        crate::codec::lemma_le64_round_trip(e.id);
        assert(le64_at(data, 0) == e.id) by {
            assert(forall|k: int| 0 <= k < 8 ==> data[k] == le64_bytes(e.id)[k]);
        }
        crate::codec::lemma_le32_round_trip(e.generation);
        assert(le32_at(data, 8) == e.generation) by {
            assert(forall|k: int|
                0 <= k < 4 ==> data[8 + k] == #[trigger] le32_bytes(e.generation)[k]);
            assert(le32_at(data, 8) == le32_at(le32_bytes(e.generation), 0));
        }
        crate::codec::lemma_le32_round_trip(e.input.len() as u32);
        assert(le32_at(data, 12) == e.input.len() as u32) by {
            assert(forall|k: int|
                0 <= k < 4 ==> data[12 + k] == #[trigger] le32_bytes(e.input.len() as u32)[k]);
            assert(le32_at(data, 12) == le32_at(le32_bytes(e.input.len() as u32), 0));
        }
        let mtag: u8 = match e.mutations {
            Some(_) => 1u8,
            None => 0u8,
        };
        assert(data[16] == mtag);
        let mlen32: u32 = match e.mutations {
            Some(m) => m.len() as u32,
            None => 0u32,
        };
        crate::codec::lemma_le32_round_trip(mlen32);
        assert(le32_at(data, 17) == mlen32) by {
            assert(forall|k: int| 0 <= k < 4 ==> data[17 + k] == #[trigger] le32_bytes(mlen32)[k]);
            assert(le32_at(data, 17) == le32_at(le32_bytes(mlen32), 0));
        }
        assert(data.subrange(21, 21 + ilen) =~= e.input);
        match e.mutations {
            Some(m) => {
                assert(data.subrange(21 + ilen, 21 + ilen + mlen) =~= m);
            },
            None => {},
        }
        assert(data.skip(21 + ilen + mlen) =~= tail);
        lemma_queue_codec_round_trip(rest);
        assert(decode_queue(data) == Some(seq![e] + rest));
        assert(seq![e] + rest =~= s);
    }
}

/// Process-wide ordered container of queue entries.  In the process it
/// sits behind a single mutual-exclusion lock; the logic here is what the
/// lock protects.
#[derive(Debug)]
pub struct Queue {
    entries: Vec<QueueEntry>,
    next_id: u64,
}

impl Queue {
    /// The next ID `push` will assign.
    pub closed spec fn spec_next_id(&self) -> u64 {
        self.next_id
    }

    /// The frozen parts of all entries, in order.
    pub closed spec fn dump_views(&self) -> Seq<QeDump> {
        self.entries@.map_values(|e: QueueEntry| e.dump_view())
    }

    /// The statistics of all entries, in order.
    pub closed spec fn stats_views(&self) -> Seq<StatsView> {
        self.entries@.map_values(|e: QueueEntry| e.stats@)
    }

    /// IDs are assigned monotonically and stay below the next free ID,
    /// and every byte field fits its length prefix.
    pub closed spec fn wf(&self) -> bool {
        &&& forall|i: int, j: int|
            0 <= i < j < self.entries@.len() ==> (#[trigger] self.dump_views()[i]).id < (
            #[trigger] self.dump_views()[j]).id
        &&& forall|i: int|
            0 <= i < self.entries@.len() ==> (#[trigger] self.dump_views()[i]).id < self.next_id
        &&& bounded_dumps(self.dump_views())
    }

    /// An empty queue; IDs start at zero.
    pub fn new() -> (r: Queue)
        ensures
            r.wf(),
            r.dump_views() == Seq::<QeDump>::empty(),
            r.spec_next_id() == 0,
    {
        let r = Queue { entries: Vec::new(), next_id: 0 };
        proof {
            assert(r.dump_views() =~= Seq::<QeDump>::empty());
        }
        r
    }

    /// Number of entries.
    pub fn len(&self) -> (n: usize)
        ensures
            n == self.dump_views().len(),
    {
        self.entries.len()
    }

    /// Read access to the entry at position `i`.
    pub fn entry_at(&self, i: usize) -> (r: &QueueEntry)
        requires
            i < self.dump_views().len(),
        ensures
            r.dump_view() == self.dump_views()[i as int],
            r.stats_view() == self.stats_views()[i as int],
    {
        &self.entries[i]
    }

    /// Append a frozen result; the entry gets the next free ID and fresh
    /// statistics.
    pub fn push(&mut self, input: Vec<u8>, mutations: Option<Vec<u8>>, generation: u32) -> (id:
        u64)
        requires
            old(self).wf(),
            old(self).spec_next_id() < u64::MAX,
            input@.len() <= u32::MAX,
            match mutations {
                Some(m) => m@.len() <= u32::MAX,
                None => true,
            },
        ensures
            final(self).wf(),
            id == old(self).spec_next_id(),
            final(self).dump_views() == old(self).dump_views().push(
                QeDump {
                    id: id,
                    generation: generation,
                    input: input@,
                    mutations: match mutations {
                        Some(m) => Some(m@),
                        None => None,
                    },
                },
            ),
            final(self).stats_views() == old(self).stats_views().push(
                StatsView { trace: None, tracing_in_progress: false, execs: 0 },
            ),
    {
        let ghost iv = input@;
        let ghost mv: Option<Seq<u8>> = match mutations {
            Some(ref m) => Some(m@),
            None => None,
        };
        let id = self.next_id;
        let e = QueueEntry { id, generation, input, mutations, stats: EntryStats::new() };
        self.entries.push(e);
        self.next_id = id + 1;
        proof {
            assert(self.dump_views() =~= old(self).dump_views().push(
                QeDump { id: id, generation: generation, input: iv, mutations: mv },
            ));
            assert(self.stats_views() =~= old(self).stats_views().push(
                StatsView { trace: None, tracing_in_progress: false, execs: 0 },
            ));
        }
        id
    }

    /// Ask for the right to trace entry `i` (§ tracing coordination).
    pub fn try_begin_tracing(&mut self, i: usize) -> (r: TraceAttempt)
        requires
            i < old(self).dump_views().len(),
        ensures
            final(self).dump_views() == old(self).dump_views(),
            (final(self).stats_views()[i as int], r) == begin_tracing_step(
                old(self).stats_views()[i as int],
            ),
            forall|k: int|
                0 <= k < old(self).stats_views().len() && k != i
                    ==> final(self).stats_views()[k] == old(self).stats_views()[k],
            old(self).wf() ==> final(self).wf(),
    {
        let r = self.entries[i].stats.try_begin_tracing();
        proof {
            assert(self.dump_views() =~= old(self).dump_views());
        }
        r
    }

    /// Attach a computed trace to entry `i` and drop the ticket.
    pub fn finish_tracing(&mut self, i: usize, trace: Trace)
        requires
            i < old(self).dump_views().len(),
            old(self).stats_views()[i as int].tracing_in_progress,
            old(self).stats_views()[i as int].trace is None,
        ensures
            final(self).dump_views() == old(self).dump_views(),
            final(self).stats_views()[i as int] == (StatsView {
                trace: Some(trace@),
                tracing_in_progress: false,
                execs: old(self).stats_views()[i as int].execs,
            }),
            forall|k: int|
                0 <= k < old(self).stats_views().len() && k != i
                    ==> final(self).stats_views()[k] == old(self).stats_views()[k],
            old(self).wf() ==> final(self).wf(),
    {
        self.entries[i].stats.finish_tracing(trace);
        proof {
            assert(self.dump_views() =~= old(self).dump_views());
        }
    }

    /// Drop the ticket for entry `i` after a failed trace.
    pub fn abort_tracing(&mut self, i: usize)
        requires
            i < old(self).dump_views().len(),
            old(self).stats_views()[i as int].tracing_in_progress,
        ensures
            final(self).dump_views() == old(self).dump_views(),
            final(self).stats_views()[i as int] == (StatsView {
                tracing_in_progress: false,
                ..old(self).stats_views()[i as int]
            }),
            forall|k: int|
                0 <= k < old(self).stats_views().len() && k != i
                    ==> final(self).stats_views()[k] == old(self).stats_views()[k],
            old(self).wf() ==> final(self).wf(),
    {
        self.entries[i].stats.abort_tracing();
        proof {
            assert(self.dump_views() =~= old(self).dump_views());
        }
    }

    /// Serialise the frozen part of every entry, atomically with respect
    /// to the queue lock the process holds around this call.
    pub fn dump(&self) -> (r: Vec<u8>)
        requires
            self.wf(),
        ensures
            r@ == encode_queue(self.dump_views()),
    {
        let n = self.entries.len();
        let mut out: Vec<u8> = Vec::new();
        let mut i: usize = 0;
        proof {
            assert(self.dump_views().take(0) =~= Seq::<QeDump>::empty());
            assert(out@ =~= encode_queue(self.dump_views().take(0)));
        }
        while i < n
            invariant
                i <= n,
                n == self.dump_views().len(),
                self.wf(),
                out@ == encode_queue(self.dump_views().take(i as int)),
            decreases n - i,
        {
            let e = &self.entries[i];
            codec::push_u64_le(&mut out, e.id);
            codec::push_u32_le(&mut out, e.generation);
            codec::push_u32_le(&mut out, e.input.len() as u32);
            match &e.mutations {
                Some(m) => {
                    out.push(1);
                    codec::push_u32_le(&mut out, m.len() as u32);
                },
                None => {
                    out.push(0);
                    codec::push_u32_le(&mut out, 0);
                },
            }
            codec::push_bytes(&mut out, &e.input);
            match &e.mutations {
                Some(m) => {
                    codec::push_bytes(&mut out, m);
                },
                None => {},
            }
            i = i + 1;
            proof {
                lemma_encode_qe_push(
                    self.dump_views().take(i - 1),
                    self.dump_views()[i - 1],
                );
                assert(self.dump_views().take(i as int) =~= self.dump_views().take(i - 1).push(
                    self.dump_views()[i - 1],
                ));
                assert(out@ =~= encode_queue(self.dump_views().take(i as int)));
            }
        }
        proof {
            assert(self.dump_views().take(n as int) =~= self.dump_views());
        }
        out
    }

    /// Restore a queue from dumped bytes.  The entries come back with
    /// identical `id`, `generation`, `input` and `mutations` and fresh
    /// statistics; IDs continue above the restored ones.  Fails when the
    /// bytes are malformed or the restored IDs are not strictly
    /// increasing.
    #[verifier::rlimit(60)]
    pub fn restore(data: &Vec<u8>) -> (r: Result<Queue, QueueLoadError>)
        ensures
            match r {
                Ok(q) => {
                    &&& q.wf()
                    &&& decode_queue(data@) matches Some(s)
                    &&& q.dump_views() == decode_queue(data@).unwrap()
                    &&& forall|k: int|
                        0 <= k < q.stats_views().len() ==> q.stats_views()[k] == (StatsView {
                            trace: None,
                            tracing_in_progress: false,
                            execs: 0,
                        })
                },
                Err(QueueLoadError::Malformed) => decode_queue(data@) is None,
                Err(QueueLoadError::UnorderedIds) => decode_queue(data@) is Some,
            },
    {
        let total = data.len();
        let mut out: Vec<QueueEntry> = Vec::new();
        let mut off: usize = 0;
        proof {
            assert(data@.skip(0) =~= data@);
            assert(out@.map_values(|e: QueueEntry| e.dump_view()) =~= Seq::<QeDump>::empty());
            if decode_queue(data@) is Some {
                let r0 = decode_queue(data@).unwrap();
                assert(Seq::<QeDump>::empty() + r0 =~= r0);
            }
        }
        while off < total
            invariant
                off <= total,
                total == data@.len(),
                decode_queue(data@) == match decode_queue(data@.skip(off as int)) {
                    Some(rest) => Some(out@.map_values(|e: QueueEntry| e.dump_view()) + rest),
                    None => None::<Seq<QeDump>>,
                },
                forall|k: int|
                    0 <= k < out@.len() ==> (#[trigger] out@[k]).stats@ == (StatsView {
                        trace: None,
                        tracing_in_progress: false,
                        execs: 0,
                    }),
                forall|k: int| 0 <= k < out@.len() ==> (#[trigger] out@[k]).dump_bounded(),
            decreases total - off,
        {
            let remaining = total - off;
            if remaining < 21 {
                proof {
                    assert(decode_queue(data@.skip(off as int)) is None);
                }
                return Err(QueueLoadError::Malformed);
            }
            let ilen = codec::read_u32_le(data, off + 12) as usize;
            let tag = data[off + 16];
            let mlen = codec::read_u32_le(data, off + 17) as usize;
            proof {
                assert(le32_at(data@.skip(off as int), 12) == le32_at(data@, off + 12));
                assert(le32_at(data@.skip(off as int), 17) == le32_at(data@, off + 17));
                assert(data@.skip(off as int)[16] == data@[off + 16]);
            }
            if !(tag == 0 || tag == 1) || (tag == 0 && mlen != 0) || remaining - 21 < ilen
                || remaining - 21 - ilen < mlen {
                proof {
                    assert(decode_queue(data@.skip(off as int)) is None);
                }
                return Err(QueueLoadError::Malformed);
            }
            let id = codec::read_u64_le(data, off);
            let generation = codec::read_u32_le(data, off + 8);
            let input = codec::read_bytes(data, off + 21, ilen);
            let mutations = if tag == 1 {
                Some(codec::read_bytes(data, off + 21 + ilen, mlen))
            } else {
                None
            };
            let e = QueueEntry { id, generation, input, mutations, stats: EntryStats::new() };
            let ghost outprev = out@.map_values(|q: QueueEntry| q.dump_view());
            out.push(e);
            proof {
                let rem = data@.skip(off as int);
                assert(le64_at(rem, 0) == le64_at(data@, off as int));
                assert(le32_at(rem, 8) == le32_at(data@, off + 8));
                assert(rem.subrange(21, 21 + ilen as int) =~= data@.subrange(
                    off + 21,
                    off + 21 + ilen as int,
                ));
                assert(rem.subrange(21 + ilen as int, 21 + ilen as int + mlen as int)
                    =~= data@.subrange(
                    off + 21 + ilen as int,
                    off + 21 + ilen as int + mlen as int,
                ));
                assert(e.dump_view() =~= (QeDump {
                    id: le64_at(rem, 0),
                    generation: le32_at(rem, 8),
                    input: rem.subrange(21, 21 + ilen as int),
                    mutations: if rem[16] == 1 {
                        Some(rem.subrange(21 + ilen as int, 21 + ilen as int + mlen as int))
                    } else {
                        None
                    },
                }));
                assert(rem.skip(21 + ilen as int + mlen as int) =~= data@.skip(
                    off + 21 + ilen as int + mlen as int,
                ));
                assert(out@.map_values(|q: QueueEntry| q.dump_view()) =~= outprev.push(
                    e.dump_view(),
                ));
                assert forall|rest2: Seq<QeDump>|
                    decode_queue(data@.skip(off + 21 + ilen as int + mlen as int)) == Some(
                        rest2,
                    ) implies outprev + (seq![e.dump_view()] + rest2) =~= outprev.push(
                    e.dump_view(),
                ) + rest2 by {}
            }
            off = off + 21 + ilen + mlen;
        }
        proof {
            assert(data@.skip(total as int) =~= Seq::<u8>::empty());
            assert(out@.map_values(|e: QueueEntry| e.dump_view()) + Seq::<QeDump>::empty()
                =~= out@.map_values(|e: QueueEntry| e.dump_view()));
        }
        // The restored IDs must be strictly increasing.
        let ghost views = out@.map_values(|e: QueueEntry| e.dump_view());
        let cnt = out.len();
        let mut next_id: u64 = 0;
        let mut k: usize = 0;
        while k < cnt
            invariant
                k <= cnt,
                cnt == views.len(),
                views == out@.map_values(|e: QueueEntry| e.dump_view()),
                decode_queue(data@) == Some(views),
                forall|a: int, b: int| 0 <= a < b < k ==> views[a].id < views[b].id,
                forall|a: int| 0 <= a < k ==> (#[trigger] views[a]).id < next_id,
                next_id <= u64::MAX,
            decreases cnt - k,
        {
            let id = out[k].id;
            if id >= next_id && id < u64::MAX {
                next_id = id + 1;
            } else {
                return Err(QueueLoadError::UnorderedIds);
            }
            k = k + 1;
        }
        let q = Queue { entries: out, next_id };
        proof {
            assert(q.dump_views() == views);
        }
        Ok(q)
    }
}

/// Why `restore` refused a byte string.
#[derive(Clone, Copy, Debug, PartialEq, Eq, Structural)]
pub enum QueueLoadError {
    /// The bytes are not a back-to-back sequence of entry images.
    Malformed,
    /// The encoded IDs are not strictly increasing, or leave no free ID.
    UnorderedIds,
}

} // verus!
