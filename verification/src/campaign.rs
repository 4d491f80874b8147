//! The campaign: owner of the shared state, the worker registry and the
//! bounded restart policy.
//!
//! Spawning OS threads, joining them and touching the file system belong
//! to the embedding program; the campaign tracks which workers exist,
//! which are alive, how their statistics sum up, and which crashed
//! workers may still be replaced.

use vstd::prelude::*;

use crate::config::Config;
use crate::queue::Queue;
use crate::sink_bitmap::Bitmap;
use crate::cerebrum::Cerebrum;
use crate::BITMAP_DEFAULT_MAP_SIZE;
use crate::MAX_WORKER_RESTART_CNT;

verus! {

/// Identifier of one worker thread.
#[derive(Clone, Copy, Debug, PartialEq, Eq, Structural, Hash)]
pub struct WorkerUid(pub u64);

/// Additive per-worker statistics.
#[derive(Clone, Copy, Debug, PartialEq, Eq, Structural)]
pub struct FuzzerEventCounter {
    /// Sink executions performed.
    pub execs: u64,
    /// Executions that yielded a new edge.
    pub new_edges: u64,
    /// Executions that yielded new hit counts only.
    pub new_hits: u64,
    /// Sink crashes observed.
    pub crashes: u64,
    /// Milliseconds since the epoch at worker initialisation, once set.
    pub init_ts_millis: Option<u64>,
}

impl FuzzerEventCounter {
    /// Zeroed statistics, no initialisation time yet.
    pub fn new() -> (r: FuzzerEventCounter)
        ensures
            r == (FuzzerEventCounter {
                execs: 0,
                new_edges: 0,
                new_hits: 0,
                crashes: 0,
                init_ts_millis: None,
            }),
    {
        FuzzerEventCounter { execs: 0, new_edges: 0, new_hits: 0, crashes: 0, init_ts_millis: None }
    }
}

/// `a + b`, stopping at the largest representable value.
pub open spec fn sat_add(a: u64, b: u64) -> u64 {
    if a + b <= u64::MAX {
        (a + b) as u64
    } else {
        u64::MAX
    }
}

/// Saturating addition on 64-bit counters.
pub fn sat_add_exec(a: u64, b: u64) -> (r: u64)
    ensures
        r == sat_add(a, b),
{
    if a <= u64::MAX - b {
        a + b
    } else {
        u64::MAX
    }
}

/// How many workers of the registry are dead and not yet in the
/// restarted registry — the restart candidates.
pub open spec fn count_dead_unregistered(ws: Seq<WorkerProxy>, reg: Seq<WorkerUid>) -> int
    decreases ws.len(),
{
    if ws.len() == 0 {
        0
    } else {
        count_dead_unregistered(ws.drop_last(), reg) + (if !ws.last().alive && !reg.contains(
            ws.last().uid,
        ) {
            1int
        } else {
            0int
        })
    }
}

/// Saturating sum of the `execs` counters of a worker sequence.
pub open spec fn sum_execs_sat(s: Seq<WorkerProxy>) -> u64
    decreases s.len(),
{
    if s.len() == 0 {
        0
    } else {
        sat_add(sum_execs_sat(s.drop_last()), s.last().stats.execs)
    }
}

/// Saturating sum of the `new_edges` counters.
pub open spec fn sum_edges_sat(s: Seq<WorkerProxy>) -> u64
    decreases s.len(),
{
    if s.len() == 0 {
        0
    } else {
        sat_add(sum_edges_sat(s.drop_last()), s.last().stats.new_edges)
    }
}

/// Saturating sum of the `new_hits` counters.
pub open spec fn sum_hits_sat(s: Seq<WorkerProxy>) -> u64
    decreases s.len(),
{
    if s.len() == 0 {
        0
    } else {
        sat_add(sum_hits_sat(s.drop_last()), s.last().stats.new_hits)
    }
}

/// Saturating sum of the `crashes` counters.
pub open spec fn sum_crashes_sat(s: Seq<WorkerProxy>) -> u64
    decreases s.len(),
{
    if s.len() == 0 {
        0
    } else {
        sat_add(sum_crashes_sat(s.drop_last()), s.last().stats.crashes)
    }
}

/// The campaign's view of one worker thread.
#[derive(Clone, Copy, Debug)]
pub struct WorkerProxy {
    pub uid: WorkerUid,
    /// Whether the thread is still running.
    pub alive: bool,
    /// Whether the thread was asked to stop.
    pub stop_requested: bool,
    /// The worker's statistics, as last published.
    pub stats: FuzzerEventCounter,
}

/// Pushing extends membership by exactly the new element.
proof fn lemma_push_contains(s: Seq<WorkerUid>, a: WorkerUid, x: WorkerUid)
    ensures
        s.push(a).contains(x) <==> s.contains(x) || x == a,
{
    let t = s.push(a);
    if t.contains(x) {
        let w = choose|w: int| 0 <= w < t.len() && t[w] == x;
        if w < s.len() {
            assert(s[w] == x);
        }
    }
    if s.contains(x) {
        let w = choose|w: int| 0 <= w < s.len() && s[w] == x;
        assert(t[w] == x);
    }
    if x == a {
        assert(t[s.len() as int] == x);
    }
}

/// Membership of a worker UID in a vector.
fn contains_uid(v: &Vec<WorkerUid>, uid: WorkerUid) -> (r: bool)
    ensures
        r == v@.contains(uid),
{
    let n = v.len();
    let mut i: usize = 0;
    while i < n
        invariant
            i <= n,
            n == v@.len(),
            forall|k: int| 0 <= k < i ==> v@[k] != uid,
        decreases n - i,
    {
        if v[i].0 == uid.0 {
            return true;
        }
        i = i + 1;
    }
    false
}

/// A fuzzing campaign for one Source/Sink configuration.
#[derive(Debug)]
pub struct FuzzingCampaign {
    config: Config,
    queue: Queue,
    workers: Vec<WorkerProxy>,
    initialization_failed: bool,
    cerebrum: Option<Cerebrum>,
    shared_virgin_map: Bitmap,
    shared_crash_virgin_map: Bitmap,
    restarted_worker: Vec<WorkerUid>,
    next_worker_uid: u64,
    restart_limit: usize,
}

impl FuzzingCampaign {
    /// The worker registry.
    pub closed spec fn spec_workers(&self) -> Seq<WorkerProxy> {
        self.workers@
    }

    /// The registry of workers that were already replaced (or marked
    /// unreplaceable).
    pub closed spec fn spec_restarted(&self) -> Seq<WorkerUid> {
        self.restarted_worker@
    }

    /// How large the restarted registry may grow before replacements
    /// stop.
    pub closed spec fn spec_restart_limit(&self) -> usize {
        self.restart_limit
    }

    /// The queue is well-formed.
    pub closed spec fn wf(&self) -> bool {
        self.queue.wf()
    }

    /// There is room to hand out `n` more worker UIDs.
    pub closed spec fn next_uid_headroom(&self, n: nat) -> bool {
        self.next_worker_uid + n <= u64::MAX
    }

    /// Whether the shared Cerebrum has been installed yet.
    pub closed spec fn spec_cerebrum_present(&self) -> bool {
        self.cerebrum is Some
    }

    /// The shared virgin map's bytes.
    pub closed spec fn spec_virgin_map(&self) -> Seq<u8> {
        self.shared_virgin_map@
    }

    /// The shared crash virgin map's bytes.
    pub closed spec fn spec_crash_virgin_map(&self) -> Seq<u8> {
        self.shared_crash_virgin_map@
    }

    /// A fresh campaign over `config`: an empty queue, both virgin maps
    /// all `0xFF`, no workers, no Cerebrum yet.  Writing `config.json`
    /// into the work directory is the embedding program's step.
    pub fn new(config: Config) -> (r: FuzzingCampaign)
        ensures
            r.wf(),
            r.spec_workers().len() == 0,
            r.spec_restarted().len() == 0,
            r.spec_restart_limit() == MAX_WORKER_RESTART_CNT,
            r.next_uid_headroom(1000000),
            r.queue_spec().dump_views() == Seq::<crate::queue::QeDump>::empty(),
            r.queue_spec().spec_next_id() == 0,
            !r.spec_cerebrum_present(),
            r.spec_virgin_map().len() == BITMAP_DEFAULT_MAP_SIZE,
            forall|i: int|
                0 <= i < BITMAP_DEFAULT_MAP_SIZE ==> r.spec_virgin_map()[i] == 0xff,
            r.spec_crash_virgin_map().len() == BITMAP_DEFAULT_MAP_SIZE,
            forall|i: int|
                0 <= i < BITMAP_DEFAULT_MAP_SIZE ==> r.spec_crash_virgin_map()[i] == 0xff,
    {
        FuzzingCampaign {
            config,
            queue: Queue::new(),
            workers: Vec::new(),
            initialization_failed: false,
            cerebrum: None,
            shared_virgin_map: Bitmap::new_in_mem(BITMAP_DEFAULT_MAP_SIZE, 0xff),
            shared_crash_virgin_map: Bitmap::new_in_mem(BITMAP_DEFAULT_MAP_SIZE, 0xff),
            restarted_worker: Vec::new(),
            next_worker_uid: 0,
            restart_limit: MAX_WORKER_RESTART_CNT,
        }
    }

    /// The queue shared by all workers.
    pub fn queue(&self) -> (r: &Queue)
        ensures
            self.wf() ==> r.wf(),
    {
        &self.queue
    }

    /// Mutable access to the queue (the process serialises this behind
    /// the queue lock).
    pub fn queue_mut(&mut self) -> (r: &mut Queue)
        ensures
            *r == old(self).queue_spec(),
            final(self).queue_spec() == *final(r),
            final(self).spec_workers() == old(self).spec_workers(),
            final(self).spec_restarted() == old(self).spec_restarted(),
    {
        &mut self.queue
    }

    /// The queue, mathematically.
    pub closed spec fn queue_spec(&self) -> Queue {
        self.queue
    }

    /// The configuration the campaign runs.
    pub fn config(&self) -> &Config {
        &self.config
    }

    /// Cap the restarted registry (the default is the crate bound).
    pub fn set_restart_limit(&mut self, limit: usize)
        ensures
            final(self).wf() == old(self).wf(),
            final(self).spec_restart_limit() == limit,
            final(self).spec_workers() == old(self).spec_workers(),
            final(self).spec_restarted() == old(self).spec_restarted(),
            forall|n: nat| final(self).next_uid_headroom(n) == old(self).next_uid_headroom(n),
    {
        self.restart_limit = limit;
    }

    /// Number of registered workers.
    pub fn num_workers(&self) -> (n: usize)
        ensures
            n == self.spec_workers().len(),
    {
        self.workers.len()
    }

    /// Register one new live worker and return its UID.
    fn register_worker(&mut self) -> (uid: WorkerUid)
        requires
            old(self).next_uid_headroom(1),
        ensures
            final(self).wf() == old(self).wf(),
            final(self).spec_restart_limit() == old(self).spec_restart_limit(),
            final(self).spec_restarted() == old(self).spec_restarted(),
            final(self).spec_workers() == old(self).spec_workers().push(
                WorkerProxy {
                    uid,
                    alive: true,
                    stop_requested: false,
                    stats: FuzzerEventCounter {
                        execs: 0,
                        new_edges: 0,
                        new_hits: 0,
                        crashes: 0,
                        init_ts_millis: None,
                    },
                },
            ),
            forall|n: nat|
                old(self).next_uid_headroom(n + 1) ==> final(self).next_uid_headroom(n),
    {
        let uid = WorkerUid(self.next_worker_uid);
        self.next_worker_uid = self.next_worker_uid + 1;
        self.workers.push(
            WorkerProxy {
                uid,
                alive: true,
                stop_requested: false,
                stats: FuzzerEventCounter::new(),
            },
        );
        uid
    }

    /// Register `worker_cnt` new live workers; in the process they all
    /// rendezvous at one init barrier before any enters its loop.
    pub fn start(&mut self, worker_cnt: usize) -> (uids: Vec<WorkerUid>)
        requires
            old(self).next_uid_headroom(worker_cnt as nat),
        ensures
            final(self).wf() == old(self).wf(),
            final(self).spec_restart_limit() == old(self).spec_restart_limit(),
            final(self).spec_restarted() == old(self).spec_restarted(),
            uids@.len() == worker_cnt,
            final(self).spec_workers().len() == old(self).spec_workers().len() + worker_cnt,
            forall|i: int|
                0 <= i < worker_cnt ==> {
                    let w = #[trigger] final(self).spec_workers()[old(self).spec_workers().len()
                        + i];
                    w.alive && !w.stop_requested && w.uid == uids@[i]
                },
            forall|i: int|
                0 <= i < old(self).spec_workers().len()
                    ==> final(self).spec_workers()[i] == old(self).spec_workers()[i],
    {
        let ghost w0 = self.workers@;
        let mut uids: Vec<WorkerUid> = Vec::new();
        let mut i: usize = 0;
        while i < worker_cnt
            invariant
                i <= worker_cnt,
                self.wf() == old(self).wf(),
                self.restart_limit == old(self).spec_restart_limit(),
                self.restarted_worker@ == old(self).spec_restarted(),
                self.next_uid_headroom((worker_cnt - i) as nat),
                uids@.len() == i,
                w0 == old(self).spec_workers(),
                self.workers@.len() == w0.len() + i,
                forall|k: int|
                    0 <= k < i ==> {
                        let w = #[trigger] self.workers@[w0.len() + k];
                        w.alive && !w.stop_requested && w.uid == uids@[k]
                    },
                forall|k: int| 0 <= k < w0.len() ==> self.workers@[k] == w0[k],
            decreases worker_cnt - i,
        {
            let uid = self.register_worker();
            uids.push(uid);
            i = i + 1;
        }
        uids
    }

    /// Register one additional live worker (its barrier is its own, so
    /// it passes immediately).
    pub fn spawn_additional_worker(&mut self) -> (uid: WorkerUid)
        requires
            old(self).next_uid_headroom(1),
        ensures
            final(self).wf() == old(self).wf(),
            final(self).spec_restart_limit() == old(self).spec_restart_limit(),
            final(self).spec_restarted() == old(self).spec_restarted(),
            final(self).spec_workers().len() == old(self).spec_workers().len() + 1,
            ({
                let w = final(self).spec_workers().last();
                w.alive && !w.stop_requested && w.uid == uid
            }),
            forall|i: int|
                0 <= i < old(self).spec_workers().len()
                    ==> final(self).spec_workers()[i] == old(self).spec_workers()[i],
    {
        self.register_worker()
    }

    /// Whether any worker is still running.
    pub fn is_any_worker_alive(&self) -> (r: bool)
        ensures
            r == exists|i: int|
                0 <= i < self.spec_workers().len() && (#[trigger] self.spec_workers()[i]).alive,
    {
        let n = self.workers.len();
        let mut i: usize = 0;
        while i < n
            invariant
                i <= n,
                n == self.workers@.len(),
                forall|k: int| 0 <= k < i ==> !(#[trigger] self.workers@[k]).alive,
            decreases n - i,
        {
            if self.workers[i].alive {
                return true;
            }
            i = i + 1;
        }
        false
    }

    /// Record that the worker at position `i` died.
    pub fn mark_worker_dead(&mut self, i: usize)
        requires
            i < old(self).spec_workers().len(),
        ensures
            final(self).wf() == old(self).wf(),
            final(self).spec_restart_limit() == old(self).spec_restart_limit(),
            final(self).spec_restarted() == old(self).spec_restarted(),
            final(self).spec_workers() == old(self).spec_workers().update(
                i as int,
                WorkerProxy { alive: false, ..old(self).spec_workers()[i as int] },
            ),
            forall|n: nat| final(self).next_uid_headroom(n) == old(self).next_uid_headroom(n),
    {
        let w = self.workers[i];
        self.workers[i] = WorkerProxy { alive: false, ..w };
    }

    /// Publish a worker's statistics.
    pub fn record_worker_stats(&mut self, i: usize, stats: FuzzerEventCounter)
        requires
            i < old(self).spec_workers().len(),
        ensures
            final(self).wf() == old(self).wf(),
            final(self).spec_restarted() == old(self).spec_restarted(),
            final(self).spec_workers() == old(self).spec_workers().update(
                i as int,
                WorkerProxy { stats: stats, ..old(self).spec_workers()[i as int] },
            ),
    {
        let w = self.workers[i];
        self.workers[i] = WorkerProxy { stats, ..w };
    }

    /// Ask every worker to stop and sum their statistics (saturating).
    /// Joining the threads and printing the summary is the embedding
    /// program's step.
    pub fn shutdown(&mut self) -> (total: FuzzerEventCounter)
        ensures
            final(self).wf() == old(self).wf(),
            final(self).spec_restarted() == old(self).spec_restarted(),
            final(self).spec_workers().len() == old(self).spec_workers().len(),
            forall|i: int|
                0 <= i < old(self).spec_workers().len()
                    ==> (#[trigger] final(self).spec_workers()[i]) == (WorkerProxy {
                    stop_requested: true,
                    ..old(self).spec_workers()[i]
                }),
            total.execs == sum_execs_sat(final(self).spec_workers()),
            total.new_edges == sum_edges_sat(final(self).spec_workers()),
            total.new_hits == sum_hits_sat(final(self).spec_workers()),
            total.crashes == sum_crashes_sat(final(self).spec_workers()),
            total.init_ts_millis is None,
    {
        let ghost w0 = self.workers@;
        let n = self.workers.len();
        let mut total = FuzzerEventCounter::new();
        let mut i: usize = 0;
        while i < n
            invariant
                i <= n,
                n == self.workers@.len(),
                n == w0.len(),
                self.wf() == old(self).wf(),
                self.restarted_worker@ == old(self).spec_restarted(),
                w0 == old(self).spec_workers(),
                forall|k: int|
                    0 <= k < i ==> (#[trigger] self.workers@[k]) == (WorkerProxy {
                        stop_requested: true,
                        ..w0[k]
                    }),
                forall|k: int| i <= k < n ==> (#[trigger] self.workers@[k]) == w0[k],
                total.execs == sum_execs_sat(self.workers@.take(i as int)),
                total.new_edges == sum_edges_sat(self.workers@.take(i as int)),
                total.new_hits == sum_hits_sat(self.workers@.take(i as int)),
                total.crashes == sum_crashes_sat(self.workers@.take(i as int)),
                total.init_ts_millis is None,
            decreases n - i,
        {
            let w = self.workers[i];
            let ghost wprev = self.workers@;
            self.workers[i] = WorkerProxy { stop_requested: true, ..w };
            total.execs = sat_add_exec(total.execs, w.stats.execs);
            total.new_edges = sat_add_exec(total.new_edges, w.stats.new_edges);
            total.new_hits = sat_add_exec(total.new_hits, w.stats.new_hits);
            total.crashes = sat_add_exec(total.crashes, w.stats.crashes);
            i = i + 1;
            proof {
                assert(self.workers@.take(i as int).drop_last() =~= wprev.take(i - 1));
                assert(wprev.take(i - 1) =~= self.workers@.take(i - 1));
                assert(self.workers@.take(i as int).last() == self.workers@[i - 1]);
                assert(self.workers@[i - 1].stats == w.stats);
            }
        }
        proof {
            assert(self.workers@.take(n as int) =~= self.workers@);
        }
        total
    }

    /// Serialise the queue for the periodic on-disk dump; the embedding
    /// program writes the bytes under the work directory's queue path.
    pub fn dump(&self) -> (r: Vec<u8>)
        requires
            self.wf(),
        ensures
            r@ == crate::queue::encode_queue(self.queue_spec().dump_views()),
    {
        self.queue.dump()
    }

    /// Replace crashed workers, up to the campaign-wide restart bound.
    ///
    /// Every dead worker not yet in the restarted registry is a
    /// candidate.  Candidates are replaced one by one while the registry
    /// is below the bound; once the bound is reached, all remaining
    /// candidates enter the registry unreplaced, so no later call
    /// restarts them either.
    pub fn restart_crashed_worker(&mut self)
        requires
            old(self).next_uid_headroom(old(self).spec_workers().len() as nat),
        ensures
            final(self).wf() == old(self).wf(),
            final(self).spec_restart_limit() == old(self).spec_restart_limit(),
            // the registry only grows, and it swallows every dead worker
            forall|x: WorkerUid|
                old(self).spec_restarted().contains(x)
                    ==> final(self).spec_restarted().contains(x),
            forall|i: int|
                0 <= i < old(self).spec_workers().len()
                    && !(#[trigger] old(self).spec_workers()[i]).alive
                    ==> final(self).spec_restarted().contains(old(self).spec_workers()[i].uid),
            // no replacements once the registry is at the bound, and
            // never more than the bound leaves room for
            old(self).spec_restarted().len() >= old(self).spec_restart_limit()
                ==> final(self).spec_workers().len() == old(self).spec_workers().len(),
            final(self).spec_workers().len() - old(self).spec_workers().len()
                + old(self).spec_restarted().len() <= old(self).spec_restart_limit()
                || final(self).spec_workers().len() == old(self).spec_workers().len(),
            // replacements are exact: one per candidate, as far as the
            // bound leaves room
            old(self).spec_restarted().len() < old(self).spec_restart_limit() ==> ({
                let cand = count_dead_unregistered(
                    old(self).spec_workers(),
                    old(self).spec_restarted(),
                );
                let room = old(self).spec_restart_limit() - old(self).spec_restarted().len();
                final(self).spec_workers().len() == old(self).spec_workers().len() + (if cand
                    <= room {
                    cand
                } else {
                    room
                })
            }),
            // existing proxies are untouched; every replacement is live
            forall|k: int|
                0 <= k < old(self).spec_workers().len() ==> final(self).spec_workers()[k]
                    == old(self).spec_workers()[k],
            forall|k: int|
                old(self).spec_workers().len() <= k < final(self).spec_workers().len()
                    ==> (#[trigger] final(self).spec_workers()[k]).alive
                    && !final(self).spec_workers()[k].stop_requested,
    {
        let n = self.workers.len();
        let mut crashed: Vec<WorkerUid> = Vec::new();
        let mut i: usize = 0;
        while i < n
            invariant
                i <= n,
                n == self.workers@.len(),
                crashed@.len() <= i,
                self.workers@ == old(self).spec_workers(),
                self.restarted_worker@ == old(self).spec_restarted(),
                crashed@.len() == count_dead_unregistered(
                    self.workers@.take(i as int),
                    self.restarted_worker@,
                ),
                forall|k: int|
                    0 <= k < i && !(#[trigger] self.workers@[k]).alive
                        ==> self.restarted_worker@.contains(self.workers@[k].uid)
                        || crashed@.contains(self.workers@[k].uid),
            decreases n - i,
        {
            let uid = self.workers[i].uid;
            let dead = !self.workers[i].alive;
            if dead && !contains_uid(&self.restarted_worker, uid) {
                let ghost cprev = crashed@;
                crashed.push(uid);
                proof {
                    assert(crashed@.last() == uid);
                    assert forall|x: WorkerUid| cprev.contains(x) implies crashed@.contains(
                        x,
                    ) by {
                        let w = choose|w: int| 0 <= w < cprev.len() && cprev[w] == x;
                        assert(crashed@[w] == x);
                    }
                }
            }
            i = i + 1;
            proof {
                assert(self.workers@.take(i as int).drop_last() =~= self.workers@.take(i - 1));
                assert(self.workers@.take(i as int).last() == self.workers@[i - 1]);
            }
        }
        proof {
            assert(self.workers@.take(n as int) =~= self.workers@);
        }
        let m = crashed.len();
        let ghost w0 = self.workers@;
        let ghost r0 = self.restarted_worker@;
        let limit = self.restart_limit;
        let mut j: usize = 0;
        while j < m
            invariant
                j <= m,
                m == crashed@.len(),
                m <= w0.len(),
                self.wf() == old(self).wf(),
                self.restart_limit == old(self).spec_restart_limit(),
                limit == self.restart_limit,
                w0 == old(self).spec_workers(),
                r0 == old(self).spec_restarted(),
                self.next_uid_headroom((m - j) as nat),
                m == count_dead_unregistered(w0, r0),
                self.workers@.len() == w0.len() + (self.restarted_worker@.len() - r0.len()),
                self.restarted_worker@.len() - r0.len() == j,
                forall|k: int| 0 <= k < w0.len() ==> self.workers@[k] == w0[k],
                forall|k: int|
                    w0.len() <= k < self.workers@.len() ==> (#[trigger] self.workers@[k]).alive
                        && !self.workers@[k].stop_requested,
                r0.len() < limit ==> self.restarted_worker@.len() <= limit,
                r0.len() >= limit ==> j == 0,
                forall|x: WorkerUid|
                    #[trigger] r0.contains(x) ==> self.restarted_worker@.contains(x),
                forall|k: int|
                    0 <= k < j ==> self.restarted_worker@.contains(#[trigger] crashed@[k]),
                forall|k: int|
                    0 <= k < w0.len() && !(#[trigger] w0[k]).alive ==> r0.contains(
                        w0[k].uid,
                    ) || crashed@.contains(w0[k].uid),
            decreases m - j,
        {
            if self.restarted_worker.len() >= limit {
                // The bound is reached: mark every remaining candidate
                // so no later call tries to restart it, and stop.
                let ghost rpre = self.restarted_worker@;
                let ghost wnow = self.workers@;
                proof {
                    assert(forall|x: WorkerUid| #[trigger] r0.contains(x) ==> rpre.contains(x));
                }
                let mut t: usize = j;
                while t < m
                    invariant
                        j <= t <= m,
                        m == crashed@.len(),
                        self.wf() == old(self).wf(),
                        self.restart_limit == old(self).spec_restart_limit(),
                        self.workers@ == wnow,
                        forall|x: WorkerUid|
                            #[trigger] rpre.contains(x)
                                ==> self.restarted_worker@.contains(x),
                        forall|k: int|
                            0 <= k < t ==> self.restarted_worker@.contains(
                                #[trigger] crashed@[k],
                            ),
                    decreases m - t,
                {
                    let ghost rprev = self.restarted_worker@;
                    self.restarted_worker.push(crashed[t]);
                    proof {
                        assert(self.restarted_worker@ == rprev.push(crashed@[t as int]));
                        assert forall|x: WorkerUid| #[trigger] rpre.contains(x) implies
                            self.restarted_worker@.contains(x) by {
                            lemma_push_contains(rprev, crashed@[t as int], x);
                        }
                        assert forall|k: int| 0 <= k < t + 1 implies
                            self.restarted_worker@.contains(#[trigger] crashed@[k]) by {
                            lemma_push_contains(rprev, crashed@[t as int], crashed@[k]);
                        }
                    }
                    t = t + 1;
                }
                proof {
                    assert forall|k: int|
                        0 <= k < w0.len() && !(#[trigger] w0[k]).alive implies
                        self.restarted_worker@.contains(w0[k].uid) by {
                        if crashed@.contains(w0[k].uid) {
                            let w = choose|w: int|
                                0 <= w < crashed@.len() && crashed@[w] == w0[k].uid;
                            assert(self.restarted_worker@.contains(crashed@[w]));
                        } else {
                            assert(r0.contains(w0[k].uid));
                            assert(rpre.contains(w0[k].uid));
                        }
                    }
                }
                return ;
            }
            let ghost rprev = self.restarted_worker@;
            self.restarted_worker.push(crashed[j]);
            proof {
                assert(self.restarted_worker@ == rprev.push(crashed@[j as int]));
                assert forall|x: WorkerUid| #[trigger] r0.contains(x) implies
                    self.restarted_worker@.contains(x) by {
                    lemma_push_contains(rprev, crashed@[j as int], x);
                }
                assert forall|k: int| 0 <= k < j + 1 implies self.restarted_worker@.contains(
                    #[trigger] crashed@[k],
                ) by {
                    lemma_push_contains(rprev, crashed@[j as int], crashed@[k]);
                }
            }
            let ghost wprev = self.workers@;
            self.register_worker();
            proof {
                assert forall|k: int| 0 <= k < w0.len() implies self.workers@[k] == w0[k] by {
                    assert(self.workers@[k] == wprev[k]);
                }
                assert forall|k: int|
                    w0.len() <= k < self.workers@.len() implies (
                #[trigger] self.workers@[k]).alive && !self.workers@[k].stop_requested by {
                    if k < wprev.len() {
                        assert(self.workers@[k] == wprev[k]);
                    }
                }
            }
            j = j + 1;
        }
        proof {
            assert forall|k: int|
                0 <= k < w0.len() && !(#[trigger] w0[k]).alive implies
                self.restarted_worker@.contains(w0[k].uid) by {
                if crashed@.contains(w0[k].uid) {
                    let w = choose|w: int| 0 <= w < crashed@.len() && crashed@[w] == w0[k].uid;
                    assert(self.restarted_worker@.contains(crashed@[w]));
                } else {
                    assert(r0.contains(w0[k].uid));
                }
            }
        }
    }
}

} // verus!
