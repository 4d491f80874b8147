//! Per-worker logic: the worker lifecycle state machine, the rolling
//! execution-time average, the two-level virgin-map check, queue-entry
//! admission, and the artifact filenames for interesting and crashing
//! inputs.
//!
//! Executing the Source and Sink is the agents' business; everything here
//! computes on the values that come back.

use vstd::prelude::*;
use vstd::string::StrSliceExecFns;
use vstd::string::StringExecFns;

use crate::cerebrum::Cerebrum;
use crate::queue::{QeDump, Queue};
use crate::sink_bitmap::{clear_virgin, status_of, Bitmap, BitmapStatus};
use crate::AVG_EXECUTION_TIME_STABILIZATION_VALUE;

use sha2::Digest;

verus! {

/// What the SHA-256 function returns for a byte sequence.
pub uninterp spec fn sha256_of(data: Seq<u8>) -> Seq<u8>;

/// Relies on sha2::Sha256 (FIPS 180-4): the digest is a function of the
/// input bytes alone and is 32 bytes long.
#[verifier::external_body]
fn sha256_digest(data: &[u8]) -> (r: Vec<u8>)
    ensures
        r@ == sha256_of(data@),
        r@.len() == 32,
{
    sha2::Sha256::digest(data).to_vec()
}

/// The lowercase hexadecimal digit for a value below 16.
pub open spec fn hex_digit(d: int) -> char {
    if d == 0 {
        '0'
    } else if d == 1 {
        '1'
    } else if d == 2 {
        '2'
    } else if d == 3 {
        '3'
    } else if d == 4 {
        '4'
    } else if d == 5 {
        '5'
    } else if d == 6 {
        '6'
    } else if d == 7 {
        '7'
    } else if d == 8 {
        '8'
    } else if d == 9 {
        '9'
    } else if d == 10 {
        'a'
    } else if d == 11 {
        'b'
    } else if d == 12 {
        'c'
    } else if d == 13 {
        'd'
    } else if d == 14 {
        'e'
    } else {
        'f'
    }
}

/// Two lowercase digits per byte, high nibble first.
pub open spec fn hex_of(data: Seq<u8>) -> Seq<char>
    decreases data.len(),
{
    if data.len() == 0 {
        Seq::<char>::empty()
    } else {
        hex_of(data.drop_last()) + seq![
            hex_digit(data.last() as int / 16),
            hex_digit(data.last() as int % 16),
        ]
    }
}

/// A hex rendering has two characters per byte.
pub proof fn lemma_hex_len(data: Seq<u8>)
    ensures
        hex_of(data).len() == 2 * data.len(),
    decreases data.len(),
{
    if data.len() > 0 {
        lemma_hex_len(data.drop_last());
    }
}

/// Relies on hex::encode: two lowercase digits per byte, high nibble
/// first.
#[verifier::external_body]
fn hex_encode(data: &[u8]) -> (r: String)
    ensures
        r@ == hex_of(data@),
{
    hex::encode(data)
}

/// The lowercase hex form of the SHA-256 digest of `sink_input`:
/// always 64 digits.
pub fn get_slice_digest(sink_input: &[u8]) -> (r: String)
    ensures
        r@ == hex_of(sha256_of(sink_input@)),
        r@.len() == 64,
{
    let digest = sha256_digest(sink_input);
    proof {
        lemma_hex_len(digest@);
    }
    hex_encode(digest.as_slice())
}

/// The decimal digit for a value below 10.
pub open spec fn dec_digit(d: int) -> char {
    if d == 0 {
        '0'
    } else if d == 1 {
        '1'
    } else if d == 2 {
        '2'
    } else if d == 3 {
        '3'
    } else if d == 4 {
        '4'
    } else if d == 5 {
        '5'
    } else if d == 6 {
        '6'
    } else if d == 7 {
        '7'
    } else if d == 8 {
        '8'
    } else {
        '9'
    }
}

/// The usual decimal rendering of a number, without leading zeroes.
pub open spec fn dec_str_of(n: nat) -> Seq<char>
    decreases n,
{
    if n < 10 {
        seq![dec_digit(n as int)]
    } else {
        dec_str_of(n / 10).push(dec_digit((n % 10) as int))
    }
}

/// The one-character string for a decimal digit.
fn digit_str(d: u64) -> (r: &'static str)
    requires
        d < 10,
    ensures
        r@ == seq![dec_digit(d as int)],
{
    proof {
        reveal_strlit("0");
        reveal_strlit("1");
        reveal_strlit("2");
        reveal_strlit("3");
        reveal_strlit("4");
        reveal_strlit("5");
        reveal_strlit("6");
        reveal_strlit("7");
        reveal_strlit("8");
        reveal_strlit("9");
    }
    let r = if d == 0 {
        "0"
    } else if d == 1 {
        "1"
    } else if d == 2 {
        "2"
    } else if d == 3 {
        "3"
    } else if d == 4 {
        "4"
    } else if d == 5 {
        "5"
    } else if d == 6 {
        "6"
    } else if d == 7 {
        "7"
    } else if d == 8 {
        "8"
    } else {
        "9"
    };
    proof {
        assert(r@ =~= seq![dec_digit(d as int)]);
    }
    r
}

/// Render a number in decimal.
pub fn u64_to_decimal(n: u64) -> (r: String)
    ensures
        r@ == dec_str_of(n as nat),
    decreases n,
{
    let d = n % 10;
    if n < 10 {
        let r = digit_str(d).to_owned();
        proof {
            assert(r@ =~= dec_str_of(n as nat));
        }
        r
    } else {
        let mut s = u64_to_decimal(n / 10);
        s.append(digit_str(d));
        proof {
            assert(s@ =~= dec_str_of(n as nat));
        }
        s
    }
}

/// Name of an interesting input: `ts:{ms}+hash:{sha256 hex}`.
pub open spec fn interesting_filename_of(ms: nat, input: Seq<u8>) -> Seq<char> {
    "ts:"@ + dec_str_of(ms) + "+hash:"@ + hex_of(sha256_of(input))
}

/// Prefix of a crashing input's artifacts:
/// `ts:{ms}+hash:{sha256 hex}+queue_entry:{id or "none"}+sig:{signal}`.
pub open spec fn crashing_prefix_of(
    ms: nat,
    input: Seq<u8>,
    qe_id: Option<u64>,
    signal: Seq<char>,
) -> Seq<char> {
    "ts:"@ + dec_str_of(ms) + "+hash:"@ + hex_of(sha256_of(input)) + "+queue_entry:"@ + (match qe_id {
        Some(id) => dec_str_of(id as nat),
        None => "none"@,
    }) + "+sig:"@ + signal
}

/// The filename under which an interesting Sink input is persisted,
/// from the milliseconds since worker initialisation and the input bytes.
pub fn interesting_input_filename(ms_since_init: u64, sink_input: &[u8]) -> (r: String)
    ensures
        r@ == interesting_filename_of(ms_since_init as nat, sink_input@),
{
    let mut s = "ts:".to_owned();
    let ts = u64_to_decimal(ms_since_init);
    s.append(ts.as_str());
    s.append("+hash:");
    let h = get_slice_digest(sink_input);
    s.append(h.as_str());
    proof {
        assert(s@ =~= interesting_filename_of(ms_since_init as nat, sink_input@));
    }
    s
}

/// The artifact prefix under which a crashing Sink input, and any ASAN
/// report beside it, is persisted.
pub fn crashing_input_prefix(
    ms_since_init: u64,
    sink_input: &[u8],
    qe_id: Option<u64>,
    signal_name: &str,
) -> (r: String)
    ensures
        r@ == crashing_prefix_of(ms_since_init as nat, sink_input@, qe_id, signal_name@),
{
    let mut s = "ts:".to_owned();
    let ts = u64_to_decimal(ms_since_init);
    s.append(ts.as_str());
    s.append("+hash:");
    let h = get_slice_digest(sink_input);
    s.append(h.as_str());
    s.append("+queue_entry:");
    match qe_id {
        Some(id) => {
            let ds = u64_to_decimal(id);
            s.append(ds.as_str());
        },
        None => {
            s.append("none");
        },
    }
    s.append("+sig:");
    s.append(signal_name);
    proof {
        assert(s@ =~= crashing_prefix_of(
            ms_since_init as nat,
            sink_input@,
            qe_id,
            signal_name@,
        ));
    }
    s
}

/// The four fuzzing phases a worker cycles through.
#[derive(Clone, Copy, Debug, PartialEq, Eq, Structural, Hash)]
pub enum FuzzingPhase {
    Discovery,
    Mutate,
    Add,
    Combine,
}

/// Lifecycle states of a worker.
#[derive(Clone, Copy, Debug, PartialEq, Eq, Structural)]
pub enum WorkerState {
    /// Thread created, not yet at the init barrier.
    Spawned,
    /// Past the init barrier, setting up agents.
    Initializing,
    /// Between phases, ready to pick one.
    Ready,
    /// Running one phase.
    InPhase(FuzzingPhase),
    /// Stop was requested; winding down.
    Stopping,
    /// Exited cleanly.
    Terminated,
    /// Initialisation failed; the global failure flag is set.
    Failed,
    /// Died in a phase; the campaign may restart a replacement.
    Crashed,
}

/// Events that drive the worker lifecycle.
#[derive(Clone, Copy, Debug, PartialEq, Eq, Structural)]
pub enum WorkerEvent {
    /// All workers rendezvoused at the init barrier.
    PassedInitBarrier,
    /// Agents came up.
    InitSucceeded,
    /// Agents failed to come up.
    InitFailed,
    /// A phase was picked by weighted choice.
    PhasePicked(FuzzingPhase),
    /// The running phase returned normally.
    PhaseDone,
    /// The stop flag was observed.
    StopRequested,
    /// The wind-down finished.
    Stopped,
    /// A fatal error escaped a phase.
    Fatal,
}

/// The worker lifecycle: which state an event leads to.  An event that
/// has no edge from the current state leaves the state alone.
pub open spec fn worker_transition(s: WorkerState, e: WorkerEvent) -> WorkerState {
    match (s, e) {
        (WorkerState::Spawned, WorkerEvent::PassedInitBarrier) => WorkerState::Initializing,
        (WorkerState::Initializing, WorkerEvent::InitSucceeded) => WorkerState::Ready,
        (WorkerState::Initializing, WorkerEvent::InitFailed) => WorkerState::Failed,
        (WorkerState::Ready, WorkerEvent::PhasePicked(p)) => WorkerState::InPhase(p),
        (WorkerState::InPhase(_), WorkerEvent::PhaseDone) => WorkerState::Ready,
        (WorkerState::Ready, WorkerEvent::StopRequested) => WorkerState::Stopping,
        (WorkerState::Stopping, WorkerEvent::Stopped) => WorkerState::Terminated,
        (WorkerState::InPhase(_), WorkerEvent::Fatal) => WorkerState::Crashed,
        _ => s,
    }
}

/// A crashed or failed worker never leaves that state, and the only way
/// into a phase is from `Ready`.
pub proof fn lemma_worker_lifecycle(s: WorkerState, e: WorkerEvent)
    ensures
        s == WorkerState::Crashed ==> worker_transition(s, e) == s,
        s == WorkerState::Failed ==> worker_transition(s, e) == s,
        s == WorkerState::Terminated ==> worker_transition(s, e) == s,
        (worker_transition(s, e) matches WorkerState::InPhase(_) && worker_transition(s, e) != s)
            ==> s == WorkerState::Ready,
{
}

/// The per-thread fuzzing worker: its lifecycle state, which phases it
/// has finished for good, and the rolling execution-time average.
#[derive(Debug)]
pub struct FuzzingWorker {
    state: WorkerState,
    discovery_done: bool,
    mutate_done: bool,
    add_done: bool,
    combine_done: bool,
    avg_execution_duration_millis: u64,
}

impl FuzzingWorker {
    /// The lifecycle state.
    pub closed spec fn spec_state(&self) -> WorkerState {
        self.state
    }

    /// Whether the worker has finished `phase` for good (or it was
    /// disabled).
    pub closed spec fn spec_phase_done(&self, phase: FuzzingPhase) -> bool {
        match phase {
            FuzzingPhase::Discovery => self.discovery_done,
            FuzzingPhase::Mutate => self.mutate_done,
            FuzzingPhase::Add => self.add_done,
            FuzzingPhase::Combine => self.combine_done,
        }
    }

    /// The rolling average of observed execution times, in milliseconds.
    pub closed spec fn spec_avg_execution_millis(&self) -> u64 {
        self.avg_execution_duration_millis
    }

    /// A fresh worker in the `Spawned` state.
    pub fn new() -> (r: FuzzingWorker)
        ensures
            r.spec_state() == WorkerState::Spawned,
            forall|p: FuzzingPhase| !r.spec_phase_done(p),
            r.spec_avg_execution_millis() == 0,
    {
        FuzzingWorker {
            state: WorkerState::Spawned,
            discovery_done: false,
            mutate_done: false,
            add_done: false,
            combine_done: false,
            avg_execution_duration_millis: 0,
        }
    }

    /// Drive the lifecycle by one event.
    pub fn step(&mut self, event: WorkerEvent)
        ensures
            final(self).spec_state() == worker_transition(old(self).spec_state(), event),
            forall|p: FuzzingPhase|
                final(self).spec_phase_done(p) == old(self).spec_phase_done(p),
            final(self).spec_avg_execution_millis() == old(self).spec_avg_execution_millis(),
    {
        let next = match (self.state, event) {
            (WorkerState::Spawned, WorkerEvent::PassedInitBarrier) => WorkerState::Initializing,
            (WorkerState::Initializing, WorkerEvent::InitSucceeded) => WorkerState::Ready,
            (WorkerState::Initializing, WorkerEvent::InitFailed) => WorkerState::Failed,
            (WorkerState::Ready, WorkerEvent::PhasePicked(p)) => WorkerState::InPhase(p),
            (WorkerState::InPhase(_), WorkerEvent::PhaseDone) => WorkerState::Ready,
            (WorkerState::Ready, WorkerEvent::StopRequested) => WorkerState::Stopping,
            (WorkerState::Stopping, WorkerEvent::Stopped) => WorkerState::Terminated,
            (WorkerState::InPhase(_), WorkerEvent::Fatal) => WorkerState::Crashed,
            (s, _) => s,
        };
        self.state = next;
    }

    /// The lifecycle state.
    pub fn state(&self) -> (r: WorkerState)
        ensures
            r == self.spec_state(),
    {
        self.state
    }

    /// The rolling execution-time average, in milliseconds.
    pub fn avg_execution_millis(&self) -> (r: u64)
        ensures
            r == self.spec_avg_execution_millis(),
    {
        self.avg_execution_duration_millis
    }

    /// Whether the worker should skip `phase` because it is finished or
    /// was disabled.
    pub fn is_phase_done(&self, phase: FuzzingPhase) -> (r: bool)
        ensures
            r == self.spec_phase_done(phase),
    {
        match phase {
            FuzzingPhase::Discovery => self.discovery_done,
            FuzzingPhase::Mutate => self.mutate_done,
            FuzzingPhase::Add => self.add_done,
            FuzzingPhase::Combine => self.combine_done,
        }
    }

    /// Mark `phase` finished for good; Discovery's termination is such a
    /// one-way edge.
    pub fn set_phase_done(&mut self, phase: FuzzingPhase)
        ensures
            final(self).spec_phase_done(phase),
            forall|p: FuzzingPhase|
                p != phase ==> final(self).spec_phase_done(p) == old(self).spec_phase_done(p),
            final(self).spec_state() == old(self).spec_state(),
            final(self).spec_avg_execution_millis() == old(self).spec_avg_execution_millis(),
    {
        match phase {
            FuzzingPhase::Discovery => {
                self.discovery_done = true;
            },
            FuzzingPhase::Mutate => {
                self.mutate_done = true;
            },
            FuzzingPhase::Add => {
                self.add_done = true;
            },
            FuzzingPhase::Combine => {
                self.combine_done = true;
            },
        }
    }

    /// Fold `n` observations averaging `avg_execution_duration_millis`
    /// into the rolling mean: `avg := (avg·K + observed·n) / (n + K)` with
    /// the stabilisation constant `K`, so that bursts cannot destabilise
    /// the mean.
    pub fn report_execution_duration(&mut self, avg_execution_duration_millis: u64, n: u32)
        requires
            old(self).spec_avg_execution_millis() * AVG_EXECUTION_TIME_STABILIZATION_VALUE
                + avg_execution_duration_millis * n <= u64::MAX,
            n + AVG_EXECUTION_TIME_STABILIZATION_VALUE <= u32::MAX,
        ensures
            final(self).spec_avg_execution_millis() == (old(self).spec_avg_execution_millis()
                * AVG_EXECUTION_TIME_STABILIZATION_VALUE + avg_execution_duration_millis * n)
                as u64 / ((n + AVG_EXECUTION_TIME_STABILIZATION_VALUE) as u64),
            final(self).spec_state() == old(self).spec_state(),
            forall|p: FuzzingPhase|
                final(self).spec_phase_done(p) == old(self).spec_phase_done(p),
    {
        let k = AVG_EXECUTION_TIME_STABILIZATION_VALUE as u64;
        let weighted = self.avg_execution_duration_millis * k + avg_execution_duration_millis * (
        n as u64);
        self.avg_execution_duration_millis = weighted / (n as u64 + k);
    }

    /// Check `coverage_map` against the worker's local virgin map first;
    /// only on a local hit lock and consult the global map, clear the new
    /// bits from it, and re-sync the local map from the global one.  The
    /// returned status is then the global one, so an entry is admitted
    /// exactly when the global virgin map transitioned.
    pub fn check_virgin_maps(
        coverage_map: &Bitmap,
        local_virgin: &mut Bitmap,
        global_virgin: &mut Bitmap,
    ) -> (st: BitmapStatus)
        requires
            old(local_virgin)@.len() == coverage_map@.len(),
            old(global_virgin)@.len() == coverage_map@.len(),
        ensures
            (final(local_virgin)@, final(global_virgin)@, st) == check_virgin_step(
                coverage_map@,
                old(local_virgin)@,
                old(global_virgin)@,
            ),
    {
        let has_new_bits = coverage_map.has_new_bit(local_virgin);
        match has_new_bits {
            BitmapStatus::NewEdge | BitmapStatus::NewHit => {
                let st = coverage_map.has_new_bit(global_virgin);
                local_virgin.copy_from(global_virgin);
                st
            },
            BitmapStatus::NoNew => {
                proof {
                    crate::sink_bitmap::lemma_virgin_transition_iff_new(
                        coverage_map@,
                        old(local_virgin)@,
                    );
                    assert(clear_virgin(coverage_map@, old(local_virgin)@) =~= old(local_virgin)@);
                }
                BitmapStatus::NoNew
            },
        }
    }
}

/// What `check_virgin_maps` does to the two virgin maps: nothing on a
/// local miss; on a local hit the global map is cleared and the local map
/// becomes a copy of it, and the status is the global one.
pub open spec fn check_virgin_step(cov: Seq<u8>, local: Seq<u8>, global: Seq<u8>) -> (
    Seq<u8>,
    Seq<u8>,
    BitmapStatus,
) {
    if status_of(cov, local) == BitmapStatus::NoNew {
        (local, global, BitmapStatus::NoNew)
    } else {
        (clear_virgin(cov, global), clear_virgin(cov, global), status_of(cov, global))
    }
}

/// A new queue entry is admitted exactly when the global virgin map
/// transitions: the check reports new coverage iff it changed the global
/// map on this very execution.
pub proof fn lemma_admission_iff_global_transition(cov: Seq<u8>, local: Seq<u8>, global: Seq<u8>)
    requires
        cov.len() == local.len(),
        cov.len() == global.len(),
    ensures
        (check_virgin_step(cov, local, global).2 != BitmapStatus::NoNew) <==> check_virgin_step(
            cov,
            local,
            global,
        ).1 != global,
{
    crate::sink_bitmap::lemma_virgin_transition_iff_new(cov, global);
    if status_of(cov, local) != BitmapStatus::NoNew {
        if clear_virgin(cov, global) =~= global {
            assert(check_virgin_step(cov, local, global).1 == global);
        }
    }
}

/// Restore the mutation-cache state stored in a queue entry: load the
/// serialised snapshot, or leave the cache empty when the entry carries
/// none.  Replaying the entry's input with this cache installed
/// reproduces the behaviour observed when the entry was created.
pub fn load_queue_entry_mutations(
    mc: &mut crate::mutation_cache::MutationCache,
    entry: &crate::queue::QueueEntry,
) -> (r: Result<(), crate::mutation_cache::McLoadError>)
    requires
        old(mc).wf(),
    ensures
        final(mc).wf(),
        match entry.dump_view().mutations {
            Some(bytes) => {
                &&& (r is Ok) <==> (crate::mutation_cache::decode_mc(bytes) matches Some(s)
                    && crate::mutation_cache::unique_ids(s))
                &&& (r is Ok) ==> final(mc)@ == crate::mutation_cache::decode_mc(
                    bytes,
                ).unwrap()
                &&& (r is Err) ==> final(mc)@ == old(mc)@
            },
            None => r is Ok && final(mc)@ == Seq::<crate::mutation_cache::MceView>::empty(),
        },
{
    match entry.mutations() {
        Some(data) => mc.load_bytes(data),
        None => {
            mc.clear();
            Ok(())
        },
    }
}

/// Book-keeping after one Sink execution: on new coverage the exact Sink
/// input and the current mutation-cache snapshot become a new queue entry
/// and the mutated site is marked as yielding; on `NoNew` nothing
/// changes.  Returns the new entry's ID when one was admitted.
pub fn process_execution_result(
    queue: &mut Queue,
    cerebrum: &mut Cerebrum,
    status: BitmapStatus,
    sink_input: Vec<u8>,
    mc_snapshot: Option<Vec<u8>>,
    generation: u32,
    target_id: u64,
) -> (admitted: Option<u64>)
    requires
        old(queue).wf(),
        old(queue).spec_next_id() < u64::MAX,
        old(cerebrum).wf(),
        sink_input@.len() <= u32::MAX,
        match mc_snapshot {
            Some(m) => m@.len() <= u32::MAX,
            None => true,
        },
    ensures
        final(queue).wf(),
        final(cerebrum).wf(),
        (admitted is Some) <==> status != BitmapStatus::NoNew,
        status == BitmapStatus::NoNew ==> final(queue).dump_views() == old(queue).dump_views()
            && final(cerebrum).spec_unfuzzed() == old(cerebrum).spec_unfuzzed() && final(cerebrum).spec_yielded() == old(cerebrum).spec_yielded(),
        status != BitmapStatus::NoNew ==> {
            &&& admitted == Some(old(queue).spec_next_id())
            &&& final(queue).dump_views() == old(queue).dump_views().push(
                QeDump {
                    id: old(queue).spec_next_id(),
                    generation: generation,
                    input: sink_input@,
                    mutations: match mc_snapshot {
                        Some(m) => Some(m@),
                        None => None,
                    },
                },
            )
            &&& forall|x: u64|
                final(cerebrum).spec_yielded().contains(x) <==> old(cerebrum).spec_yielded().contains(x) || x == target_id
            &&& forall|x: u64|
                final(cerebrum).spec_unfuzzed().contains(x) <==> old(cerebrum).spec_unfuzzed().contains(x) && x != target_id
        },
{
    match status {
        BitmapStatus::NoNew => None,
        _ => {
            let id = queue.push(sink_input, mc_snapshot, generation);
            cerebrum.mark_yielded(target_id);
            Some(id)
        },
    }
}

} // verus!
