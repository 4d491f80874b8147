use scheduler::campaign::{FuzzerEventCounter, FuzzingCampaign};
use scheduler::cerebrum::Cerebrum;
use scheduler::config::{
    Config, GeneralConfig, InputChannel, OutputChannel, PhasesConfig, SinkConfig, SourceConfig,
    TimeSpan, VanillaConfig,
};
use scheduler::id_set::IdSet;
use scheduler::mutation_cache::{MutationCache, MutationCacheEntry, MutationSiteID, PatchPoint};
use scheduler::queue::Queue;
use scheduler::sink_bitmap::{Bitmap, BitmapStatus};
use scheduler::worker::{
    crashing_input_prefix, get_slice_digest, interesting_input_filename,
    load_queue_entry_mutations, process_execution_result, u64_to_decimal, FuzzingPhase,
    FuzzingWorker, WorkerEvent, WorkerState,
};

fn test_config() -> Config {
    Config {
        general: GeneralConfig {
            input_dir: String::from("/in"),
            work_dir: String::from("/work"),
            tracing_timeout: TimeSpan { millis: 300_000 },
            jail_uid: None,
            jail_gid: None,
            jail_drop_to_sudo_callee: true,
        },
        source: SourceConfig {
            env: vec![],
            bin_path: String::from("/bin/source"),
            arguments: vec![],
            input_type: InputChannel::Stdin,
            output_type: OutputChannel::File,
            output_suffix: None,
            log_stdout: false,
            log_stderr: false,
            is_server: None,
            server_port: None,
            server_ready_on: None,
            allowed_patch_points: None,
            max_patch_points: None,
            blocked_patchpoint_instructions: None,
            working_dir: None,
        },
        phases: PhasesConfig {
            generation_ceiling: None,
            discovery: Default::default(),
            mutate: Default::default(),
            add: Default::default(),
            combine: Default::default(),
        },
        sink: SinkConfig {
            bin_path: String::from("/bin/sink"),
            arguments: vec![],
            env: vec![],
            input_type: InputChannel::Stdin,
            output_type: OutputChannel::NoOutput,
            log_stdout: false,
            log_stderr: false,
            allow_unstable_sink: true,
            is_server: None,
            server_port: None,
            server_ready_on: None,
            working_dir: None,
            send_sigterm: false,
        },
        sink_cov: None,
        vanilla: VanillaConfig {
            env: vec![],
            bin_path: String::from("/bin/vanilla"),
            arguments: vec![],
        },
        aflnet: None,
        stateafl: None,
        sgfuzz: None,
    }
}

#[test]
fn digest_is_lowercase_sha256_hex() {
    assert_eq!(
        get_slice_digest(b"abc"),
        "ba7816bf8f01cfea414140de5dae2223b00361a396177a9cb410ff61f20015ad"
    );
    assert_eq!(
        get_slice_digest(b""),
        "e3b0c44298fc1c149afbf4c8996fb92427ae41e4649b934ca495991b7852b855"
    );
}

#[test]
fn decimal_rendering() {
    assert_eq!(u64_to_decimal(0), "0");
    assert_eq!(u64_to_decimal(7), "7");
    assert_eq!(u64_to_decimal(1234567890), "1234567890");
    assert_eq!(u64_to_decimal(u64::MAX), "18446744073709551615");
}

#[test]
fn interesting_filename_layout() {
    let name = interesting_input_filename(1500, b"abc");
    assert_eq!(
        name,
        "ts:1500+hash:ba7816bf8f01cfea414140de5dae2223b00361a396177a9cb410ff61f20015ad"
    );
}

#[test]
fn crashing_artifact_prefix_layout() {
    // SIGSEGV on input [0xff, 0x00] under queue entry 42.
    let prefix = crashing_input_prefix(12, &[0xff, 0x00], Some(42), "SIGSEGV");
    assert_eq!(
        prefix,
        "ts:12+hash:ea5dbf9596d187e9500f23e9a680109475341cf4e81f7e043f7d97152c10772f+queue_entry:42+sig:SIGSEGV"
    );
    let none_prefix = crashing_input_prefix(12, &[0xff, 0x00], None, "SIGABRT");
    assert!(none_prefix.ends_with("+queue_entry:none+sig:SIGABRT"));
}

#[test]
fn rolling_average_is_stabilised() {
    // avg := (avg*K + observed*n) / (n + K) with K = 50, so a burst of
    // observations moves the mean only partway.
    let mut w = FuzzingWorker::new();
    w.report_execution_duration(100, 50);
    assert_eq!(w.avg_execution_millis(), 50);
    w.report_execution_duration(100, 50);
    assert_eq!(w.avg_execution_millis(), 75);
    let mut w2 = FuzzingWorker::new();
    w2.report_execution_duration(100, 50);
    w2.report_execution_duration(200, 25);
    assert_eq!(w2.avg_execution_millis(), 100);
    assert!(!w.is_phase_done(FuzzingPhase::Add));
}

#[test]
fn worker_lifecycle_follows_the_state_machine() {
    let mut w = FuzzingWorker::new();
    assert_eq!(w.state(), WorkerState::Spawned);
    w.step(WorkerEvent::PassedInitBarrier);
    assert_eq!(w.state(), WorkerState::Initializing);
    w.step(WorkerEvent::InitSucceeded);
    assert_eq!(w.state(), WorkerState::Ready);
    w.step(WorkerEvent::PhasePicked(FuzzingPhase::Mutate));
    assert_eq!(w.state(), WorkerState::InPhase(FuzzingPhase::Mutate));
    w.step(WorkerEvent::PhaseDone);
    assert_eq!(w.state(), WorkerState::Ready);
    w.step(WorkerEvent::StopRequested);
    assert_eq!(w.state(), WorkerState::Stopping);
    w.step(WorkerEvent::Stopped);
    assert_eq!(w.state(), WorkerState::Terminated);
    // A terminated worker never moves again.
    w.step(WorkerEvent::PassedInitBarrier);
    assert_eq!(w.state(), WorkerState::Terminated);
}

#[test]
fn failed_init_sticks() {
    let mut w = FuzzingWorker::new();
    w.step(WorkerEvent::PassedInitBarrier);
    w.step(WorkerEvent::InitFailed);
    assert_eq!(w.state(), WorkerState::Failed);
    w.step(WorkerEvent::InitSucceeded);
    assert_eq!(w.state(), WorkerState::Failed);
}

#[test]
fn check_virgin_maps_consults_global_only_on_local_hit() {
    let mut cov = Bitmap::new_in_mem(2, 0);
    cov.set_byte(0, 0x01);
    let mut local = Bitmap::new_in_mem(2, 0xff);
    let mut global = Bitmap::new_in_mem(2, 0xff);
    let st = FuzzingWorker::check_virgin_maps(&cov, &mut local, &mut global);
    assert_eq!(st, BitmapStatus::NewEdge);
    assert_eq!(global.byte_at(0), 0xfe);
    // The local map was re-synced from the global one.
    assert_eq!(local.byte_at(0), 0xfe);
    // The same coverage again: locally nothing new, global untouched.
    let st2 = FuzzingWorker::check_virgin_maps(&cov, &mut local, &mut global);
    assert_eq!(st2, BitmapStatus::NoNew);
    assert_eq!(global.byte_at(0), 0xfe);
}

#[test]
fn admission_iff_new_coverage() {
    // A new entry is admitted exactly when the check reported new
    // coverage, and the mutated site is then marked as yielding.
    let mut q = Queue::new();
    let mut c = Cerebrum::new(IdSet::from_ids(&vec![5, 6]));
    let admitted = process_execution_result(
        &mut q,
        &mut c,
        BitmapStatus::NewEdge,
        vec![1, 2],
        Some(vec![3]),
        0,
        5,
    );
    assert_eq!(admitted, Some(0));
    assert_eq!(q.len(), 1);
    assert!(c.patch_points_yielded().contains(5));
    assert!(!c.patch_points_unfuzzed().contains(5));
    let not_admitted = process_execution_result(
        &mut q,
        &mut c,
        BitmapStatus::NoNew,
        vec![9],
        None,
        0,
        6,
    );
    assert!(not_admitted.is_none());
    assert_eq!(q.len(), 1);
    assert!(c.patch_points_unfuzzed().contains(6));
}

#[test]
fn two_worker_discovery_admits_one_entry() {
    // A Source with patch points {1, 2, 3}; the Sink grants coverage iff
    // patch point 2 is active.  With batches of 2 Discovery admits
    // exactly one entry, and its restored cache contains site 2.
    let pps = vec![
        PatchPoint { id: MutationSiteID(1), instruction_kind: 1, width: 4 },
        PatchPoint { id: MutationSiteID(2), instruction_kind: 1, width: 4 },
        PatchPoint { id: MutationSiteID(3), instruction_kind: 1, width: 4 },
    ];
    let mut queue = Queue::new();
    let mut cerebrum = Cerebrum::new(IdSet::from_ids(&vec![1, 2, 3]));
    let mut local = Bitmap::new_in_mem(2, 0xff);
    let mut global = Bitmap::new_in_mem(2, 0xff);
    let mut start = 0;
    while start < pps.len() {
        let batch = FuzzingWorker::discovery_batch(&pps, start, 2);
        // The simulated Sink: coverage byte 0 lights up iff site 2 is in
        // the installed cache.
        let mut coverage = Bitmap::new_in_mem(2, 0);
        let mut has2 = false;
        for i in 0..batch.len() {
            if batch.entry_at(i).id.0 == 2 {
                has2 = true;
            }
        }
        if has2 {
            coverage.set_byte(0, 0x01);
        }
        let st = FuzzingWorker::check_virgin_maps(&coverage, &mut local, &mut global);
        process_execution_result(
            &mut queue,
            &mut cerebrum,
            st,
            vec![start as u8],
            Some(batch.to_bytes()),
            0,
            2,
        );
        start += 2;
    }
    assert_eq!(queue.len(), 1);
    let mut mc = MutationCache::new();
    mc.load_bytes(queue.entry_at(0).mutations().unwrap()).unwrap();
    let ids = mc.ids();
    assert!(ids.contains(&2));
}

#[test]
fn queue_entry_mutations_restore_the_cache() {
    let snapshot = MutationCache::from_entries(vec![MutationCacheEntry {
        id: MutationSiteID(3),
        instruction_kind: 1,
        width: 4,
        msk: vec![0xaa, 0xbb],
    }]);
    let mut q = Queue::new();
    q.push(vec![1], Some(snapshot.to_bytes()), 0);
    q.push(vec![2], None, 0);
    let mut mc = MutationCache::from_entries(vec![MutationCacheEntry {
        id: MutationSiteID(9),
        instruction_kind: 1,
        width: 4,
        msk: vec![],
    }]);
    load_queue_entry_mutations(&mut mc, q.entry_at(0)).unwrap();
    assert_eq!(mc.ids(), vec![3]);
    assert_eq!(mc.entry_at(0).msk, vec![0xaa, 0xbb]);
    // An entry without a snapshot leaves the cache empty but valid.
    load_queue_entry_mutations(&mut mc, q.entry_at(1)).unwrap();
    assert_eq!(mc.len(), 0);
}

#[test]
fn restart_cap_allows_exactly_the_bound() {
    // With a restart bound of 2, killing three workers produces exactly
    // two replacements and marks the third as not restartable.
    let mut campaign = FuzzingCampaign::new(test_config());
    campaign.set_restart_limit(2);
    campaign.start(3);
    assert_eq!(campaign.num_workers(), 3);
    campaign.mark_worker_dead(0);
    campaign.mark_worker_dead(1);
    campaign.mark_worker_dead(2);
    campaign.restart_crashed_worker();
    assert_eq!(campaign.num_workers(), 5);
    // A second round must not restart the already-marked third worker.
    campaign.restart_crashed_worker();
    assert_eq!(campaign.num_workers(), 5);
}

#[test]
fn shutdown_requests_stop_and_sums_stats() {
    let mut campaign = FuzzingCampaign::new(test_config());
    campaign.start(2);
    campaign.record_worker_stats(
        0,
        FuzzerEventCounter {
            execs: 10,
            new_edges: 1,
            new_hits: 2,
            crashes: 0,
            init_ts_millis: Some(1),
        },
    );
    campaign.record_worker_stats(
        1,
        FuzzerEventCounter {
            execs: 32,
            new_edges: 0,
            new_hits: 1,
            crashes: 1,
            init_ts_millis: Some(2),
        },
    );
    let total = campaign.shutdown();
    assert_eq!(total.execs, 42);
    assert_eq!(total.new_edges, 1);
    assert_eq!(total.new_hits, 3);
    assert_eq!(total.crashes, 1);
    assert!(campaign.is_any_worker_alive());
}

#[test]
fn campaign_dump_round_trips_through_the_queue() {
    let mut campaign = FuzzingCampaign::new(test_config());
    campaign.queue_mut().push(vec![1, 2], None, 0);
    let bytes = campaign.dump();
    let back = Queue::restore(&bytes).unwrap();
    assert_eq!(back.len(), 1);
    assert_eq!(back.entry_at(0).input(), &vec![1, 2]);
}
