use scheduler::cerebrum::Cerebrum;
use scheduler::config::{AddPhaseConfig, TimeSpan};
use scheduler::id_set::IdSet;
use scheduler::mutation_cache::{MutationCache, MutationCacheEntry, MutationSiteID, PatchPoint};
use scheduler::phases::{calc_share, mutator_iterations, sample_ids, shuffle, Mutator};
use scheduler::trace::Trace;
use scheduler::worker::FuzzingWorker;

fn pp(id: u64, width: u32) -> PatchPoint {
    PatchPoint { id: MutationSiteID(id), instruction_kind: 1, width }
}

#[test]
fn mutator_iteration_budgets_at_the_boundaries() {
    assert_eq!(mutator_iterations(0), 0);
    assert_eq!(mutator_iterations(1), 32);
    assert_eq!(mutator_iterations(32), 1024);
    assert_eq!(mutator_iterations(33), 528);
    assert_eq!(mutator_iterations(128), 2048);
    assert_eq!(mutator_iterations(129), 2048);
}

#[test]
fn shares_never_oversubscribe_the_batch() {
    // floor((w / sum) * batch) per class, summing to at most the batch.
    let s1 = calc_share(1, 3, 12);
    assert_eq!(s1, 4);
    let u = calc_share(2, 7, 12);
    let y = calc_share(2, 7, 12);
    let r = calc_share(3, 7, 12);
    assert!(u + y + r <= 12);
    assert_eq!(calc_share(1, 3, 3), 1);
}

#[test]
fn sampling_draws_without_replacement() {
    let mut pool = IdSet::from_ids(&vec![1, 2, 3, 4, 5]);
    let drawn = sample_ids(&mut pool, 3);
    assert_eq!(drawn.len(), 3);
    assert_eq!(pool.len(), 2);
    for d in &drawn {
        assert!(!pool.contains(*d));
    }
    // No duplicates.
    for i in 0..drawn.len() {
        for j in 0..i {
            assert_ne!(drawn[i], drawn[j]);
        }
    }
    // Asking for more than is left drains the pool.
    let rest = sample_ids(&mut pool, 10);
    assert_eq!(rest.len(), 2);
    assert_eq!(pool.len(), 0);
}

#[test]
fn shuffle_keeps_the_elements() {
    let mut v: Vec<u64> = (0..50).collect();
    shuffle(&mut v);
    assert_eq!(v.len(), 50);
    let mut sorted = v.clone();
    sorted.sort();
    let expected: Vec<u64> = (0..50).collect();
    assert_eq!(sorted, expected);
}

#[test]
fn add_phase_selects_unfuzzed_first() {
    // Cerebrum reports unfuzzed {7}, yielded {9}; the trace covers
    // {7, 9, 11}; weights 1:1:1 with batch size 3.  The three classes
    // draw {7}, {9} and {11} respectively.
    let all = vec![pp(7, 4), pp(9, 4), pp(11, 4)];
    let entry_mc = MutationCache::new();
    let trace = Trace::new(IdSet::from_ids(&vec![7, 9, 11]));
    let mut cerebrum = Cerebrum::new(IdSet::from_ids(&vec![7]));
    cerebrum.mark_yielded(9);
    // Marking 9 as yielded leaves 7 the only unfuzzed site.
    let config = AddPhaseConfig {
        weight: 3,
        batch_size: 3,
        select_unfuzzed_weight: 1,
        select_yielding_weight: 1,
        select_random_weight: 1,
        entry_cov_timeout: TimeSpan { millis: 1000 },
    };
    let sel = FuzzingWorker::add_phase_choose_candidates(
        &entry_mc,
        &all,
        &trace,
        &cerebrum,
        &config,
    );
    assert_eq!(sel.unfuzzed_drawn, vec![7]);
    assert_eq!(sel.yielding_drawn, vec![9]);
    assert_eq!(sel.random_drawn, vec![11]);
    assert_eq!(sel.new_mc.len(), 3);
    assert_eq!(sel.targets.len(), 3);
}

#[test]
fn add_phase_pipelines_have_the_budgeted_mutators() {
    let all = vec![pp(1, 4), pp(2, 2)];
    let entry_mc = MutationCache::new();
    let trace = Trace::new(IdSet::from_ids(&vec![1, 2]));
    let cerebrum = Cerebrum::new(IdSet::from_ids(&vec![1, 2]));
    let config = AddPhaseConfig {
        weight: 3,
        batch_size: 2,
        select_unfuzzed_weight: 1,
        select_yielding_weight: 0,
        select_random_weight: 0,
        entry_cov_timeout: TimeSpan { millis: 1000 },
    };
    let sel = FuzzingWorker::add_phase_choose_candidates(
        &entry_mc,
        &all,
        &trace,
        &cerebrum,
        &config,
    );
    // The share is floor(1/1 * 2) = 2, and both sites are unfuzzed.
    assert_eq!(sel.unfuzzed_drawn.len(), 2);
    let pairs = FuzzingWorker::add_phase_prepare_mutations(&sel.targets);
    assert_eq!(pairs.len(), sel.targets.len());
    for (entry, pipes) in &pairs {
        // The targets are the newly added nop sites; their pipelines are
        // sized by the instrumented width the installed cache gives them,
        // with both mutators present in some order.
        assert!(entry.msk.is_empty());
        assert!(entry.width > 0);
        assert_eq!(pipes.len(), 2);
        let mut flip = 0;
        let mut random = 0;
        for p in pipes {
            match p {
                Mutator::FlipOnce { next_bit, total_bits } => {
                    flip += 1;
                    assert_eq!(*next_bit, 0);
                    assert_eq!(*total_bits, entry.width as u64 * 8);
                },
                Mutator::RandomByte1 { remaining } => {
                    random += 1;
                    assert_eq!(*remaining, mutator_iterations(entry.width as usize));
                },
            }
        }
        assert_eq!(flip, 1);
        assert_eq!(random, 1);
    }
}

#[test]
fn prepare_skips_already_active_candidates() {
    // An entry that already carries a mutation mask belongs to the
    // Mutate phase; the Add phase prepares no pipeline for it.
    let candidates = vec![
        MutationCacheEntry {
            id: MutationSiteID(1),
            instruction_kind: 1,
            width: 4,
            msk: vec![0xaa],
        },
        MutationCacheEntry { id: MutationSiteID(2), instruction_kind: 1, width: 4, msk: vec![] },
    ];
    let pairs = FuzzingWorker::add_phase_prepare_mutations(&candidates);
    assert_eq!(pairs.len(), 1);
    assert_eq!(pairs[0].0.id.0, 2);
}

#[test]
fn flip_once_walks_the_bits() {
    let mut msk = vec![0u8, 0u8];
    let mut m = Mutator::flip_once_new(2);
    assert!(m.mutate(&mut msk));
    assert_eq!(msk, vec![0x01, 0x00]);
    assert!(m.mutate(&mut msk));
    assert_eq!(msk, vec![0x02, 0x00]);
    for _ in 0..14 {
        assert!(m.mutate(&mut msk));
    }
    assert_eq!(msk, vec![0x00, 0x80]);
    assert!(!m.mutate(&mut msk));
    assert_eq!(msk, vec![0x00, 0x80]);
}

#[test]
fn random_byte_respects_its_budget() {
    let mut msk = vec![0u8; 4];
    let mut m = Mutator::random_byte1_new(4, 3).unwrap();
    assert!(m.mutate(&mut msk));
    assert!(m.mutate(&mut msk));
    assert!(m.mutate(&mut msk));
    assert!(!m.mutate(&mut msk));
    assert!(Mutator::random_byte1_new(0, 10).is_none());
}

#[test]
fn combine_unions_two_caches() {
    let a = MutationCache::from_entries(vec![
        MutationCacheEntry {
            id: MutationSiteID(1),
            instruction_kind: 1,
            width: 4,
            msk: vec![0xaa],
        },
    ]);
    let b = MutationCache::from_entries(vec![
        MutationCacheEntry {
            id: MutationSiteID(2),
            instruction_kind: 1,
            width: 4,
            msk: vec![0xbb],
        },
    ]);
    let u = FuzzingWorker::combine_mutations(&a, &b);
    assert_eq!(u.len(), 2);
    assert_eq!(u.ids(), vec![1, 2]);
}

#[test]
fn mutate_phase_picks_only_active_sites() {
    let mc = MutationCache::from_entries(vec![
        MutationCacheEntry { id: MutationSiteID(1), instruction_kind: 1, width: 4, msk: vec![] },
        MutationCacheEntry {
            id: MutationSiteID(2),
            instruction_kind: 1,
            width: 4,
            msk: vec![0x01],
        },
        MutationCacheEntry { id: MutationSiteID(3), instruction_kind: 1, width: 4, msk: vec![] },
        MutationCacheEntry {
            id: MutationSiteID(4),
            instruction_kind: 1,
            width: 4,
            msk: vec![0x02],
        },
    ]);
    let targets = FuzzingWorker::mutate_phase_targets(&mc);
    assert_eq!(targets.len(), 2);
    assert_eq!(targets[0].id.0, 2);
    assert_eq!(targets[1].id.0, 4);
}

#[test]
fn discovery_batches_walk_the_enumeration() {
    let all = vec![pp(1, 4), pp(2, 4), pp(3, 4)];
    let b0 = FuzzingWorker::discovery_batch(&all, 0, 2);
    assert_eq!(b0.ids(), vec![1, 2]);
    let b1 = FuzzingWorker::discovery_batch(&all, 2, 2);
    assert_eq!(b1.ids(), vec![3]);
}
