use scheduler::id_set::IdSet;
use scheduler::mutation_cache::{
    MutationCache, MutationCacheEntry, MutationSiteID, PatchPoint,
};
use scheduler::trace::Trace;

fn pp(id: u64, width: u32) -> PatchPoint {
    PatchPoint { id: MutationSiteID(id), instruction_kind: 1, width }
}

fn entry(id: u64, width: u32, msk: Vec<u8>) -> MutationCacheEntry {
    MutationCacheEntry { id: MutationSiteID(id), instruction_kind: 1, width, msk }
}

fn trace_of(ids: Vec<u64>) -> Trace {
    Trace::new(IdSet::from_ids(&ids))
}

fn ids_of(mc: &MutationCache) -> Vec<u64> {
    mc.ids()
}

#[test]
fn from_patchpoints_builds_all_nops() {
    let pps = vec![pp(1, 4), pp(2, 8), pp(3, 2)];
    let mc = MutationCache::from_patchpoints(&pps);
    assert_eq!(mc.len(), 3);
    for i in 0..3 {
        assert!(mc.entry_at(i).is_nop());
    }
    assert_eq!(ids_of(&mc), vec![1, 2, 3]);
}

#[test]
fn union_and_replace_keeps_order_and_appends() {
    // Overlapping IDs are replaced in place, new ones appended in the
    // other cache's order.
    let pps = vec![pp(1, 4), pp(2, 4), pp(3, 4)];
    let mut mc = MutationCache::from_patchpoints(&pps);
    let other = MutationCache::from_entries(vec![
        entry(2, 4, vec![0xaa]),
        entry(9, 4, vec![0xbb]),
        entry(1, 4, vec![0xcc]),
    ]);
    mc.union_and_replace(&other);
    assert_eq!(ids_of(&mc), vec![1, 2, 3, 9]);
    assert_eq!(mc.entry_at(0).msk, vec![0xcc]);
    assert_eq!(mc.entry_at(1).msk, vec![0xaa]);
    assert!(mc.entry_at(2).is_nop());
    assert_eq!(mc.entry_at(3).msk, vec![0xbb]);
}

#[test]
fn remove_uncovered_drops_exactly_the_uncovered() {
    let pps = vec![pp(1, 4), pp(2, 4), pp(3, 4), pp(4, 4)];
    let mut mc = MutationCache::from_patchpoints(&pps);
    let t = trace_of(vec![2, 4]);
    mc.remove_uncovered(&t);
    assert_eq!(ids_of(&mc), vec![2, 4]);
}

#[test]
fn resize_covered_entries_nop_extends() {
    // Existing mask bytes keep their offsets; new bytes are zero.
    let mut mc = MutationCache::from_entries(vec![
        entry(1, 4, vec![0x11, 0x22]),
        entry(2, 3, vec![]),
        entry(3, 2, vec![0x33]),
    ]);
    let t = trace_of(vec![1, 2]);
    mc.resize_covered_entries(&t);
    assert_eq!(mc.entry_at(0).msk, vec![0x11, 0x22, 0x00, 0x00]);
    assert_eq!(mc.entry_at(1).msk, vec![0x00, 0x00, 0x00]);
    // ID 3 was not covered: untouched.
    assert_eq!(mc.entry_at(2).msk, vec![0x33]);
}

#[test]
fn clear_leaves_empty_but_valid() {
    let mut mc = MutationCache::from_entries(vec![entry(1, 4, vec![1, 2, 3])]);
    mc.clear();
    assert_eq!(mc.len(), 0);
}

#[test]
fn serialise_then_load_is_identity() {
    let mc = MutationCache::from_entries(vec![
        entry(7, 4, vec![1, 2, 3, 4]),
        entry(9, 2, vec![]),
        entry(11, 8, vec![0xff]),
    ]);
    let bytes = mc.to_bytes();
    let mut back = MutationCache::new();
    back.load_bytes(&bytes).unwrap();
    assert_eq!(back.len(), 3);
    assert_eq!(ids_of(&back), vec![7, 9, 11]);
    assert_eq!(back.entry_at(0).msk, vec![1, 2, 3, 4]);
    assert_eq!(back.entry_at(0).width, 4);
    assert_eq!(back.entry_at(0).instruction_kind, 1);
    assert!(back.entry_at(1).is_nop());
    assert_eq!(back.entry_at(2).msk, vec![0xff]);
}

#[test]
fn load_rejects_truncated_bytes() {
    let mc = MutationCache::from_entries(vec![entry(7, 4, vec![1, 2, 3, 4])]);
    let mut bytes = mc.to_bytes();
    bytes.pop();
    let mut back = MutationCache::new();
    assert!(back.load_bytes(&bytes).is_err());
}

#[test]
fn load_rejects_duplicate_ids() {
    let a = MutationCache::from_entries(vec![entry(7, 4, vec![1])]);
    let mut bytes = a.to_bytes();
    let mut again = a.to_bytes();
    bytes.append(&mut again);
    let mut back = MutationCache::new();
    assert!(back.load_bytes(&bytes).is_err());
}

#[test]
fn entries_snapshot_is_deep() {
    // The snapshot can be partitioned and rebuilt while the cache itself
    // is mutated: no handle into the cache survives.
    let mut mc = MutationCache::from_entries(vec![entry(1, 4, vec![5])]);
    let snapshot = mc.entries();
    mc.clear();
    assert_eq!(snapshot.len(), 1);
    assert_eq!(snapshot[0].msk, vec![5]);
    let rebuilt = MutationCache::from_entries(snapshot);
    assert_eq!(rebuilt.len(), 1);
}
