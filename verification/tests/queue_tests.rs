use scheduler::id_set::IdSet;
use scheduler::queue::{Queue, TraceAttempt};
use scheduler::trace::Trace;

#[test]
fn push_assigns_monotonic_ids() {
    let mut q = Queue::new();
    let a = q.push(vec![1], None, 0);
    let b = q.push(vec![2], Some(vec![9]), 1);
    assert_eq!(a, 0);
    assert_eq!(b, 1);
    assert_eq!(q.len(), 2);
    assert_eq!(q.entry_at(0).input(), &vec![1]);
    assert_eq!(q.entry_at(1).generation(), 1);
    assert_eq!(q.entry_at(1).mutations().unwrap(), &vec![9]);
    assert!(q.entry_at(0).mutations().is_none());
}

#[test]
fn tracing_monopoly_exactly_one_starts() {
    // Two workers ask to trace the same entry: exactly one gets the
    // ticket, the other is told to skip; after the trace is attached the
    // next request sees it.
    let mut q = Queue::new();
    q.push(vec![1], None, 0);
    let first = q.try_begin_tracing(0);
    assert_eq!(first, TraceAttempt::Started);
    let second = q.try_begin_tracing(0);
    assert_eq!(second, TraceAttempt::InProgress);
    let t = Trace::new(IdSet::from_ids(&vec![3, 1, 2]));
    q.finish_tracing(0, t);
    assert!(!q.entry_at(0).stats().tracing_in_progress());
    let third = q.try_begin_tracing(0);
    assert_eq!(third, TraceAttempt::AlreadyTraced);
    let tr = q.entry_at(0).stats();
    let tr = tr.trace().unwrap();
    assert_eq!(tr.len(), 3);
    assert!(tr.covers(1) && tr.covers(2) && tr.covers(3));
}

#[test]
fn abort_tracing_leaves_entry_untraced() {
    let mut q = Queue::new();
    q.push(vec![1], None, 0);
    assert_eq!(q.try_begin_tracing(0), TraceAttempt::Started);
    q.abort_tracing(0);
    assert!(q.entry_at(0).stats().trace().is_none());
    // The entry can be claimed again later.
    assert_eq!(q.try_begin_tracing(0), TraceAttempt::Started);
}

#[test]
fn dump_then_restore_is_identity_on_frozen_fields() {
    let mut q = Queue::new();
    q.push(vec![1, 2, 3], None, 0);
    q.push(vec![], Some(vec![4, 5]), 2);
    q.push(vec![0xff; 300], Some(vec![]), 7);
    let bytes = q.dump();
    let back = Queue::restore(&bytes).unwrap();
    assert_eq!(back.len(), 3);
    for i in 0..3 {
        assert_eq!(back.entry_at(i).id(), q.entry_at(i).id());
        assert_eq!(back.entry_at(i).generation(), q.entry_at(i).generation());
        assert_eq!(back.entry_at(i).input(), q.entry_at(i).input());
        assert_eq!(back.entry_at(i).mutations(), q.entry_at(i).mutations());
    }
    // Restored statistics are fresh.
    assert!(back.entry_at(0).stats().trace().is_none());
    assert!(!back.entry_at(0).stats().tracing_in_progress());
}

#[test]
fn restore_continues_ids_above_the_dump() {
    let mut q = Queue::new();
    q.push(vec![1], None, 0);
    q.push(vec![2], None, 0);
    let bytes = q.dump();
    let mut back = Queue::restore(&bytes).unwrap();
    let next = back.push(vec![3], None, 0);
    assert_eq!(next, 2);
}

#[test]
fn restore_rejects_malformed_bytes() {
    assert!(Queue::restore(&vec![1, 2, 3]).is_err());
}
