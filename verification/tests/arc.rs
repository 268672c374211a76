use speedy_refs::Arc;
use std::sync::atomic::{AtomicUsize, Ordering};

/// A value that counts the runs of its finalizer.
struct Counted {
    value: i32,
    runs: std::sync::Arc<AtomicUsize>,
}

impl Drop for Counted {
    fn drop(&mut self) {
        self.runs.fetch_add(1, Ordering::SeqCst);
    }
}

fn counted(value: i32) -> (Counted, std::sync::Arc<AtomicUsize>) {
    let runs = std::sync::Arc::new(AtomicUsize::new(0));
    (Counted { value, runs: runs.clone() }, runs)
}

fn is_send<T: Send>(_: &T) {}

fn is_sync<T: Sync>(_: &T) {}

#[test]
fn arc_new_has_count_one() {
    let (arc, inner) = Arc::new(42);
    assert_eq!(inner.count(), 1);
    assert_eq!(*arc.deref(&inner), 42);
    assert_eq!(*arc.as_ref(&inner), 42);
}

#[test]
fn arc_finalizer_fires_at_third_drop() {
    let (val, runs) = counted(42);
    let (first, mut inner) = Arc::new(val);
    let second = first.clone(&mut inner);
    let third = first.clone(&mut inner);
    assert_eq!(inner.count(), 3);

    first.drop(&mut inner);
    assert_eq!(runs.load(Ordering::SeqCst), 0);
    second.drop(&mut inner);
    assert_eq!(runs.load(Ordering::SeqCst), 0);
    assert_eq!(inner.count(), 1);
    assert_eq!(third.deref(&inner).value, 42);
    third.drop(&mut inner);
    assert_eq!(inner.count(), 0);
    assert_eq!(runs.load(Ordering::SeqCst), 1);
}

#[test]
fn arc_drops_in_reverse_order_finalize_once() {
    let (val, runs) = counted(9);
    let (first, mut inner) = Arc::new(val);
    let second = first.clone(&mut inner);
    let third = second.clone(&mut inner);
    third.drop(&mut inner);
    second.drop(&mut inner);
    assert_eq!(runs.load(Ordering::SeqCst), 0);
    assert_eq!(first.as_ref(&inner).value, 9);
    first.drop(&mut inner);
    assert_eq!(runs.load(Ordering::SeqCst), 1);
}

#[test]
fn arc_two_rounds_of_ten_thousand_clones() {
    let (val, runs) = counted(3);
    let (first, mut inner) = Arc::new(val);
    for _ in 0..2 {
        for _ in 0..10_000 {
            let handle = first.clone(&mut inner);
            handle.drop(&mut inner);
        }
    }
    assert_eq!(inner.count(), 1);
    assert_eq!(runs.load(Ordering::SeqCst), 0);
    first.drop(&mut inner);
    assert_eq!(inner.count(), 0);
    assert_eq!(runs.load(Ordering::SeqCst), 1);
}

#[test]
fn arc_handles_and_allocation_may_change_threads() {
    let (arc, inner) = Arc::new(42);
    is_send(&arc);
    is_sync(&arc);
    is_send(&inner);
    is_sync(&inner);
}
