use speedy_refs::Rc;
use std::cell::Cell;

#[derive(Default)]
struct Inner;

impl Drop for Inner {
    fn drop(&mut self) {
        println!("Dropping inner");
    }
}

#[derive(Default)]
struct Item(Inner);

impl Drop for Item {
    fn drop(&mut self) {
        println!("Dropping item");
    }
}

/// A value that counts the runs of its finalizer.
struct Counted {
    value: i32,
    runs: std::rc::Rc<Cell<u32>>,
}

impl Drop for Counted {
    fn drop(&mut self) {
        self.runs.set(self.runs.get() + 1);
    }
}

fn counted(value: i32) -> (Counted, std::rc::Rc<Cell<u32>>) {
    let runs = std::rc::Rc::new(Cell::new(0));
    (Counted { value, runs: runs.clone() }, runs)
}

/// Holds for every type in one way, and for a type that may be sent to
/// another thread in a second way: naming it without saying which compiles
/// only for a type that may not be sent.
trait UnlessSend<A> {
    fn holds() {}
}

impl<T: ?Sized> UnlessSend<()> for T {}

impl<T: ?Sized + Send> UnlessSend<u8> for T {}

/// The same for a type that may be shared between threads.
trait UnlessSync<A> {
    fn holds() {}
}

impl<T: ?Sized> UnlessSync<()> for T {}

impl<T: ?Sized + Sync> UnlessSync<u8> for T {}

#[test]
fn test_drop() {
    let val = Item::default();
    let (rc, mut inner) = Rc::new(val);
    let _v = rc.clone(&mut inner);
    let _v = rc.clone(&mut inner);
}

#[test]
fn test_1() {
    assert_eq!(1, 1)
}

#[test]
fn rc_new_has_count_one() {
    let (rc, inner) = Rc::new(42);
    assert_eq!(inner.count(), 1);
    assert_eq!(*rc.deref(&inner), 42);
    assert_eq!(*rc.as_ref(&inner), 42);
}

#[test]
fn rc_finalizer_fires_at_third_drop() {
    let (val, runs) = counted(42);
    let (first, mut inner) = Rc::new(val);
    assert_eq!(inner.count(), 1);
    let second = first.clone(&mut inner);
    let third = first.clone(&mut inner);
    assert_eq!(inner.count(), 3);
    assert_eq!(third.deref(&inner).value, 42);

    first.drop(&mut inner);
    assert_eq!(inner.count(), 2);
    assert_eq!(runs.get(), 0);
    assert_eq!(second.deref(&inner).value, 42);

    second.drop(&mut inner);
    assert_eq!(inner.count(), 1);
    assert_eq!(runs.get(), 0);
    assert_eq!(third.deref(&inner).value, 42);

    third.drop(&mut inner);
    assert_eq!(inner.count(), 0);
    assert_eq!(runs.get(), 1);

    std::mem::drop(inner);
    assert_eq!(runs.get(), 1);
}

#[test]
fn rc_drops_in_any_order_finalize_once() {
    let orders: [[usize; 4]; 4] = [[0, 1, 2, 3], [3, 2, 1, 0], [2, 0, 3, 1], [1, 3, 0, 2]];
    for order in orders {
        let (val, runs) = counted(7);
        let (first, mut inner) = Rc::new(val);
        let mut handles = vec![None, None, None, None];
        handles[1] = Some(first.clone(&mut inner));
        handles[2] = Some(first.clone(&mut inner));
        handles[3] = Some(first.clone(&mut inner));
        handles[0] = Some(first);
        assert_eq!(inner.count(), 4);
        let mut left = 4;
        for index in order {
            assert_eq!(runs.get(), 0);
            let handle = handles[index].take().unwrap();
            handle.drop(&mut inner);
            left -= 1;
            assert_eq!(inner.count(), left);
        }
        assert_eq!(runs.get(), 1);
    }
}

#[test]
fn rc_clone_from_a_clone_counts_too() {
    let (val, runs) = counted(1);
    let (first, mut inner) = Rc::new(val);
    let second = first.clone(&mut inner);
    let third = second.clone(&mut inner);
    first.drop(&mut inner);
    second.drop(&mut inner);
    assert_eq!(inner.count(), 1);
    assert_eq!(third.as_ref(&inner).value, 1);
    assert_eq!(runs.get(), 0);
    third.drop(&mut inner);
    assert_eq!(runs.get(), 1);
}

#[test]
fn rc_many_clones_and_drops() {
    let (val, runs) = counted(5);
    let (first, mut inner) = Rc::new(val);
    let mut handles = Vec::new();
    for _ in 0..1000 {
        handles.push(first.clone(&mut inner));
    }
    assert_eq!(inner.count(), 1001);
    for handle in handles {
        handle.drop(&mut inner);
    }
    assert_eq!(inner.count(), 1);
    assert_eq!(runs.get(), 0);
    first.drop(&mut inner);
    assert_eq!(runs.get(), 1);
}

#[test]
fn rc_stays_in_its_thread() {
    <Rc<i32> as UnlessSend<_>>::holds();
    <Rc<i32> as UnlessSync<_>>::holds();
    <speedy_refs::rc::Inner<i32> as UnlessSend<_>>::holds();
    <speedy_refs::rc::Inner<i32> as UnlessSync<_>>::holds();
}
