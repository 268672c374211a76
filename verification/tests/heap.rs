use speedy_refs::HeapCell;
use speedy_refs::Reon;
use std::cell::Cell;
use std::rc::Rc;

/// A value that counts the runs of its finalizer.
#[derive(Clone)]
struct Counted {
    value: i32,
    runs: Rc<Cell<u32>>,
}

impl Drop for Counted {
    fn drop(&mut self) {
        self.runs.set(self.runs.get() + 1);
    }
}

fn counted(value: i32) -> (Counted, Rc<Cell<u32>>) {
    let runs = Rc::new(Cell::new(0));
    (Counted { value, runs: runs.clone() }, runs)
}

#[test]
fn heap_cell_reads_and_writes() {
    let mut cell = HeapCell::new(42);
    assert_eq!(*cell.as_ref(), 42);
    *cell.as_mut() = 7;
    assert_eq!(*cell.as_ref(), 7);
    assert_eq!(cell.replace(42), 7);
    assert_eq!(*cell.as_ref(), 42);
    let val = cell.take();
    assert_eq!(val, 42);
    cell.dealloc();
}

#[test]
fn heap_cell_take_runs_no_finalizer() {
    let (val, runs) = counted(1);
    let mut cell = HeapCell::new(val);
    let back = cell.take();
    assert_eq!(back.value, 1);
    cell.dealloc();
    assert_eq!(runs.get(), 0);
    std::mem::drop(back);
    assert_eq!(runs.get(), 1);
}

#[test]
fn heap_cell_drop_runs_finalizer_once() {
    let (val, runs) = counted(1);
    let mut cell = HeapCell::new(val);
    cell.drop();
    assert_eq!(runs.get(), 1);
    cell.dealloc();
    assert_eq!(runs.get(), 1);
    std::mem::drop(cell);
    assert_eq!(runs.get(), 1);
}

#[test]
fn heap_cell_drop_n_dealloc_runs_finalizer_once() {
    let (val, runs) = counted(1);
    let mut cell = HeapCell::new(val);
    cell.drop_n_dealloc();
    assert_eq!(runs.get(), 1);
    std::mem::drop(cell);
    assert_eq!(runs.get(), 1);
}

#[test]
fn heap_cell_dealloc_alone_runs_no_finalizer() {
    let (val, runs) = counted(1);
    let mut cell = HeapCell::new(val);
    cell.dealloc();
    std::mem::drop(cell);
    assert_eq!(runs.get(), 0);
}

#[test]
fn heap_cell_replace_hands_back_the_value() {
    let (val, runs) = counted(1);
    let (next, next_runs) = counted(2);
    let mut cell = HeapCell::new(val);
    let prev = cell.replace(next);
    assert_eq!(prev.value, 1);
    assert_eq!(cell.as_ref().value, 2);
    assert_eq!(runs.get(), 0);
    std::mem::drop(prev);
    assert_eq!(runs.get(), 1);
    cell.drop_n_dealloc();
    assert_eq!(next_runs.get(), 1);
}

#[test]
fn heap_cell_clone_inner_is_a_new_cell() {
    let mut cell = HeapCell::new(vec![1, 2]);
    let mut copy = cell.clone_inner();
    copy.as_mut().push(3);
    assert_eq!(cell.as_ref(), &vec![1, 2]);
    assert_eq!(copy.as_ref(), &vec![1, 2, 3]);
    cell.drop_n_dealloc();
    assert_eq!(copy.take(), vec![1, 2, 3]);
}

#[test]
fn reon_points_at_its_value() {
    let x = Reon::new(42);
    assert_eq!(*x, 42);
    assert_eq!(*x.as_ref(), 42);
    let y = x;
    let z = x.clone();
    assert_eq!(*y, 42);
    assert_eq!(*z, 42);
    assert_eq!(*x, 42);
}

#[test]
fn reon_keeps_a_string() {
    let x = Reon::new(String::from("Hello, World"));
    let y = x;
    assert_eq!(y.len(), 12);
    assert_eq!(x.as_ref(), "Hello, World");
}
