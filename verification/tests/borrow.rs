use speedy_refs::Borrow;
use speedy_refs::HazardCell;
use speedy_refs::JavaCell;
use speedy_refs::RcCell;
use speedy_refs::SharedCell;
use std::cell::Cell;
use std::rc::Rc;

#[derive(Debug, PartialEq, Eq)]
struct Data(String, usize, bool, Vec<Self>);

/// A value that counts the runs of its finalizer.
struct Counted {
    value: i32,
    runs: Rc<Cell<u32>>,
}

impl Drop for Counted {
    fn drop(&mut self) {
        self.runs.set(self.runs.get() + 1);
    }
}

fn counted(value: i32) -> (Counted, Rc<Cell<u32>>) {
    let runs = Rc::new(Cell::new(0));
    (Counted { value, runs: runs.clone() }, runs)
}

fn is_send<T: Send>(_: &T) {}

#[test]
fn test() {
    // Create a new variable
    let data = Data(String::from("Hello, World"), 100, false, vec![]);
    // Create a Borrow (a reference) with the variable
    let (mut data_ref, mut shared) = Borrow::new(data);
    // Create another reference to the same variable
    let mut clone = Borrow::clone(&data_ref, &mut shared);
    // Use the Borrow seemlessly
    data_ref.deref_mut(&mut shared).0.push('!');
    clone.deref_mut(&mut shared).1 += 55;
    data_ref.deref_mut(&mut shared).2 = true;
    clone.deref_mut(&mut shared).3.push(Data("".into(), 0, false, Vec::new()));

    // Debug for the value behind a Borrow is that of Data
    println!("{:?}", clone.deref(&shared));
    // Output
    //Data("Hello, World!", 155, true, [Data("", 0, false, [])])
    println!("{:?}", data_ref.deref(&shared));
    // Output
    //Data("Hello, World!", 155, true, [Data("", 0, false, [])])

    assert_eq!(
        *data_ref.deref(&shared),
        Data(
            String::from("Hello, World!"),
            155,
            true,
            vec![Data("".into(), 0, false, vec![])]
        )
    );
    assert_eq!(
        *clone.deref(&shared),
        Data(
            String::from("Hello, World!"),
            155,
            true,
            vec![Data("".into(), 0, false, vec![])]
        )
    );
    // Borrow gives out a reference to T
    print(data_ref.as_ref(&shared));
}

fn print<T: std::fmt::Debug>(data: &T) {
    // do something
    println!("{:?}", data);
}

#[test]
fn borrow_clones_share_one_vector() {
    let items: Vec<String> =
        vec!["Hello".into(), ",".into(), " ".into(), "World".into(), "!".into()];
    let (mut items, mut shared) = Borrow::new(items);
    let clone = items.clone(&mut shared);
    assert_eq!(shared.count(), 2);
    items.as_mut(&mut shared).pop();
    assert_eq!(clone.get_ref(&shared).len(), 4);
    clone.get_mut(&mut shared).pop();
    assert_eq!(items.get_ref(&shared).len(), 3);
}

#[test]
fn borrow_value_goes_with_the_last_handle() {
    let (val, runs) = counted(3);
    let (first, mut shared) = Borrow::new(val);
    let second = first.clone(&mut shared);
    first.drop(&mut shared);
    assert_eq!(runs.get(), 0);
    assert_eq!(second.deref(&shared).value, 3);
    second.drop(&mut shared);
    assert_eq!(runs.get(), 1);
    assert_eq!(shared.count(), 0);
}

#[test]
fn shared_cell_reads_and_writes() {
    let mut cell = SharedCell::new(42);
    assert_eq!(*cell.as_ref(), 42);
    *cell.as_mut() = 10;
    assert_eq!(*cell.as_ref(), 10);
}

#[test]
fn java_cell_clones_share_one_vector() {
    let items: Vec<String> =
        vec!["Hello".into(), ",".into(), " ".into(), "World".into(), "!".into()];
    let (mut items, mut shared) = JavaCell::new(items);
    let mut clone = items.clone(&mut shared);
    items.deref_mut(&mut shared).pop();
    assert_eq!(clone.deref(&shared).len(), 4);
    clone.deref_mut(&mut shared).push("?".into());
    assert_eq!(items.deref(&shared).len(), 5);
    assert_eq!(items.deref(&shared)[4], "?");
}

#[test]
fn java_cell_value_goes_with_the_last_handle() {
    let (val, runs) = counted(3);
    let (first, mut shared) = JavaCell::new(val);
    let second = first.clone(&mut shared);
    assert_eq!(shared.count(), 2);
    second.drop(&mut shared);
    assert_eq!(runs.get(), 0);
    assert_eq!(first.deref(&shared).value, 3);
    first.drop(&mut shared);
    assert_eq!(runs.get(), 1);
}

#[test]
fn rc_cell_clone_sees_the_update() {
    let (rc_cell, mut shared) = RcCell::new(42);
    let shared_rc_cell = rc_cell.clone(&mut shared);

    let cell = rc_cell.deref_mut(&mut shared);
    let mut guard = cell.borrow_mut();
    *guard.deref_mut(cell) += 1;
    guard.drop(cell);

    let cell = shared_rc_cell.deref_mut(&mut shared);
    let guard = cell.borrow();
    assert_eq!(*guard.deref(cell), 43);
    assert!(cell.try_borrow_mut().is_none());
    guard.drop(cell);

    let cell = rc_cell.deref(&shared);
    let copy = cell.clone();
    assert_eq!(copy.take(), 43);
}

#[test]
fn rc_cell_goes_with_the_last_handle() {
    let (val, runs) = counted(3);
    let (first, mut shared) = RcCell::new(val);
    let second = first.clone(&mut shared);
    first.drop(&mut shared);
    assert_eq!(shared.count(), 1);
    assert_eq!(runs.get(), 0);
    second.drop(&mut shared);
    assert_eq!(runs.get(), 1);
}

#[test]
fn hazard_cell_writes_are_seen_by_all_handles() {
    let (mut first, mut shared) = HazardCell::new(vec![1]);
    let second = first.clone(&mut shared);
    first.deref_mut(&mut shared).push(2);
    second.as_mut(&mut shared).push(3);
    assert_eq!(first.as_ref(&shared), &vec![1, 2, 3]);
    assert_eq!(second.deref(&shared), &vec![1, 2, 3]);
    is_send(&first);
    is_send(&shared);
    first.drop(&mut shared);
    assert_eq!(shared.count(), 1);
    assert_eq!(second.as_ref(&shared).len(), 3);
    second.drop(&mut shared);
    assert_eq!(shared.count(), 0);
}
