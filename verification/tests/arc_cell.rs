use queue_experiments::arc_cell::ArcCell;
use std::sync::Arc;

#[test]
fn arc_cell_get_returns_initial() {
    let value = Arc::new(5_u32);
    let cell = ArcCell::new(value.clone());
    let got = cell.get();
    assert_eq!(*got, 5);
    assert!(Arc::ptr_eq(&got, &value));
}

#[test]
fn arc_cell_set_returns_previous() {
    let first = Arc::new(String::from("first"));
    let cell = ArcCell::new(first.clone());
    let old = cell.set(Arc::new(String::from("second")));
    assert!(Arc::ptr_eq(&old, &first));
    assert_eq!(*cell.get(), "second");
    assert_eq!(*cell.set(Arc::new(String::from("third"))), "second");
    assert_eq!(*cell.get(), "third");
}

#[test]
fn arc_cell_get_keeps_value_in_cell() {
    let cell = ArcCell::new(Arc::new(1_u64));
    let a = cell.get();
    let b = cell.get();
    assert!(Arc::ptr_eq(&a, &b));
    // the cell and the two copies share one allocation
    assert_eq!(Arc::strong_count(&a), 3);
}

fn assert_send_sync<T: Send + Sync>(_: &T) {}

#[test]
fn arc_cell_can_be_shared_across_threads() {
    let cell = ArcCell::new(Arc::new(3_i32));
    assert_send_sync(&cell);
    let shared = Arc::new(cell);
    let other = shared.clone();
    other.set(Arc::new(4));
    assert_eq!(*shared.get(), 4);
}
