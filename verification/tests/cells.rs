//! Shared mutable cells: alias visibility and the runtime borrow rule.

use smart_pointers::cell_list;
use smart_pointers::cell_store::{CellError, CellStore};
use smart_pointers::rc_store::RcStore;

#[test]
fn write_through_one_alias_is_read_through_another() {
    let mut cells = CellStore::new();
    let a = cells.alloc_cell(5);
    let b = cells.clone_cell(&a);
    assert_eq!(cells.cell_strong_count(&a), 2);

    cells.try_borrow_mut(&a).expect("no view outstanding");
    cells.write(&a, 15);
    cells.end_borrow_mut(&a);

    // The other alias of the same cell sees the new value at its next read.
    assert_eq!(cells.try_read(&b), Ok(15));

    assert_eq!(cells.drop_cell(b), None);
    assert_eq!(cells.drop_cell(a), Some(15));
}

#[test]
fn second_exclusive_view_fails_fast() {
    let mut cells = CellStore::new();
    let a = cells.alloc_cell(1);
    let b = cells.clone_cell(&a);

    cells.try_borrow_mut(&a).expect("first view is granted");
    // A nested request through any alias fails rather than corrupt state.
    assert_eq!(cells.try_borrow_mut(&b), Err(CellError::BorrowConflict));
    // Reads are refused too while the exclusive view is outstanding.
    assert_eq!(cells.try_read(&b), Err(CellError::BorrowConflict));

    cells.end_borrow_mut(&a);
    assert_eq!(cells.try_read(&b), Ok(1));
    cells.drop_cell(a);
    cells.drop_cell(b);
}

#[test]
fn one_cell_feeds_three_lists() {
    // Three list heads share one mutable integer cell as a payload, and a
    // single mutation is visible through every head.
    let mut cells = CellStore::new();
    let mut nodes = RcStore::new();

    let value = cells.alloc_cell(5);

    let nil = cell_list::new_nil(&mut nodes);
    let value_alias = cells.clone_cell(&value);
    let a = cell_list::new_cons(&mut nodes, value_alias, nil);

    let b_payload = cells.alloc_cell(3);
    let a_tail = nodes.clone_strong(&a);
    let b = cell_list::new_cons(&mut nodes, b_payload, a_tail);

    let c_payload = cells.alloc_cell(4);
    let a_tail2 = nodes.clone_strong(&a);
    let c = cell_list::new_cons(&mut nodes, c_payload, a_tail2);

    // The head of `a` is now shared by three owners: `a`, `b`'s tail and
    // `c`'s tail.
    assert_eq!(nodes.strong_count(&a), 3);
    // The cell is aliased by the test and by `a`'s payload.
    assert_eq!(cells.cell_strong_count(&value), 2);

    cells.try_borrow_mut(&value).expect("no view outstanding");
    cells.write(&value, 15);
    cells.end_borrow_mut(&value);

    // Every list that reaches the shared cell reads the new value.
    assert_eq!(cell_list::head_cell_read(&nodes, &cells, &a), Some(Ok(15)));
    assert_eq!(cell_list::head_cell_read(&nodes, &cells, &b), Some(Ok(3)));
    assert_eq!(cell_list::head_cell_read(&nodes, &cells, &c), Some(Ok(4)));
    assert_eq!(cells.try_read(&value), Ok(15));
}
