//! A shared list whose payloads are shared mutable cells.
//!
//! The list shape is the shared list again — nodes and tails owned through
//! reference-counted handles — but each payload is an alias of a mutable
//! cell, so one cell can be the payload of nodes belonging to several list
//! heads at once, and a mutation through any alias is seen through every
//! list at the next read.

use crate::cell_store::{cell_live, cell_store_wf, CellError, CellModel, CellRef, CellStore};
use crate::cell_store::BorrowFlag;
use crate::rc_store::{alloc_model, in_bounds, live, store_wf, EntryModel, RcStore, StrongRef};
use vstd::prelude::*;

verus! {

/// A node: an alias of a shared mutable cell, and an owning handle to the
/// rest of the list; or the empty list.
pub enum CellListNode {
    Cons(CellRef, StrongRef),
    Nil,
}

/// The cell the head node's payload aliases, if the list is not empty.
pub open spec fn head_cell_id(s: Seq<EntryModel<CellListNode>>, i: int) -> Option<int> {
    match s[i].value {
        Some(CellListNode::Cons(c, _)) => Some(c@),
        _ => None,
    }
}

/// Allocate the empty list.
pub fn new_nil(store: &mut RcStore<CellListNode>) -> (h: StrongRef)
    requires
        store_wf(old(store)@),
    ensures
        store_wf(final(store)@),
        final(store)@ == alloc_model(old(store)@, CellListNode::Nil),
        h@ == old(store)@.len(),
        live(final(store)@, h@),
        final(store)@[h@].strong == 1,
        forall|j: int| in_bounds(old(store)@, j) ==> final(store)@[j] == old(store)@[j],
{
    store.allocate(CellListNode::Nil)
}

/// Wrap a cell alias and an owning handle to a shared tail into a fresh
/// node. The alias moves into the node, so the cell's count is untouched
/// here; the caller raised it by cloning when it chose to share the cell.
pub fn new_cons(store: &mut RcStore<CellListNode>, payload: CellRef, next: StrongRef) -> (h:
    StrongRef)
    requires
        store_wf(old(store)@),
    ensures
        store_wf(final(store)@),
        final(store)@ == alloc_model(old(store)@, CellListNode::Cons(payload, next)),
        h@ == old(store)@.len(),
        live(final(store)@, h@),
        final(store)@[h@].strong == 1,
        head_cell_id(final(store)@, h@) == Some(payload@),
        forall|j: int| in_bounds(old(store)@, j) ==> final(store)@[j] == old(store)@[j],
{
    store.allocate(CellListNode::Cons(payload, next))
}

/// Read the head node's cell through its stored alias: the value seen is
/// the cell's current value, whichever alias last wrote it. Fails with
/// the cell's borrow error while an exclusive view is outstanding; yields
/// nothing on the empty list.
pub fn head_cell_read(
    nodes: &RcStore<CellListNode>,
    cells: &CellStore,
    h: &StrongRef,
) -> (r: Option<Result<i32, CellError>>)
    requires
        store_wf(nodes@),
        live(nodes@, h@),
        cell_store_wf(cells@),
        (match head_cell_id(nodes@, h@) {
            Some(c) => cell_live(cells@, c),
            None => true,
        }),
    ensures
        (match head_cell_id(nodes@, h@) {
            None => r is None,
            Some(c) => r matches Some(inner) && ((inner is Ok) <==> cells@[c].flag
                != BorrowFlag::Writing) && (inner matches Ok(v) ==> Some(v) == cells@[c].value)
                && (inner matches Err(e) ==> e == CellError::BorrowConflict),
        }),
{
    match nodes.get(h) {
        CellListNode::Cons(c, _) => Some(cells.try_read(c)),
        CellListNode::Nil => None,
    }
}

} // verus!
