//! A shared list whose tail can be rebound after construction.
//!
//! Because the `next` slot of a node can be pointed at any other node —
//! including an ancestor — strong-reference cycles can be built on
//! purpose. The model permits this and keeps every count exact: the node
//! that gains a new strong referrer reads one higher afterwards. A cycle
//! of strong references is never reclaimed (no owner's count can reach
//! zero), which is the lesson the pattern demonstrates, so no traversal of
//! a rebound list is offered here.

use crate::rc_store::{clone_model, in_bounds, live, store_wf, EntryModel, RcStore, StrongRef};
use vstd::prelude::*;

verus! {

/// A node of the rebindable list: a value and a rebindable owning handle
/// to the rest, or the empty list.
pub enum CycleNode {
    Cons(i32, StrongRef),
    Nil,
}

/// The block the node's tail points at, if the node has one.
pub open spec fn tail_id(s: Seq<EntryModel<CycleNode>>, i: int) -> Option<int> {
    match s[i].value {
        Some(CycleNode::Cons(_, next)) => Some(next@),
        _ => None,
    }
}

/// Allocate the empty list.
pub fn new_nil(store: &mut RcStore<CycleNode>) -> (h: StrongRef)
    requires
        store_wf(old(store)@),
    ensures
        store_wf(final(store)@),
        h@ == old(store)@.len(),
        final(store)@.len() == old(store)@.len() + 1,
        live(final(store)@, h@),
        final(store)@[h@].strong == 1,
        final(store)@[h@].value == Some(CycleNode::Nil),
        forall|j: int| in_bounds(old(store)@, j) ==> final(store)@[j] == old(store)@[j],
{
    store.allocate(CycleNode::Nil)
}

/// Wrap a value and an owning handle into a fresh node whose tail can
/// later be rebound.
pub fn new_cons(store: &mut RcStore<CycleNode>, v: i32, next: StrongRef) -> (h: StrongRef)
    requires
        store_wf(old(store)@),
    ensures
        store_wf(final(store)@),
        h@ == old(store)@.len(),
        final(store)@.len() == old(store)@.len() + 1,
        live(final(store)@, h@),
        final(store)@[h@].strong == 1,
        final(store)@[h@].value == Some(CycleNode::Cons(v, next)),
        tail_id(final(store)@, h@) == Some(next@),
        forall|j: int| in_bounds(old(store)@, j) ==> final(store)@[j] == old(store)@[j],
{
    store.allocate(CycleNode::Cons(v, next))
}

/// Take a fresh owning handle to the node's tail — the runtime view of
/// "give me the next slot". The tail's strong count rises by one; the
/// empty list has no tail and nothing moves.
pub fn clone_tail(store: &mut RcStore<CycleNode>, h: &StrongRef) -> (r: Option<StrongRef>)
    requires
        store_wf(old(store)@),
        live(old(store)@, h@),
        (match tail_id(old(store)@, h@) {
            Some(t) => live(old(store)@, t) && old(store)@[t].strong < u64::MAX,
            None => true,
        }),
    ensures
        store_wf(final(store)@),
        final(store)@.len() == old(store)@.len(),
        (match tail_id(old(store)@, h@) {
            Some(t) => final(store)@ == clone_model(old(store)@, t) && (r matches Some(h2)
                && h2@ == t),
            None => final(store)@ == old(store)@ && r is None,
        }),
        final(store)@[h@].value == old(store)@[h@].value,
{
    let node = store.replace(h, CycleNode::Nil);
    let r = match &node {
        CycleNode::Cons(_, next) => Some(store.clone_strong(next)),
        CycleNode::Nil => None,
    };
    let _ = store.replace(h, node);
    proof {
        match tail_id(old(store)@, h@) {
            Some(t) => {
                assert(store@ =~= clone_model(old(store)@, t));
            },
            None => {
                assert(store@ =~= old(store)@);
            },
        }
    }
    r
}

/// Rebind the node's tail to `new_next`, handing back the handle the slot
/// held before, so its owner can drop it. No count moves here: the caller
/// supplies the new handle (cloning it raised the target's count) and
/// receives the old one. Rebinding at an ancestor is allowed and creates a
/// strong cycle.
pub fn set_tail(store: &mut RcStore<CycleNode>, h: &StrongRef, new_next: StrongRef) -> (prev:
    StrongRef)
    requires
        store_wf(old(store)@),
        live(old(store)@, h@),
        old(store)@[h@].value matches Some(CycleNode::Cons(_, _)),
    ensures
        store_wf(final(store)@),
        final(store)@.len() == old(store)@.len(),
        forall|j: int|
            in_bounds(old(store)@, j) ==> final(store)@[j].strong == old(store)@[j].strong
                && final(store)@[j].weak == old(store)@[j].weak,
        forall|j: int| in_bounds(old(store)@, j) && j != h@ ==> final(store)@[j] == old(store)@[j],
        (match (final(store)@[h@].value, old(store)@[h@].value) {
            (Some(CycleNode::Cons(v2, n2)), Some(CycleNode::Cons(v1, n1))) => v2 == v1 && n2
                == new_next && prev == n1,
            _ => false,
        }),
        tail_id(final(store)@, h@) == Some(new_next@),
{
    let v = match store.get(h) {
        CycleNode::Cons(x, _) => *x,
        CycleNode::Nil => vstd::pervasive::unreached(),
    };
    let node = store.replace(h, CycleNode::Cons(v, new_next));
    match node {
        CycleNode::Cons(_, prev) => prev,
        CycleNode::Nil => vstd::pervasive::unreached(),
    }
}

} // verus!
