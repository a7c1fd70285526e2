//! A recursive list whose tails are shared by reference counting.
//!
//! A node holds a value and an owning handle to the rest of the list, so
//! several lists may own the same tail subgraph; the tail is released only
//! when its last owner goes. Heads stay independent: replacing one list's
//! head never moves a sibling, because only the tail is shared.

use crate::rc_store::{alloc_model, in_bounds, live, store_wf, EntryModel, RcStore, StrongRef};
use vstd::prelude::*;

verus! {

/// A shared-list node: a value and an owning handle to the rest, or the
/// empty list.
pub enum RcListNode {
    Cons(i32, StrongRef),
    Nil,
}

/// The values reachable from block `i`, head first, following at most
/// `fuel` shared edges; nothing if the chain is broken or longer than
/// `fuel`.
pub open spec fn values_model(
    s: Seq<EntryModel<RcListNode>>,
    i: int,
    fuel: nat,
) -> Option<Seq<i32>>
    decreases fuel,
{
    if !live(s, i) {
        None
    } else {
        match s[i].value {
            Some(RcListNode::Nil) => Some(Seq::empty()),
            Some(RcListNode::Cons(v, next)) => if fuel == 0 {
                None
            } else {
                match values_model(s, next@, (fuel - 1) as nat) {
                    Some(rest) => Some(seq![v].add(rest)),
                    None => None,
                }
            },
            None => None,
        }
    }
}

/// Allocate the empty list.
pub fn new_nil(store: &mut RcStore<RcListNode>) -> (h: StrongRef)
    requires
        store_wf(old(store)@),
    ensures
        store_wf(final(store)@),
        final(store)@ == alloc_model(old(store)@, RcListNode::Nil),
        h@ == old(store)@.len(),
        live(final(store)@, h@),
        final(store)@[h@].strong == 1,
        forall|j: int| in_bounds(old(store)@, j) ==> final(store)@[j] == old(store)@[j],
{
    store.allocate(RcListNode::Nil)
}

/// Wrap a value and an owning handle to a shared tail into a fresh node.
/// Sharing the tail further costs only a handle clone, never a copy of
/// the tail's data.
pub fn new_cons(store: &mut RcStore<RcListNode>, v: i32, next: StrongRef) -> (h: StrongRef)
    requires
        store_wf(old(store)@),
    ensures
        store_wf(final(store)@),
        final(store)@ == alloc_model(old(store)@, RcListNode::Cons(v, next)),
        h@ == old(store)@.len(),
        live(final(store)@, h@),
        final(store)@[h@].strong == 1,
        forall|j: int| in_bounds(old(store)@, j) ==> final(store)@[j] == old(store)@[j],
{
    store.allocate(RcListNode::Cons(v, next))
}

/// The value at the head of the list, or nothing for the empty list.
pub fn head_value(store: &RcStore<RcListNode>, h: &StrongRef) -> (r: Option<i32>)
    requires
        store_wf(store@),
        live(store@, h@),
    ensures
        (match store@[h@].value {
            Some(RcListNode::Cons(v, _)) => r == Some(v),
            Some(RcListNode::Nil) => r is None,
            None => false,
        }),
{
    match store.get(h) {
        RcListNode::Cons(v, _) => Some(*v),
        RcListNode::Nil => None,
    }
}

/// Collect the values of the list headed at `h`, following at most `fuel`
/// shared edges; yields nothing exactly when the model does — on a broken
/// or over-long chain.
pub fn values(store: &RcStore<RcListNode>, h: &StrongRef, fuel: u64) -> (r: Option<Vec<i32>>)
    requires
        store_wf(store@),
        live(store@, h@),
    ensures
        (r is Some) <==> values_model(store@, h@, fuel as nat) is Some,
        (r matches Some(vs) ==> values_model(store@, h@, fuel as nat) == Some(vs@)),
    decreases fuel,
{
    match store.get(h) {
        RcListNode::Nil => Some(Vec::new()),
        RcListNode::Cons(v, next) => {
            if fuel == 0 {
                None
            } else if !store.is_live(next) {
                None
            } else {
                match values(store, next, fuel - 1) {
                    Some(mut rest) => {
                        rest.insert(0, *v);
                        proof {
                            if let Some(ms) = values_model(store@, next@, (fuel - 1) as nat) {
                                assert(rest@ =~= seq![*v].add(ms));
                            }
                        }
                        Some(rest)
                    },
                    None => None,
                }
            }
        },
    }
}

} // verus!
