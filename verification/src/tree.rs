//! An owning tree with weak back-references to parents.
//!
//! A node owns its children through strong handles, so a parent keeps its
//! children alive; a child reaches its parent only through a weak handle,
//! which never counts toward the parent's strong count — so the
//! parent/child linkage is cycle-free and a parent is reclaimed as soon as
//! its last strong owner goes, children notwithstanding. Reading through
//! the back-reference is upgrade-or-fail: it yields a temporary strong
//! handle while the parent lives, and an explicit empty result once it is
//! gone or was never set.

use crate::rc_store::{
    clone_model, in_bounds, live, store_wf, EntryModel, RcStore, StrongRef, WeakRef,
};
use vstd::prelude::*;

verus! {

/// A tree node: a value, strongly-owned children, and an optional weak
/// back-reference to a parent.
pub struct TreeNode {
    pub value: i32,
    pub children: Vec<StrongRef>,
    pub parent: Option<WeakRef>,
}

/// The value stored at block `i`, while it is held.
pub open spec fn node_value(s: Seq<EntryModel<TreeNode>>, i: int) -> Option<i32> {
    match s[i].value {
        Some(n) => Some(n.value),
        None => None,
    }
}

/// The block the node's weak parent reference points at, if one is set.
pub open spec fn parent_id(s: Seq<EntryModel<TreeNode>>, i: int) -> Option<int> {
    match s[i].value {
        Some(n) => match n.parent {
            Some(w) => Some(w@),
            None => None,
        },
        None => None,
    }
}

/// The blocks the node's children handles point at, in insertion order.
pub open spec fn children_ids(s: Seq<EntryModel<TreeNode>>, i: int) -> Seq<int> {
    match s[i].value {
        Some(n) => n.children@.map_values(|c: StrongRef| c@),
        None => Seq::empty(),
    }
}

/// Allocate a fresh node with no children and no parent set.
pub fn new_node(store: &mut RcStore<TreeNode>, value: i32) -> (h: StrongRef)
    requires
        store_wf(old(store)@),
    ensures
        store_wf(final(store)@),
        h@ == old(store)@.len(),
        final(store)@.len() == old(store)@.len() + 1,
        live(final(store)@, h@),
        final(store)@[h@].strong == 1,
        final(store)@[h@].weak == 0,
        node_value(final(store)@, h@) == Some(value),
        parent_id(final(store)@, h@) is None,
        children_ids(final(store)@, h@) == Seq::<int>::empty(),
        forall|j: int| in_bounds(old(store)@, j) ==> final(store)@[j] == old(store)@[j],
{
    let h = store.allocate(TreeNode { value, children: Vec::new(), parent: None });
    proof {
        assert(children_ids(store@, h@) =~= Seq::<int>::empty());
    }
    h
}

/// Adopt `child` into the node's children: the handle itself moves into
/// the collection, so the child's strong count is untouched here — the
/// caller raised it by cloning when it chose to share the child.
pub fn add_child(store: &mut RcStore<TreeNode>, parent: &StrongRef, child: StrongRef)
    requires
        store_wf(old(store)@),
        live(old(store)@, parent@),
    ensures
        store_wf(final(store)@),
        final(store)@.len() == old(store)@.len(),
        forall|j: int|
            in_bounds(old(store)@, j) ==> final(store)@[j].strong == old(store)@[j].strong
                && final(store)@[j].weak == old(store)@[j].weak,
        forall|j: int|
            in_bounds(old(store)@, j) && j != parent@ ==> final(store)@[j] == old(store)@[j],
        (match (final(store)@[parent@].value, old(store)@[parent@].value) {
            (Some(n2), Some(n1)) => n2.value == n1.value && n2.parent == n1.parent
                && n2.children@ == n1.children@.push(child),
            _ => false,
        }),
        children_ids(final(store)@, parent@) == children_ids(old(store)@, parent@).push(child@),
{
    let mut node = store.replace(parent, TreeNode { value: 0, children: Vec::new(), parent: None });
    node.children.push(child);
    let _ = store.replace(parent, node);
    proof {
        assert(children_ids(store@, parent@) =~= children_ids(old(store)@, parent@).push(
            child@,
        ));
    }
}

/// Set (or rebind) the node's weak back-reference to its parent, handing
/// back the weak handle it held before so its owner can drop it.
pub fn set_parent(store: &mut RcStore<TreeNode>, child: &StrongRef, w: WeakRef) -> (prev: Option<
    WeakRef,
>)
    requires
        store_wf(old(store)@),
        live(old(store)@, child@),
    ensures
        store_wf(final(store)@),
        final(store)@.len() == old(store)@.len(),
        forall|j: int|
            in_bounds(old(store)@, j) ==> final(store)@[j].strong == old(store)@[j].strong
                && final(store)@[j].weak == old(store)@[j].weak,
        forall|j: int|
            in_bounds(old(store)@, j) && j != child@ ==> final(store)@[j] == old(store)@[j],
        (match (final(store)@[child@].value, old(store)@[child@].value) {
            (Some(n2), Some(n1)) => n2.value == n1.value && n2.children == n1.children
                && n2.parent == Some(w) && prev == n1.parent,
            _ => false,
        }),
        parent_id(final(store)@, child@) == Some(w@),
{
    let node = store.replace(child, TreeNode { value: 0, children: Vec::new(), parent: None });
    let TreeNode { value, children, parent } = node;
    let _ = store.replace(child, TreeNode { value, children, parent: Some(w) });
    parent
}

/// Ask for the node's parent: upgrade-or-fail, the only way to read
/// through the weak back-reference. While the parent is live this yields
/// a fresh strong handle to it (raising its strong count by one); once
/// the parent is gone, or was never set, it yields an explicit empty
/// result and the store is untouched.
pub fn upgrade_parent(store: &mut RcStore<TreeNode>, child: &StrongRef) -> (r: Option<StrongRef>)
    requires
        store_wf(old(store)@),
        live(old(store)@, child@),
        (match parent_id(old(store)@, child@) {
            Some(p) => in_bounds(old(store)@, p) && old(store)@[p].strong < u64::MAX,
            None => true,
        }),
    ensures
        store_wf(final(store)@),
        final(store)@.len() == old(store)@.len(),
        (match parent_id(old(store)@, child@) {
            None => r is None && final(store)@ == old(store)@,
            Some(p) => {
                &&& ((r is Some) <==> old(store)@[p].strong > 0)
                &&& (old(store)@[p].strong > 0 ==> final(store)@ == clone_model(old(store)@, p)
                    && (r matches Some(h2) && h2@ == p))
                &&& (old(store)@[p].strong == 0 ==> final(store)@ == old(store)@)
            },
        }),
{
    let node = store.replace(child, TreeNode { value: 0, children: Vec::new(), parent: None });
    let r = match &node.parent {
        Some(w) => store.upgrade(w),
        None => None,
    };
    let _ = store.replace(child, node);
    proof {
        match parent_id(old(store)@, child@) {
            Some(p) => {
                if old(store)@[p].strong > 0 {
                    assert(store@ =~= clone_model(old(store)@, p));
                } else {
                    assert(store@ =~= old(store)@);
                }
            },
            None => {
                assert(store@ =~= old(store)@);
            },
        }
    }
    r
}

/// The node's stored value.
pub fn value_of(store: &RcStore<TreeNode>, h: &StrongRef) -> (v: i32)
    requires
        store_wf(store@),
        live(store@, h@),
    ensures
        node_value(store@, h@) == Some(v),
{
    store.get(h).value
}

/// How many children the node owns.
pub fn child_count(store: &RcStore<TreeNode>, h: &StrongRef) -> (n: usize)
    requires
        store_wf(store@),
        live(store@, h@),
    ensures
        n == children_ids(store@, h@).len(),
{
    store.get(h).children.len()
}

} // verus!
