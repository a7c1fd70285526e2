//! List, wrapper, resource, cycle and tree scenarios.

use smart_pointers::cycle_list::{self, CycleNode};
use smart_pointers::exclusive_list::List;
use smart_pointers::my_box::MyBox;
use smart_pointers::rc_list::{self, RcListNode};
use smart_pointers::rc_store::RcStore;
use smart_pointers::resource::CustomSmartPointer;
use smart_pointers::tree;

#[test]
fn exclusive_list_holds_its_values() {
    let list = List::cons(1, List::cons(2, List::cons(3, List::nil())));
    assert_eq!(list.values(), vec![1, 2, 3]);
    assert_eq!(List::nil().values(), Vec::<i32>::new());
}

#[test]
fn wrapper_derefs_to_the_value() {
    let x = 5;
    let y = MyBox::new(x);
    assert_eq!(x, 5);
    assert_eq!(*y.deref(), 5);
}

#[test]
fn wrapper_resolves_through_two_levels() {
    let m = MyBox::new(String::from("Rust"));
    // One explicit step through the wrapper, one through the string: the
    // same characters come out as a plain string slice.
    let name: &str = m.deref().as_str();
    assert_eq!(name, "Rust");
    assert_eq!(m.into_inner(), "Rust");
}

#[test]
fn resource_releases_exactly_once() {
    let c = CustomSmartPointer::new(String::from("my stuff"));
    assert_eq!(c.data(), "my stuff");
    // Early release consumes the owner; the payload comes back once.
    let released = c.release();
    assert_eq!(released, "my stuff");
}

#[test]
fn shared_tail_counts_follow_owners() {
    let mut store: RcStore<RcListNode> = RcStore::new();

    // a = [5, 10]
    let nil = rc_list::new_nil(&mut store);
    let ten = rc_list::new_cons(&mut store, 10, nil);
    let a = rc_list::new_cons(&mut store, 5, ten);
    assert_eq!(store.strong_count(&a), 1);
    assert_eq!(rc_list::head_value(&store, &a), Some(5));

    // b = [3, ...a]: sharing costs one handle clone, and the count reads 2.
    let a_for_b = store.clone_strong(&a);
    let b = rc_list::new_cons(&mut store, 3, a_for_b);
    assert_eq!(store.strong_count(&a), 2);

    // c = [4, ...a] in an inner scope.
    let a_for_c = store.clone_strong(&a);
    let c = rc_list::new_cons(&mut store, 4, a_for_c);
    assert_eq!(store.strong_count(&a), 3);

    // c goes out of scope: its node is released, and the handle it held
    // to `a` is dropped with it, so the count falls back by exactly one.
    match store.drop_strong(c) {
        Some(RcListNode::Cons(4, a_held)) => {
            assert!(store.drop_strong(a_held).is_none());
        }
        _ => panic!("c owned its node alone"),
    }
    assert_eq!(store.strong_count(&a), 2);

    assert_eq!(rc_list::values(&store, &a, 10), Some(vec![5, 10]));
    assert_eq!(rc_list::values(&store, &b, 10), Some(vec![3, 5, 10]));
    // A fuel too small to walk the chain yields nothing instead of looping.
    assert_eq!(rc_list::values(&store, &b, 2), None);
}

#[test]
fn rebinding_a_tail_builds_a_cycle_and_counts_it() {
    let mut store: RcStore<CycleNode> = RcStore::new();

    // a = [5]; b = [10, ...a].
    let nil = cycle_list::new_nil(&mut store);
    let a = cycle_list::new_cons(&mut store, 5, nil);
    let a_for_b = store.clone_strong(&a);
    let b = cycle_list::new_cons(&mut store, 10, a_for_b);
    assert_eq!(store.strong_count(&a), 2);
    assert_eq!(store.strong_count(&b), 1);

    // The tail of `b` is reachable: a fresh handle to it is `a`'s block.
    let t = cycle_list::clone_tail(&mut store, &b).expect("b has a tail");
    assert_eq!(store.strong_count(&a), 3);
    assert!(store.drop_strong(t).is_none());
    assert_eq!(store.strong_count(&a), 2);

    // Rebind a's tail to point back at b: the ancestor gains one strong
    // referrer, and the handle the slot held before comes back out.
    let b_for_a = store.clone_strong(&b);
    let prev = cycle_list::set_tail(&mut store, &a, b_for_a);
    assert_eq!(store.strong_count(&b), 2);
    match store.drop_strong(prev) {
        Some(CycleNode::Nil) => {}
        _ => panic!("a's old tail was the empty list"),
    }

    // The cycle leaks by design: dropping both outer handles releases
    // neither block, each is still owned by the other's node. No traversal
    // is attempted.
    assert!(store.drop_strong(a).is_none());
    assert!(store.drop_strong(b).is_none());
}

#[test]
fn parent_is_weak_and_upgrade_fails_after_drop() {
    let mut store = RcStore::new();

    // A leaf with no parent set reports the explicit empty result.
    let leaf = tree::new_node(&mut store, 3);
    assert!(tree::upgrade_parent(&mut store, &leaf).is_none());
    assert_eq!(store.strong_count(&leaf), 1);
    assert_eq!(store.weak_count(&leaf), 0);

    // A branch adopts the leaf and the leaf points weakly back at it.
    let branch = tree::new_node(&mut store, 5);
    let leaf_for_branch = store.clone_strong(&leaf);
    tree::add_child(&mut store, &branch, leaf_for_branch);
    assert_eq!(store.strong_count(&leaf), 2);

    let w = store.downgrade(&branch);
    assert!(tree::set_parent(&mut store, &leaf, w).is_none());
    assert_eq!(store.strong_count(&branch), 1);
    assert_eq!(store.weak_count(&branch), 1);

    // While the branch lives, the upgrade yields it.
    let up = tree::upgrade_parent(&mut store, &leaf).expect("branch is live");
    assert_eq!(tree::value_of(&store, &up), 5);
    assert_eq!(store.strong_count(&branch), 2);
    assert!(store.drop_strong(up).is_none());

    // The branch's last owner goes: its children handles are dropped with
    // it, and the weak back-reference no longer upgrades.
    assert_eq!(tree::child_count(&store, &branch), 1);
    let node = store.drop_strong(branch).expect("last owner releases the node");
    for child in node.children {
        store.drop_strong(child);
    }
    assert!(tree::upgrade_parent(&mut store, &leaf).is_none());

    // The leaf itself is untouched by the parent relationship.
    assert_eq!(store.strong_count(&leaf), 1);
    assert_eq!(tree::value_of(&store, &leaf), 3);
}
