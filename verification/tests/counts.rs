//! Reference-count behaviour of the shared-ownership store.

use smart_pointers::rc_store::RcStore;

#[test]
fn clone_increments_and_drop_decrements() {
    let mut store: RcStore<i32> = RcStore::new();
    let h = store.allocate(7);
    assert_eq!(store.strong_count(&h), 1);

    let h2 = store.clone_strong(&h);
    assert_eq!(store.strong_count(&h), 2);

    // Dropping the clone releases nothing: the count was not yet zero.
    assert_eq!(store.drop_strong(h2), None);
    assert_eq!(store.strong_count(&h), 1);

    // Dropping the last owner releases the value, exactly now.
    assert_eq!(store.drop_strong(h), Some(7));
}

#[test]
fn storage_released_only_at_zero() {
    let mut store: RcStore<String> = RcStore::new();
    let a = store.allocate(String::from("shared"));
    let b = store.clone_strong(&a);
    let c = store.clone_strong(&a);
    assert_eq!(store.strong_count(&a), 3);
    assert_eq!(store.drop_strong(c), None);
    assert_eq!(store.drop_strong(b), None);
    assert_eq!(store.drop_strong(a), Some(String::from("shared")));
}

#[test]
fn weak_count_tracks_weak_handles_only() {
    let mut store: RcStore<i32> = RcStore::new();
    let h = store.allocate(11);
    assert_eq!(store.strong_count(&h), 1);
    assert_eq!(store.weak_count(&h), 0);

    let w1 = store.downgrade(&h);
    assert_eq!(store.weak_count(&h), 1);
    let w2 = store.downgrade(&h);
    assert_eq!(store.weak_count(&h), 2);

    // Weak handles never touch the strong count.
    assert_eq!(store.strong_count(&h), 1);

    store.drop_weak(w2);
    assert_eq!(store.weak_count(&h), 1);
    assert_eq!(store.strong_count(&h), 1);

    // And they never keep the value alive.
    assert_eq!(store.drop_strong(h), Some(11));
    assert_eq!(store.strong_count_of_weak(&w1), 0);
    store.drop_weak(w1);
}

#[test]
fn upgrade_succeeds_while_live_and_fails_after() {
    let mut store: RcStore<i32> = RcStore::new();
    let h = store.allocate(42);
    let w = store.downgrade(&h);

    // Live referent: the upgrade yields a usable owning handle.
    let up = store.upgrade(&w).expect("referent is live");
    assert_eq!(*store.get(&up), 42);
    assert_eq!(store.strong_count(&h), 2);
    assert_eq!(store.drop_strong(up), None);

    // Last owner gone: every later upgrade yields the explicit empty result.
    assert_eq!(store.drop_strong(h), Some(42));
    assert!(store.upgrade(&w).is_none());
    assert!(store.upgrade(&w).is_none());
    store.drop_weak(w);
}

#[test]
fn replace_swaps_value_without_touching_counts() {
    let mut store: RcStore<i32> = RcStore::new();
    let h = store.allocate(1);
    let h2 = store.clone_strong(&h);
    let prev = store.replace(&h2, 9);
    assert_eq!(prev, 1);
    assert_eq!(store.strong_count(&h), 2);
    assert_eq!(*store.get(&h), 9);
    assert_eq!(store.drop_strong(h2), None);
    assert_eq!(store.drop_strong(h), Some(9));
}
