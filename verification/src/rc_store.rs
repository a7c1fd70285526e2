//! A store of reference-counted control blocks.
//!
//! Shared ownership is modelled explicitly: every allocation creates a
//! control block holding the value together with its strong and weak counts.
//! Owning handles ([`StrongRef`]) and non-owning handles ([`WeakRef`]) are
//! opaque tickets into the store; they cannot be duplicated except through
//! the counting operations, so ordinary move semantics make each handle a
//! one-use ticket for the matching drop operation.
//!
//! The ghost image of the store is a sequence of [`EntryModel`] values, and
//! every operation's contract pins the new image as a function of the old
//! one, so that laws about whole histories (clone then drop restores the
//! store, weak handles never touch a strong count, an upgrade succeeds
//! exactly while the referent is live) are proved once and reused.

use vstd::prelude::*;

verus! {

/// Ghost image of one control block: the stored value, present exactly
/// while some owning handle is live, and the two counts.
pub ghost struct EntryModel<T> {
    pub value: Option<T>,
    pub strong: nat,
    pub weak: nat,
}

/// One control block of the store.
struct Entry<T> {
    value: Option<T>,
    strong: u64,
    weak: u64,
}

/// An owning handle: keeps the referenced block's value alive.
pub struct StrongRef {
    id: usize,
}

/// A non-owning handle: never keeps the value alive, and must be upgraded
/// before the value can be read through it.
pub struct WeakRef {
    id: usize,
}

impl View for StrongRef {
    type V = int;

    closed spec fn view(&self) -> int {
        self.id as int
    }
}

impl View for WeakRef {
    type V = int;

    closed spec fn view(&self) -> int {
        self.id as int
    }
}

/// The store of control blocks. Block identities are stable: a released
/// block keeps its slot, so counts of dead blocks remain observable.
pub struct RcStore<T> {
    entries: Vec<Entry<T>>,
}

impl<T> View for RcStore<T> {
    type V = Seq<EntryModel<T>>;

    closed spec fn view(&self) -> Seq<EntryModel<T>> {
        Seq::new(
            self.entries@.len(),
            |i: int|
                EntryModel {
                    value: self.entries@[i].value,
                    strong: self.entries@[i].strong as nat,
                    weak: self.entries@[i].weak as nat,
                },
        )
    }
}

/// The block index `i` names a block of the store image `s`.
pub open spec fn in_bounds<T>(s: Seq<EntryModel<T>>, i: int) -> bool {
    0 <= i < s.len()
}

/// The block `i` is live: at least one owning handle exists, so the value
/// is still held.
pub open spec fn live<T>(s: Seq<EntryModel<T>>, i: int) -> bool {
    in_bounds(s, i) && s[i].strong > 0
}

/// Store invariant: a block holds its value exactly while its strong count
/// is positive — storage is released when the count reaches zero and not
/// before.
pub open spec fn store_wf<T>(s: Seq<EntryModel<T>>) -> bool {
    forall|i: int| in_bounds(s, i) ==> (s[i].value is Some <==> s[i].strong > 0)
}

/// Image of the store after allocating a fresh block for `v`.
pub open spec fn alloc_model<T>(s: Seq<EntryModel<T>>, v: T) -> Seq<EntryModel<T>> {
    s.push(EntryModel { value: Some(v), strong: 1, weak: 0 })
}

/// Image of the store after cloning an owning handle to block `i`.
pub open spec fn clone_model<T>(s: Seq<EntryModel<T>>, i: int) -> Seq<EntryModel<T>> {
    s.update(i, EntryModel { value: s[i].value, strong: s[i].strong + 1, weak: s[i].weak })
}

/// Image of the store after an owning handle to block `i` is dropped: the
/// count falls by one, and the value is released exactly when the count
/// reaches zero.
pub open spec fn drop_strong_model<T>(s: Seq<EntryModel<T>>, i: int) -> Seq<EntryModel<T>> {
    if s[i].strong == 1 {
        s.update(i, EntryModel { value: None, strong: 0, weak: s[i].weak })
    } else {
        s.update(
            i,
            EntryModel { value: s[i].value, strong: (s[i].strong - 1) as nat, weak: s[i].weak },
        )
    }
}

/// Image of the store after taking a weak handle to block `i`.
pub open spec fn downgrade_model<T>(s: Seq<EntryModel<T>>, i: int) -> Seq<EntryModel<T>> {
    s.update(i, EntryModel { value: s[i].value, strong: s[i].strong, weak: s[i].weak + 1 })
}

/// Image of the store after a weak handle to block `i` is dropped.
pub open spec fn drop_weak_model<T>(s: Seq<EntryModel<T>>, i: int) -> Seq<EntryModel<T>> {
    s.update(
        i,
        EntryModel { value: s[i].value, strong: s[i].strong, weak: (s[i].weak - 1) as nat },
    )
}

/// Image of the store after attempting to upgrade a weak handle to block
/// `i`: a new owning handle appears exactly when the block is still live.
pub open spec fn upgrade_model<T>(s: Seq<EntryModel<T>>, i: int) -> Seq<EntryModel<T>> {
    if s[i].strong > 0 {
        clone_model(s, i)
    } else {
        s
    }
}

/// Image of the store after the value of live block `i` is replaced by `v`.
pub open spec fn replace_model<T>(s: Seq<EntryModel<T>>, i: int, v: T) -> Seq<EntryModel<T>> {
    s.update(i, EntryModel { value: Some(v), strong: s[i].strong, weak: s[i].weak })
}

/// The invariant survives replacing one block by a block that is itself
/// well formed.
proof fn lemma_wf_update<T>(s: Seq<EntryModel<T>>, i: int, e: EntryModel<T>)
    requires
        store_wf(s),
        in_bounds(s, i),
        e.value is Some <==> e.strong > 0,
    ensures
        store_wf(s.update(i, e)),
{
    let s2 = s.update(i, e);
    assert forall|j: int| in_bounds(s2, j) implies (s2[j].value is Some <==> s2[j].strong > 0) by {
        if j != i {
            assert(s2[j] == s[j]);
            assert(in_bounds(s, j));
        }
    }
}

/// The invariant survives appending a fresh well-formed block.
proof fn lemma_wf_push<T>(s: Seq<EntryModel<T>>, e: EntryModel<T>)
    requires
        store_wf(s),
        e.value is Some <==> e.strong > 0,
    ensures
        store_wf(s.push(e)),
{
    let s2 = s.push(e);
    assert forall|j: int| in_bounds(s2, j) implies (s2[j].value is Some <==> s2[j].strong > 0) by {
        if j < s.len() {
            assert(s2[j] == s[j]);
            assert(in_bounds(s, j));
        }
    }
}

impl<T> RcStore<T> {
    /// An empty store: no blocks, nothing allocated.
    pub fn new() -> (s: Self)
        ensures
            s@ == Seq::<EntryModel<T>>::empty(),
            store_wf(s@),
    {
        let s = RcStore { entries: Vec::new() };
        proof {
            assert(s@ =~= Seq::<EntryModel<T>>::empty());
        }
        s
    }

    /// Whether `h` names a block that is still live.
    pub fn is_live(&self, h: &StrongRef) -> (r: bool)
        ensures
            r == live(self@, h@),
    {
        h.id < self.entries.len() && self.entries[h.id].strong > 0
    }

    /// Allocate a fresh block holding `v`, with one owning handle and no
    /// weak handles.
    pub fn allocate(&mut self, v: T) -> (h: StrongRef)
        requires
            store_wf(old(self)@),
        ensures
            store_wf(final(self)@),
            final(self)@ == alloc_model(old(self)@, v),
            h@ == old(self)@.len(),
            final(self)@.len() == old(self)@.len() + 1,
            live(final(self)@, h@),
            final(self)@[h@].strong == 1,
            final(self)@[h@].weak == 0,
            final(self)@[h@].value == Some(v),
            forall|j: int| in_bounds(old(self)@, j) ==> final(self)@[j] == old(self)@[j],
    {
        let id = self.entries.len();
        self.entries.push(Entry { value: Some(v), strong: 1, weak: 0 });
        proof {
            assert(self@ =~= alloc_model(old(self)@, v));
            lemma_wf_push(old(self)@, EntryModel { value: Some(v), strong: 1nat, weak: 0nat });
        }
        StrongRef { id }
    }

    /// Clone an owning handle: the strong count of its block rises by
    /// exactly one, and nothing else changes.
    pub fn clone_strong(&mut self, h: &StrongRef) -> (h2: StrongRef)
        requires
            store_wf(old(self)@),
            live(old(self)@, h@),
            old(self)@[h@].strong < u64::MAX,
        ensures
            store_wf(final(self)@),
            final(self)@ == clone_model(old(self)@, h@),
            h2@ == h@,
            final(self)@.len() == old(self)@.len(),
            final(self)@[h@].strong == old(self)@[h@].strong + 1,
            final(self)@[h@].weak == old(self)@[h@].weak,
            final(self)@[h@].value == old(self)@[h@].value,
            forall|j: int| in_bounds(old(self)@, j) && j != h@ ==> final(self)@[j] == old(self)@[j],
    {
        let id = h.id;
        let e = &mut self.entries[id];
        e.strong = e.strong + 1;
        proof {
            assert(self@ =~= clone_model(old(self)@, h@));
            lemma_wf_update(old(self)@, h@, self@[h@]);
            assert(self@ =~= old(self)@.update(h@, self@[h@]));
        }
        StrongRef { id }
    }

    /// Drop an owning handle: the strong count falls by exactly one, and
    /// the stored value is returned — released from the store — exactly
    /// when this was the last owning handle, and not before.
    pub fn drop_strong(&mut self, h: StrongRef) -> (r: Option<T>)
        requires
            store_wf(old(self)@),
            live(old(self)@, h@),
        ensures
            store_wf(final(self)@),
            final(self)@ == drop_strong_model(old(self)@, h@),
            final(self)@.len() == old(self)@.len(),
            final(self)@[h@].strong == old(self)@[h@].strong - 1,
            final(self)@[h@].weak == old(self)@[h@].weak,
            (r is Some) <==> old(self)@[h@].strong == 1,
            old(self)@[h@].strong == 1 ==> r == old(self)@[h@].value && final(self)@[h@].value is None,
            old(self)@[h@].strong > 1 ==> final(self)@[h@].value == old(self)@[h@].value,
            forall|j: int| in_bounds(old(self)@, j) && j != h@ ==> final(self)@[j] == old(self)@[j],
    {
        let id = h.id;
        let e = &mut self.entries[id];
        if e.strong == 1 {
            e.strong = 0;
            let v = e.value.take();
            proof {
                assert(self@ =~= drop_strong_model(old(self)@, h@));
                lemma_wf_update(old(self)@, h@, self@[h@]);
                assert(self@ =~= old(self)@.update(h@, self@[h@]));
            }
            v
        } else {
            e.strong = e.strong - 1;
            proof {
                assert(self@ =~= drop_strong_model(old(self)@, h@));
                lemma_wf_update(old(self)@, h@, self@[h@]);
                assert(self@ =~= old(self)@.update(h@, self@[h@]));
            }
            None
        }
    }

    /// Take a weak handle to the block owned through `h`: the weak count
    /// rises by exactly one, and no strong count or value moves.
    pub fn downgrade(&mut self, h: &StrongRef) -> (w: WeakRef)
        requires
            store_wf(old(self)@),
            live(old(self)@, h@),
            old(self)@[h@].weak < u64::MAX,
        ensures
            store_wf(final(self)@),
            final(self)@ == downgrade_model(old(self)@, h@),
            w@ == h@,
            final(self)@.len() == old(self)@.len(),
            final(self)@[h@].weak == old(self)@[h@].weak + 1,
            final(self)@[h@].strong == old(self)@[h@].strong,
            final(self)@[h@].value == old(self)@[h@].value,
            forall|j: int| in_bounds(old(self)@, j) && j != h@ ==> final(self)@[j] == old(self)@[j],
    {
        let id = h.id;
        let e = &mut self.entries[id];
        e.weak = e.weak + 1;
        proof {
            assert(self@ =~= downgrade_model(old(self)@, h@));
            lemma_wf_update(old(self)@, h@, self@[h@]);
            assert(self@ =~= old(self)@.update(h@, self@[h@]));
        }
        WeakRef { id }
    }

    /// Drop a weak handle: the weak count falls by exactly one; strong
    /// counts and values are untouched, whether or not the block is live.
    pub fn drop_weak(&mut self, w: WeakRef)
        requires
            store_wf(old(self)@),
            in_bounds(old(self)@, w@),
            old(self)@[w@].weak > 0,
        ensures
            store_wf(final(self)@),
            final(self)@ == drop_weak_model(old(self)@, w@),
            final(self)@.len() == old(self)@.len(),
            final(self)@[w@].weak == old(self)@[w@].weak - 1,
            final(self)@[w@].strong == old(self)@[w@].strong,
            final(self)@[w@].value == old(self)@[w@].value,
            forall|j: int| in_bounds(old(self)@, j) && j != w@ ==> final(self)@[j] == old(self)@[j],
    {
        let id = w.id;
        let e = &mut self.entries[id];
        e.weak = e.weak - 1;
        proof {
            assert(self@ =~= drop_weak_model(old(self)@, w@));
            lemma_wf_update(old(self)@, w@, self@[w@]);
            assert(self@ =~= old(self)@.update(w@, self@[w@]));
        }
    }

    /// Attempt to upgrade a weak handle: yields a fresh owning handle, and
    /// raises the strong count by one, exactly when the referent is still
    /// live; yields nothing — and changes nothing — once it is gone.
    pub fn upgrade(&mut self, w: &WeakRef) -> (r: Option<StrongRef>)
        requires
            store_wf(old(self)@),
            in_bounds(old(self)@, w@),
            old(self)@[w@].strong < u64::MAX,
        ensures
            store_wf(final(self)@),
            final(self)@ == upgrade_model(old(self)@, w@),
            final(self)@.len() == old(self)@.len(),
            (r is Some) <==> old(self)@[w@].strong > 0,
            (r matches Some(h) ==> h@ == w@),
            old(self)@[w@].strong > 0 ==> final(self)@[w@].strong == old(self)@[w@].strong + 1,
            old(self)@[w@].strong == 0 ==> final(self)@ == old(self)@,
            final(self)@[w@].value == old(self)@[w@].value,
            forall|j: int| in_bounds(old(self)@, j) && j != w@ ==> final(self)@[j] == old(self)@[j],
    {
        let id = w.id;
        let e = &mut self.entries[id];
        if e.strong > 0 {
            e.strong = e.strong + 1;
            proof {
                assert(self@ =~= upgrade_model(old(self)@, w@));
                lemma_wf_update(old(self)@, w@, self@[w@]);
                assert(self@ =~= old(self)@.update(w@, self@[w@]));
            }
            Some(StrongRef { id })
        } else {
            proof {
                assert(self@ =~= upgrade_model(old(self)@, w@));
                lemma_wf_update(old(self)@, w@, self@[w@]);
                assert(self@ =~= old(self)@.update(w@, self@[w@]));
            }
            None
        }
    }

    /// The strong count of the block named by an owning handle.
    pub fn strong_count(&self, h: &StrongRef) -> (n: u64)
        requires
            in_bounds(self@, h@),
        ensures
            n == self@[h@].strong,
    {
        self.entries[h.id].strong
    }

    /// The weak count of the block named by an owning handle.
    pub fn weak_count(&self, h: &StrongRef) -> (n: u64)
        requires
            in_bounds(self@, h@),
        ensures
            n == self@[h@].weak,
    {
        self.entries[h.id].weak
    }

    /// The strong count of a block observed through a weak handle; the
    /// count of a dead block reads zero.
    pub fn strong_count_of_weak(&self, w: &WeakRef) -> (n: u64)
        requires
            in_bounds(self@, w@),
        ensures
            n == self@[w@].strong,
    {
        self.entries[w.id].strong
    }

    /// Read the value owned through `h`.
    pub fn get(&self, h: &StrongRef) -> (v: &T)
        requires
            store_wf(self@),
            live(self@, h@),
        ensures
            Some(*v) == self@[h@].value,
    {
        match &self.entries[h.id].value {
            Some(v) => v,
            None => vstd::pervasive::unreached(),
        }
    }

    /// Replace the value of the live block owned through `h`, returning
    /// the value it held; counts are untouched.
    pub fn replace(&mut self, h: &StrongRef, v: T) -> (r: T)
        requires
            store_wf(old(self)@),
            live(old(self)@, h@),
        ensures
            store_wf(final(self)@),
            final(self)@ == replace_model(old(self)@, h@, v),
            final(self)@.len() == old(self)@.len(),
            Some(r) == old(self)@[h@].value,
            final(self)@[h@].value == Some(v),
            final(self)@[h@].strong == old(self)@[h@].strong,
            final(self)@[h@].weak == old(self)@[h@].weak,
            forall|j: int| in_bounds(old(self)@, j) && j != h@ ==> final(self)@[j] == old(self)@[j],
    {
        let id = h.id;
        let e = &mut self.entries[id];
        let prev = e.value.take();
        e.value = Some(v);
        proof {
            assert(self@ =~= replace_model(old(self)@, h@, v));
            lemma_wf_update(old(self)@, h@, self@[h@]);
            assert(self@ =~= old(self)@.update(h@, self@[h@]));
        }
        match prev {
            Some(r) => r,
            None => vstd::pervasive::unreached(),
        }
    }
}

/// Law: cloning an owning handle and then dropping the clone leaves every
/// control block — every value, strong count and weak count — exactly as it
/// was; in particular the pair of operations never releases the value.
pub proof fn lemma_clone_then_drop_restores<T>(s: Seq<EntryModel<T>>, i: int)
    requires
        store_wf(s),
        live(s, i),
    ensures
        drop_strong_model(clone_model(s, i), i) == s,
        drop_strong_model(clone_model(s, i), i)[i].value is Some,
{
    assert(drop_strong_model(clone_model(s, i), i) =~= s);
}

/// Law: dropping an owning handle lowers the strong count by exactly one,
/// and the value is released exactly when that drop is the last one.
pub proof fn lemma_release_exactly_at_zero<T>(s: Seq<EntryModel<T>>, i: int)
    requires
        store_wf(s),
        live(s, i),
    ensures
        drop_strong_model(s, i)[i].strong == s[i].strong - 1,
        (drop_strong_model(s, i)[i].value is None) <==> s[i].strong == 1,
        store_wf(drop_strong_model(s, i)),
{
    lemma_wf_update(s, i, drop_strong_model(s, i)[i]);
    assert(drop_strong_model(s, i) =~= s.update(i, drop_strong_model(s, i)[i]));
}

/// Law: weak handles never count toward a strong count and never keep a
/// value alive — taking one raises only the weak count of its own block,
/// and dropping it again restores the store exactly.
pub proof fn lemma_weak_never_counts_strong<T>(s: Seq<EntryModel<T>>, i: int)
    requires
        in_bounds(s, i),
    ensures
        forall|j: int|
            in_bounds(s, j) ==> downgrade_model(s, i)[j].strong == s[j].strong
                && downgrade_model(s, i)[j].value == s[j].value,
        downgrade_model(s, i)[i].weak == s[i].weak + 1,
        drop_weak_model(downgrade_model(s, i), i) == s,
{
    assert(drop_weak_model(downgrade_model(s, i), i) =~= s);
}

/// Law: upgrading a weak handle succeeds exactly while the referent is
/// live; a successful upgrade raises the strong count by one and leaves
/// every value unchanged, and a failed one changes nothing at all.
pub proof fn lemma_upgrade_iff_live<T>(s: Seq<EntryModel<T>>, i: int)
    requires
        in_bounds(s, i),
    ensures
        s[i].strong > 0 ==> upgrade_model(s, i)[i].strong == s[i].strong + 1,
        s[i].strong == 0 ==> upgrade_model(s, i) == s,
        forall|j: int| in_bounds(s, j) ==> upgrade_model(s, i)[j].value == s[j].value,
        forall|j: int| in_bounds(s, j) ==> upgrade_model(s, i)[j].weak == s[j].weak,
{
}

} // verus!
