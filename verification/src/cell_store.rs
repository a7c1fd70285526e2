//! Shared mutable cells with a runtime-checked borrow rule.
//!
//! A cell is a reference-counted block holding one integer together with a
//! borrow flag. Any number of aliases (clones of a [`CellRef`]) may name
//! the same cell; a mutation through one alias is visible through every
//! other at the next read, because all aliases read the same block. An
//! exclusive mutable view is granted at runtime: obtaining one fails —
//! with an explicit error, never silently — while another is outstanding.

use vstd::prelude::*;

verus! {

/// Borrow state of a cell: either no exclusive view is outstanding, or
/// exactly one is.
#[derive(Clone, Copy, Debug, PartialEq, Eq, Structural)]
pub enum BorrowFlag {
    Idle,
    Writing,
}

/// The one runtime failure of a cell: asking for a view that the borrow
/// rule forbids while an exclusive view is outstanding.
#[derive(Clone, Copy, Debug, PartialEq, Eq, Structural)]
pub enum CellError {
    BorrowConflict,
}

/// Ghost image of one cell: the held value, present exactly while some
/// owning alias is live, the strong count, and the borrow flag.
pub ghost struct CellModel {
    pub value: Option<i32>,
    pub strong: nat,
    pub flag: BorrowFlag,
}

/// One cell block.
struct CellEntry {
    value: Option<i32>,
    strong: u64,
    flag: BorrowFlag,
}

/// An owning alias of a shared mutable cell.
pub struct CellRef {
    id: usize,
}

impl View for CellRef {
    type V = int;

    closed spec fn view(&self) -> int {
        self.id as int
    }
}

/// The store of shared mutable cells.
pub struct CellStore {
    cells: Vec<CellEntry>,
}

impl View for CellStore {
    type V = Seq<CellModel>;

    closed spec fn view(&self) -> Seq<CellModel> {
        Seq::new(
            self.cells@.len(),
            |i: int|
                CellModel {
                    value: self.cells@[i].value,
                    strong: self.cells@[i].strong as nat,
                    flag: self.cells@[i].flag,
                },
        )
    }
}

/// The index `i` names a cell of the image `s`.
pub open spec fn cell_in_bounds(s: Seq<CellModel>, i: int) -> bool {
    0 <= i < s.len()
}

/// The cell `i` is live: at least one owning alias exists.
pub open spec fn cell_live(s: Seq<CellModel>, i: int) -> bool {
    cell_in_bounds(s, i) && s[i].strong > 0
}

/// Store invariant: a cell holds its value exactly while its strong count
/// is positive.
pub open spec fn cell_store_wf(s: Seq<CellModel>) -> bool {
    forall|i: int| cell_in_bounds(s, i) ==> (s[i].value is Some <==> s[i].strong > 0)
}

/// Image after allocating a fresh idle cell holding `v`.
pub open spec fn cell_alloc_model(s: Seq<CellModel>, v: i32) -> Seq<CellModel> {
    s.push(CellModel { value: Some(v), strong: 1, flag: BorrowFlag::Idle })
}

/// Image after cloning an alias of cell `i`.
pub open spec fn cell_clone_model(s: Seq<CellModel>, i: int) -> Seq<CellModel> {
    s.update(i, CellModel { value: s[i].value, strong: s[i].strong + 1, flag: s[i].flag })
}

/// Image after an alias of cell `i` is dropped: released exactly when the
/// last alias goes.
pub open spec fn cell_drop_model(s: Seq<CellModel>, i: int) -> Seq<CellModel> {
    if s[i].strong == 1 {
        s.update(i, CellModel { value: None, strong: 0, flag: s[i].flag })
    } else {
        s.update(
            i,
            CellModel { value: s[i].value, strong: (s[i].strong - 1) as nat, flag: s[i].flag },
        )
    }
}

/// Image after an exclusive view of cell `i` is granted.
pub open spec fn cell_borrow_model(s: Seq<CellModel>, i: int) -> Seq<CellModel> {
    s.update(i, CellModel { value: s[i].value, strong: s[i].strong, flag: BorrowFlag::Writing })
}

/// Image after the value of cell `i` is overwritten through its exclusive
/// view.
pub open spec fn cell_write_model(s: Seq<CellModel>, i: int, v: i32) -> Seq<CellModel> {
    s.update(i, CellModel { value: Some(v), strong: s[i].strong, flag: s[i].flag })
}

/// Image after the exclusive view of cell `i` ends.
pub open spec fn cell_release_model(s: Seq<CellModel>, i: int) -> Seq<CellModel> {
    s.update(i, CellModel { value: s[i].value, strong: s[i].strong, flag: BorrowFlag::Idle })
}

/// The invariant survives appending a fresh well-formed cell.
proof fn lemma_cell_wf_push(s: Seq<CellModel>, e: CellModel)
    requires
        cell_store_wf(s),
        e.value is Some <==> e.strong > 0,
    ensures
        cell_store_wf(s.push(e)),
{
    let s2 = s.push(e);
    assert forall|j: int| cell_in_bounds(s2, j) implies (s2[j].value is Some <==> s2[j].strong
        > 0) by {
        if j < s.len() {
            assert(s2[j] == s[j]);
            assert(cell_in_bounds(s, j));
        }
    }
}

/// The invariant survives replacing one cell by a well-formed cell.
proof fn lemma_cell_wf_update(s: Seq<CellModel>, i: int, e: CellModel)
    requires
        cell_store_wf(s),
        cell_in_bounds(s, i),
        e.value is Some <==> e.strong > 0,
    ensures
        cell_store_wf(s.update(i, e)),
{
    let s2 = s.update(i, e);
    assert forall|j: int| cell_in_bounds(s2, j) implies (s2[j].value is Some <==> s2[j].strong
        > 0) by {
        if j != i {
            assert(s2[j] == s[j]);
            assert(cell_in_bounds(s, j));
        }
    }
}

impl CellStore {
    /// An empty cell store.
    pub fn new() -> (s: Self)
        ensures
            s@ == Seq::<CellModel>::empty(),
            cell_store_wf(s@),
    {
        let s = CellStore { cells: Vec::new() };
        proof {
            assert(s@ =~= Seq::<CellModel>::empty());
        }
        s
    }

    /// Allocate a fresh idle cell holding `v`, with one owning alias.
    pub fn alloc_cell(&mut self, v: i32) -> (h: CellRef)
        requires
            cell_store_wf(old(self)@),
        ensures
            cell_store_wf(final(self)@),
            final(self)@ == cell_alloc_model(old(self)@, v),
            h@ == old(self)@.len(),
            final(self)@.len() == old(self)@.len() + 1,
            cell_live(final(self)@, h@),
            final(self)@[h@].strong == 1,
            final(self)@[h@].value == Some(v),
            final(self)@[h@].flag == BorrowFlag::Idle,
            forall|j: int| cell_in_bounds(old(self)@, j) ==> final(self)@[j] == old(self)@[j],
    {
        let id = self.cells.len();
        self.cells.push(CellEntry { value: Some(v), strong: 1, flag: BorrowFlag::Idle });
        proof {
            assert(self@ =~= cell_alloc_model(old(self)@, v));
            lemma_cell_wf_push(old(self)@, CellModel { value: Some(v), strong: 1nat, flag: BorrowFlag::Idle });
        }
        CellRef { id }
    }

    /// Clone an alias: the cell's strong count rises by exactly one.
    pub fn clone_cell(&mut self, h: &CellRef) -> (h2: CellRef)
        requires
            cell_store_wf(old(self)@),
            cell_live(old(self)@, h@),
            old(self)@[h@].strong < u64::MAX,
        ensures
            cell_store_wf(final(self)@),
            final(self)@ == cell_clone_model(old(self)@, h@),
            h2@ == h@,
            final(self)@.len() == old(self)@.len(),
            final(self)@[h@].strong == old(self)@[h@].strong + 1,
            final(self)@[h@].value == old(self)@[h@].value,
            final(self)@[h@].flag == old(self)@[h@].flag,
            forall|j: int| cell_in_bounds(old(self)@, j) && j != h@ ==> final(self)@[j] == old(
                self,
            )@[j],
    {
        let id = h.id;
        let e = &mut self.cells[id];
        e.strong = e.strong + 1;
        proof {
            assert(self@ =~= cell_clone_model(old(self)@, h@));
            lemma_cell_wf_update(old(self)@, h@, self@[h@]);
            assert(self@ =~= old(self)@.update(h@, self@[h@]));
        }
        CellRef { id }
    }

    /// Drop an alias: the strong count falls by exactly one, and the held
    /// value is returned — released — exactly when this was the last alias.
    pub fn drop_cell(&mut self, h: CellRef) -> (r: Option<i32>)
        requires
            cell_store_wf(old(self)@),
            cell_live(old(self)@, h@),
        ensures
            cell_store_wf(final(self)@),
            final(self)@ == cell_drop_model(old(self)@, h@),
            final(self)@.len() == old(self)@.len(),
            final(self)@[h@].strong == old(self)@[h@].strong - 1,
            (r is Some) <==> old(self)@[h@].strong == 1,
            old(self)@[h@].strong == 1 ==> r == old(self)@[h@].value,
            old(self)@[h@].strong > 1 ==> final(self)@[h@].value == old(self)@[h@].value,
            forall|j: int| cell_in_bounds(old(self)@, j) && j != h@ ==> final(self)@[j] == old(
                self,
            )@[j],
    {
        let id = h.id;
        let e = &mut self.cells[id];
        if e.strong == 1 {
            e.strong = 0;
            let v = e.value.take();
            proof {
                assert(self@ =~= cell_drop_model(old(self)@, h@));
                lemma_cell_wf_update(old(self)@, h@, self@[h@]);
                assert(self@ =~= old(self)@.update(h@, self@[h@]));
            }
            v
        } else {
            e.strong = e.strong - 1;
            proof {
                assert(self@ =~= cell_drop_model(old(self)@, h@));
                lemma_cell_wf_update(old(self)@, h@, self@[h@]);
                assert(self@ =~= old(self)@.update(h@, self@[h@]));
            }
            None
        }
    }

    /// The strong count of the cell named by an alias.
    pub fn cell_strong_count(&self, h: &CellRef) -> (n: u64)
        requires
            cell_in_bounds(self@, h@),
        ensures
            n == self@[h@].strong,
    {
        self.cells[h.id].strong
    }

    /// Read the cell through any alias. Fails, with an explicit error,
    /// exactly while an exclusive view is outstanding.
    pub fn try_read(&self, h: &CellRef) -> (r: Result<i32, CellError>)
        requires
            cell_store_wf(self@),
            cell_live(self@, h@),
        ensures
            (r is Ok) <==> self@[h@].flag != BorrowFlag::Writing,
            (r matches Ok(v) ==> Some(v) == self@[h@].value),
            (r matches Err(e) ==> e == CellError::BorrowConflict),
    {
        let e = &self.cells[h.id];
        match e.flag {
            BorrowFlag::Writing => Err(CellError::BorrowConflict),
            BorrowFlag::Idle => match &e.value {
                Some(v) => Ok(*v),
                None => vstd::pervasive::unreached(),
            },
        }
    }

    /// Ask for the exclusive mutable view of the cell. Granted exactly
    /// when none is outstanding; a second request while one is outstanding
    /// fails fast with an explicit error and changes nothing.
    pub fn try_borrow_mut(&mut self, h: &CellRef) -> (r: Result<(), CellError>)
        requires
            cell_store_wf(old(self)@),
            cell_live(old(self)@, h@),
        ensures
            cell_store_wf(final(self)@),
            (r is Ok) <==> old(self)@[h@].flag == BorrowFlag::Idle,
            r is Ok ==> final(self)@ == cell_borrow_model(old(self)@, h@),
            r is Ok ==> final(self)@[h@].flag == BorrowFlag::Writing,
            r is Err ==> final(self)@ == old(self)@,
            (r matches Err(e) ==> e == CellError::BorrowConflict),
            final(self)@[h@].value == old(self)@[h@].value,
            final(self)@[h@].strong == old(self)@[h@].strong,
            forall|j: int| cell_in_bounds(old(self)@, j) && j != h@ ==> final(self)@[j] == old(
                self,
            )@[j],
    {
        let id = h.id;
        let e = &mut self.cells[id];
        match e.flag {
            BorrowFlag::Writing => {
                proof {
                    assert(self@ =~= old(self)@);
                }
                Err(CellError::BorrowConflict)
            },
            BorrowFlag::Idle => {
                e.flag = BorrowFlag::Writing;
                proof {
                    assert(self@ =~= cell_borrow_model(old(self)@, h@));
                    lemma_cell_wf_update(old(self)@, h@, self@[h@]);
                    assert(self@ =~= old(self)@.update(h@, self@[h@]));
                }
                Ok(())
            },
        }
    }

    /// Overwrite the cell's value through the outstanding exclusive view.
    pub fn write(&mut self, h: &CellRef, v: i32)
        requires
            cell_store_wf(old(self)@),
            cell_live(old(self)@, h@),
            old(self)@[h@].flag == BorrowFlag::Writing,
        ensures
            cell_store_wf(final(self)@),
            final(self)@ == cell_write_model(old(self)@, h@, v),
            final(self)@[h@].value == Some(v),
            final(self)@[h@].strong == old(self)@[h@].strong,
            final(self)@[h@].flag == BorrowFlag::Writing,
            forall|j: int| cell_in_bounds(old(self)@, j) && j != h@ ==> final(self)@[j] == old(
                self,
            )@[j],
    {
        let id = h.id;
        let e = &mut self.cells[id];
        e.value = Some(v);
        proof {
            assert(self@ =~= cell_write_model(old(self)@, h@, v));
            lemma_cell_wf_update(old(self)@, h@, self@[h@]);
            assert(self@ =~= old(self)@.update(h@, self@[h@]));
        }
    }

    /// End the outstanding exclusive view, making the cell readable again.
    pub fn end_borrow_mut(&mut self, h: &CellRef)
        requires
            cell_store_wf(old(self)@),
            cell_live(old(self)@, h@),
            old(self)@[h@].flag == BorrowFlag::Writing,
        ensures
            cell_store_wf(final(self)@),
            final(self)@ == cell_release_model(old(self)@, h@),
            final(self)@[h@].flag == BorrowFlag::Idle,
            final(self)@[h@].value == old(self)@[h@].value,
            final(self)@[h@].strong == old(self)@[h@].strong,
            forall|j: int| cell_in_bounds(old(self)@, j) && j != h@ ==> final(self)@[j] == old(
                self,
            )@[j],
    {
        let id = h.id;
        let e = &mut self.cells[id];
        e.flag = BorrowFlag::Idle;
        proof {
            assert(self@ =~= cell_release_model(old(self)@, h@));
            lemma_cell_wf_update(old(self)@, h@, self@[h@]);
            assert(self@ =~= old(self)@.update(h@, self@[h@]));
        }
    }
}

/// Law: a value written to a cell through one alias is what every alias of
/// that cell reads afterwards — after the write, and still after the
/// exclusive view ends, the cell holds exactly the written value, and no
/// other cell has moved.
pub proof fn lemma_write_visible_to_aliases(s: Seq<CellModel>, i: int, v: i32)
    requires
        cell_in_bounds(s, i),
    ensures
        cell_write_model(s, i, v)[i].value == Some(v),
        cell_release_model(cell_write_model(s, i, v), i)[i].value == Some(v),
        forall|j: int|
            cell_in_bounds(s, j) && j != i ==> cell_release_model(cell_write_model(s, i, v), i)[j]
                == s[j],
{
}

} // verus!
