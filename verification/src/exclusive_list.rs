//! A recursive list under exclusive ownership.
//!
//! Every `next` edge is owned by exactly one node, so the chain can never
//! alias and never cycle: the ownership edge always points at a fresh
//! allocation. Dropping the head releases the whole chain.

use vstd::prelude::*;

verus! {

/// A singly-linked list: a value prepended to an exclusively-owned rest,
/// or the empty list.
pub enum List {
    Cons(i32, Box<List>),
    Nil,
}

/// The sequence of values held by the list, head first.
pub open spec fn list_values(l: List) -> Seq<i32>
    decreases l,
{
    match l {
        List::Nil => Seq::empty(),
        List::Cons(v, rest) => seq![v].add(list_values(*rest)),
    }
}

impl List {
    /// The empty list.
    pub fn nil() -> (r: List)
        ensures
            list_values(r) == Seq::<i32>::empty(),
    {
        List::Nil
    }

    /// Prepend `v` to `rest`, taking exclusive ownership of `rest`.
    pub fn cons(v: i32, rest: List) -> (r: List)
        ensures
            list_values(r) == seq![v].add(list_values(rest)),
    {
        List::Cons(v, Box::new(rest))
    }

    /// Collect the values of the list, head first.
    pub fn values(&self) -> (r: Vec<i32>)
        ensures
            r@ == list_values(*self),
        decreases *self,
    {
        match self {
            List::Nil => Vec::new(),
            List::Cons(v, rest) => {
                let mut r = rest.values();
                r.insert(0, *v);
                proof {
                    assert(r@ =~= list_values(*self));
                }
                r
            },
        }
    }
}

} // verus!
