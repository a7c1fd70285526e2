//! A single-value indirection wrapper with transparent read access.
//!
//! `MyBox` owns exactly one value and exposes it without consuming the
//! wrapper. Its view *is* the contained value, so contracts about a
//! wrapper speak directly about what it contains; `deref` is the explicit
//! accessor, and chains with the contained type's own accessors (a wrapper
//! around an owned string yields the string, which yields its characters).

use vstd::prelude::*;

verus! {

/// A container of exactly one value of arbitrary type.
pub struct MyBox<T>(T);

impl<T> View for MyBox<T> {
    type V = T;

    closed spec fn view(&self) -> T {
        self.0
    }
}

impl<T> MyBox<T> {
    /// Take ownership of `x`.
    pub fn new(x: T) -> (b: MyBox<T>)
        ensures
            b@ == x,
    {
        MyBox(x)
    }

    /// Read the contained value without consuming the wrapper.
    pub fn deref(&self) -> (r: &T)
        ensures
            *r == self@,
    {
        &self.0
    }

    /// Give the contained value back, consuming the wrapper.
    pub fn into_inner(self) -> (r: T)
        ensures
            r == self@,
    {
        self.0
    }
}

} // verus!
