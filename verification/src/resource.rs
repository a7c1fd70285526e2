//! A resource with deterministic release.
//!
//! The pointer owns a payload that is given up exactly once: either early,
//! through the one explicit release operation, or implicitly when the
//! owner goes out of scope. Because `release` consumes the pointer, no
//! caller can run the cleanup path twice, and there is no other entry
//! point to it — a second call is a compile-time rejection, not a runtime
//! check.

use vstd::prelude::*;

verus! {

/// An owner of one string payload, released exactly once.
pub struct CustomSmartPointer {
    data: String,
}

impl View for CustomSmartPointer {
    type V = Seq<char>;

    closed spec fn view(&self) -> Seq<char> {
        self.data@
    }
}

impl CustomSmartPointer {
    /// Take ownership of the payload.
    pub fn new(data: String) -> (c: CustomSmartPointer)
        ensures
            c@ == data@,
    {
        CustomSmartPointer { data }
    }

    /// Read the payload without releasing it.
    pub fn data(&self) -> (r: &String)
        ensures
            r@ == self@,
    {
        &self.data
    }

    /// Release early: consumes the owner and hands the payload back, so
    /// the cleanup path cannot run a second time.
    pub fn release(self) -> (r: String)
        ensures
            r@ == self@,
    {
        self.data
    }
}

} // verus!
