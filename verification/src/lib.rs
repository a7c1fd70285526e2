//! Smart-pointer semantics, modelled and verified.
//!
//! The crate models the ownership patterns of a family of smart-pointer
//! demonstrations: exclusive ownership of a recursive list, a transparent
//! single-value wrapper, shared ownership with observable reference counts,
//! shared mutable cells with a runtime borrow rule, a rebindable list tail
//! that can form a strong-reference cycle, and a tree whose children are
//! owned strongly while parents are reached through weak back-references.
//!
//! Shared ownership is modelled by an explicit store of control blocks
//! ([`rc_store::RcStore`]): each block carries its value together with its
//! strong and weak counts, and every operation's contract states exactly how
//! the counts move and when the stored value is released.

pub mod cell_list;
pub mod cell_store;
pub mod cycle_list;
pub mod exclusive_list;
pub mod my_box;
pub mod rc_list;
pub mod rc_store;
pub mod resource;
pub mod tree;
