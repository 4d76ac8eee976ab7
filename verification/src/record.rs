//! A ghost record that only the trusted calls it documents can extend.
//!
//! The field is private to this file and nothing here extends it, so outside
//! this file a record grows only through a function whose contract says so:
//! the wrappers that make the outside calls being recorded.
use vstd::prelude::*;

verus! {

/// A sequence of ghost entries, grown only by the calls it records.
pub struct Record<T> {
    items: Ghost<Seq<T>>,
}

impl<T> Record<T> {
    /// The entries, oldest first.
    pub closed spec fn items(self) -> Seq<T> {
        self.items@
    }

    /// An empty record.
    pub fn new() -> (r: Self)
        ensures
            r.items() == Seq::<T>::empty(),
    {
        Record { items: Ghost(Seq::empty()) }
    }
}

} // verus!
