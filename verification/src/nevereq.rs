//! A wrapper that never compares equal to anything, including itself.
//!
//! The presentation layer caches derived values by comparing them to the
//! previous result; wrapping the graph in `NeverEq` forces every rebuild to
//! be treated as a change.

use vstd::prelude::*;

verus! {

#[derive(Debug, Clone)]
pub struct NeverEq<T> {
    pub value: T,
}

impl<T> PartialEq for NeverEq<T> {
    fn eq(&self, _other: &NeverEq<T>) -> (r: bool)
        ensures
            r == false,
    {
        false
    }
}

impl<T> vstd::std_specs::cmp::PartialEqSpecImpl for NeverEq<T> {
    open spec fn obeys_eq_spec() -> bool {
        true
    }

    open spec fn eq_spec(&self, _other: &NeverEq<T>) -> bool {
        false
    }
}

} // verus!
