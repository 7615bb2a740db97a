//! Objects are compared by their ids, whatever they are looked up through.

use crate::object::Object;
use vstd::prelude::*;
use vstd::std_specs::cmp::PartialEqSpecImpl;

verus! {

impl<'repo, A, B> PartialEq<Object<'repo, A>> for Object<'repo, B> {
    fn eq(&self, other: &Object<'repo, A>) -> (same: bool) {
        self.is_same(other)
    }
}

impl<'repo, A, B> PartialEqSpecImpl<Object<'repo, A>> for Object<'repo, B> {
    open spec fn obeys_eq_spec() -> bool {
        true
    }

    open spec fn eq_spec(&self, other: &Object<'repo, A>) -> bool {
        self.digest() == other.digest()
    }
}

} // verus!
