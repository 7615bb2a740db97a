//! Why an object could not be peeled to a kind.

use git_hash::ObjectId;
use vstd::prelude::*;

verus! {

pub enum Error {
    /// The object `id` was reached, which is not of the wanted `kind` and
    /// leads to no other object.
    NotFound { id: ObjectId, kind: git_object::Kind },
}

} // verus!
