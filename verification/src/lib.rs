//! Building blocks of a version-control toolkit: the protocol spoken with
//! credential helper programs, handles to objects of a repository, and the
//! decoder of the index's cache of untracked files.

pub mod bstring;
pub mod bytes;
pub mod credentials;
pub mod hash;
pub mod index;
pub mod object;
