//! Parts of the index file.

pub mod untracked_cache;
pub mod util;
