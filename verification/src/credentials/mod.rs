//! Talking to credential helpers: programs that hand out, keep or forget the
//! username and password that belong to a URL.

pub mod context;
pub mod helper;
pub mod program;
pub mod round_trip;
