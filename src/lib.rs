//! A note store: plain-text notes, optionally grouped into one level of
//! categories, kept under a per-user data directory. The library decides every
//! operation on a picture of that directory and names the path to act on.

pub mod laws;
pub mod model;
pub mod names;
pub mod platform;
pub mod store;
