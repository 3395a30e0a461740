//! Bringing the archive of a save up to date: the archive of an earlier upload is used again when
//! it is intact and the save has not changed since; otherwise a new one is made, put in its place,
//! and remembered.

pub mod course;
pub mod machine;
pub mod model;
pub mod types;
