//! The download of a save: what is to be done next, decided from what has happened so far.

pub mod laws;
pub mod machine;
pub mod model;
pub mod types;
