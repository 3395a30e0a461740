//! Uploading a save: which request to make next, when to try again, what to report, and how it
//! ends. The requests, the reads and the waits themselves are made elsewhere; their outcomes come
//! back as events.

pub mod course;
pub mod laws;
pub mod machine;
pub mod model;
pub mod types;
