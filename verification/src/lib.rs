//! Synchronising the saves of Project Zomboid with a server of one's own.
//!
//! The library decides; it performs no input or output itself. A longer operation (an upload, a
//! download, the preparation of an archive, the replacement of a file) is a value that says what
//! is to be done next and takes what that came to. Each has a model, a transition system over
//! mathematical values, which its contracts refer to and which the laws are about.

pub mod chunks;
pub mod compress;
pub mod digest;
pub mod download;
pub mod endpoint;
pub mod extract;
pub mod fingerprint;
pub mod http;
pub mod json;
pub mod legacy;
pub mod listing;
pub mod messages;
pub mod names;
pub mod order;
pub mod paths;
pub mod prepare;
pub mod process;
pub mod progress;
pub mod remote;
pub mod replace;
pub mod resume;
pub mod roundtrip;
pub mod scan;
pub mod text;
pub mod upload;
pub mod views;
pub mod walk;
