//! Building a container image from Dockerfile text held in memory.
//!
//! [`dockerfile`] reads Dockerfile text into a document of build stages and
//! finds the port it exposes. [`archive`] packs the text into the
//! gzip-compressed archive a build daemon takes as its context.
//! [`credential`] turns a registry authorization token into a user name and
//! a password, and [`region`] picks the region to ask for one.
//! [`orchestrator`] describes the build request and decides which of the
//! daemon's streamed events reach the caller.
//!
//! Talking to the daemon and to the token service is left to the caller; the
//! library works on the values that come back.

pub mod archive;
pub mod credential;
pub mod dockerfile;
pub mod orchestrator;
pub mod region;
pub mod text;
