//! Dockerfile documents: their shape, how text becomes one, and the port one
//! exposes.

pub mod document;
pub mod number;
pub mod outside;
pub mod parser;
pub mod port;
