//! The build context: the Dockerfile packed alone into a gzip-compressed
//! tar archive.

pub mod context;
pub mod gzip;
pub mod layout;
pub mod outside;
pub mod tar;
