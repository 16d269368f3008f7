//! A path-oriented virtual filesystem layer over remote object storage.
//!
//! The library resolves backend connection parameters (bucket, region and
//! prefixed configuration entries) from catalog metadata and a fileset's
//! storage location, constructs an opendal storage operator from them, and
//! defines the uniform path-filesystem contract that every backend adapter
//! implements.  All resolution logic is verified; only the calls into
//! opendal itself are trusted.

pub mod config;
pub mod error;
pub mod filesystem;
pub mod location;
pub mod opened_file;
pub mod s3_filesystem;
pub mod strutil;
