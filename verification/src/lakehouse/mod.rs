//! The QueryGraph lakehouse: dataset specifications, typed column inference,
//! table naming, SQL statements and the semantic metadata of loaded files.
//!
//! Downloading, reading files and talking to the warehouse belong to the
//! program; this module decides what to load and how to describe it.
pub mod types;
pub mod sql;
pub mod infer;
pub mod project;
pub mod normalize;
pub mod load;
pub mod summary;
pub mod delimited;
