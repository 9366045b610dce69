//! Metadata core of a chunked file store: an in-memory metadata repository and
//! the decisions of the operator's command line.

pub mod cli;
pub mod clock;
pub mod ident;
pub mod laws;
pub mod manifest;
pub mod model;
pub mod records;
pub mod repository;
pub mod sessions;
pub mod table;
pub mod text;
