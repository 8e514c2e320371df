//! Staging of an environmental-sensor dataset: a fetched archive is expanded,
//! the table inside it is held against the expected column set, reduced to the
//! columns that are kept, and encoded as a columnar file.
//!
//! Every function here works on values in memory. Reading and writing files and
//! talking to the object store are the caller's part; the decisions about what to
//! read, write or fetch next are made here.

pub mod columns;
pub mod text;
pub mod paths;
pub mod schema;
pub mod frame;
pub mod archive;
pub mod fetch;
pub mod pipeline;
