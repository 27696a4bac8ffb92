//! A verified model of a small CSV reporting pipeline: a temporary CSV file
//! is created, loaded as a table with its column names inferred from the
//! header row, the column names are collected, and the file is removed.
//!
//! The filesystem is modelled as a map from paths to file contents, so that
//! the lifecycle of the temporary file and the shape of the loaded table are
//! stated and proved as contracts. Real disk access and the columnar query
//! engine live outside the library and hand it plain values.

use vstd::prelude::*;

pub mod error;
pub mod csv;
pub mod fs_model;
pub mod manager;
pub mod report;
pub mod table;

verus! {

} // verus!
