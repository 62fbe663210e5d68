//! The verified core of the evidence backend: reading CSV manifests and gold
//! files, the command line and configuration, the order of each command's
//! outside operations, the retry rule for a locked database, document routing
//! for ingest, and the scoring and report of search evaluations.
use vstd::prelude::*;

pub mod text;
pub mod csv;
pub mod number;
pub mod config;
pub mod app;
pub mod evaluate;

verus! {

} // verus!
