//! Core of a structural lint engine: path filtering and discovery, the
//! source-file model, the phase-gated event/intent protocol, the query cache,
//! the per-file matching plan and the ordered, capped diagnostic collector.
use vstd::prelude::*;

pub mod language;
pub mod location;
pub mod irritation;
pub mod collector;
pub mod protocol;
pub mod cache;
pub mod source_file;
pub mod store;
pub mod scan;
pub mod node;
pub mod pattern;
pub mod walk;

verus! {

} // verus!
