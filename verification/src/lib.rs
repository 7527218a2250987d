//! Syzygy: RFP analysis, compliance tracking, document conversion and
//! pipeline planning for proposal authoring.
use vstd::prelude::*;

pub mod text;
pub mod pipeline;
pub mod outside;
pub mod analyzer;
pub mod compliance;
pub mod export;
pub mod compile;
pub mod projects;
pub mod ollama;
pub mod storage;

verus! {

} // verus!
