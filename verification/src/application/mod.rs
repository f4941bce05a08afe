//! Application use cases: retrieval planning, writing context and evaluation.

pub mod retrieval;
pub mod evaluation;
pub mod context;
pub mod document;
pub mod assembly;
pub mod version;
pub mod review;
pub mod properties;
