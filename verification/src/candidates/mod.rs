pub mod scoring;
pub mod candidate;
pub mod knowledge;
pub mod sections;
pub mod filtered;
pub mod collect;
