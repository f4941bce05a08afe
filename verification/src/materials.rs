//! Summaries and writing cards kept as reference material.
use vstd::prelude::*;
use crate::ids::RecordId;

verus! {

#[derive(Debug, Clone, Copy, PartialEq, Eq, Structural)]
pub enum SummaryKind {
    Chapter,
    Character,
    Setting,
}

#[derive(Debug, Clone, Copy, PartialEq, Eq, Structural)]
pub enum SummaryPrecision {
    L0,
    L1,
    L2,
    L3,
    L4,
    L5,
}

#[derive(Debug, Clone, PartialEq, Eq)]
pub struct SummaryMaterial {
    pub id: RecordId,
    pub project_id: RecordId,
    pub kind: SummaryKind,
    pub precision: SummaryPrecision,
    pub source_id: Option<RecordId>,
    pub source_version: Option<String>,
    pub content: String,
    pub generation_mode: String,
    pub lifecycle_status: String,
    pub created_at: String,
    pub updated_at: String,
}

#[derive(Debug, Clone, PartialEq, Eq)]
pub struct WritingCard {
    pub id: RecordId,
    pub project_id: RecordId,
    pub card_type: String,
    pub title: String,
    pub content: String,
    pub source_version: Option<String>,
    pub scope: String,
    pub enabled: bool,
    pub sort_order: i64,
    pub created_at: String,
    pub updated_at: String,
}

} // verus!
