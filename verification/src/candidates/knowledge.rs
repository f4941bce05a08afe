//! The stored knowledge that context candidates are drawn from.
use vstd::prelude::*;
use crate::domain::{Fact, KnowledgeLifecycleStatus};
use crate::entity::{Entity, EntityRevision};
use crate::ids::RecordId;
use crate::materials::SummaryMaterial;

verus! {

/// One entry of a world-state snapshot: a fact as it currently holds.
#[derive(Debug, Clone, PartialEq, Eq)]
pub struct WorldStateEntry {
    pub subject: String,
    pub predicate: String,
    pub object: String,
    pub fact_knowledge_id: RecordId,
    pub fact_version: u32,
}

/// The latest world-state snapshot of a project.
#[derive(Debug, Clone, PartialEq, Eq)]
pub struct WorldState {
    pub id: RecordId,
    pub entries: Vec<WorldStateEntry>,
}

/// An active entity with its latest revision.
#[derive(Debug, Clone, PartialEq, Eq)]
pub struct EntitySnapshot {
    pub entity: Entity,
    pub revision: EntityRevision,
}

/// A planted plot thread.
#[derive(Debug, Clone, PartialEq, Eq)]
pub struct Foreshadowing {
    pub id: RecordId,
    pub title: String,
    pub status: String,
    pub lifecycle_status: KnowledgeLifecycleStatus,
    pub target_chapter_id: Option<RecordId>,
    pub foreshadowing_version: u32,
}

/// A recorded story event.
#[derive(Debug, Clone, PartialEq, Eq)]
pub struct StoryEvent {
    pub id: RecordId,
    pub name: String,
    pub occurred_at: String,
    pub lifecycle_status: KnowledgeLifecycleStatus,
    pub participant_fact_ids: Vec<RecordId>,
    pub event_version: u32,
}

/// A full-text search hit.
#[derive(Debug, Clone, PartialEq, Eq)]
pub struct SearchResult {
    pub object_id: RecordId,
    pub object_type: String,
    pub snippet: String,
    pub source_version: Option<String>,
}

/// Everything a project store holds that context candidates are drawn from:
/// current facts, the latest world state, active entities, plot threads,
/// summaries, events, and the search hits for the request's linked objects
/// and for its query.
#[derive(Debug, Clone, PartialEq, Eq)]
pub struct ProjectKnowledge {
    pub facts: Vec<Fact>,
    pub world_state: Option<WorldState>,
    pub entities: Vec<EntitySnapshot>,
    pub foreshadowings: Vec<Foreshadowing>,
    pub summaries: Vec<SummaryMaterial>,
    pub events: Vec<StoryEvent>,
    pub object_hits: Vec<SearchResult>,
    pub search_hits: Vec<SearchResult>,
}

} // verus!
