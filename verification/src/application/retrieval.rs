//! Which retrieval methods a writing task uses.
use vstd::prelude::*;
use crate::domain::RetrievalMethod;

verus! {

/// Returns the ordered layers linked into the application core.
pub fn linked_layers() -> (r: [&'static str; 2])
    ensures
        r[0]@ == "domain"@,
        r[1]@ == "application"@,
{
    [crate::domain::layer_name(), "application"]
}

/// What a task wants to read.
#[derive(Debug, Clone, Copy, PartialEq, Eq, Structural)]
pub enum RetrievalIntent {
    CurrentChapterOnly,
    ProjectKnowledge,
}

/// Why a retrieval plan looks as it does.
#[derive(Debug, Clone, Copy, PartialEq, Eq, Structural)]
pub enum RetrievalPlanReason {
    CurrentChapterIsSufficient,
    KnowledgeUnavailable,
    ProjectKnowledgeRequested,
}

/// Which knowledge indexes are ready.
#[derive(Debug, Clone, Copy, PartialEq, Eq, Structural)]
pub struct RetrievalAvailability {
    pub knowledge_available: bool,
    pub keyword_index_ready: bool,
    pub semantic_index_ready: bool,
}

/// The retrieval methods to run and how much they may attach.
#[derive(Debug, Clone, PartialEq, Eq)]
pub struct RetrievalPlan {
    pub methods: Vec<RetrievalMethod>,
    pub max_candidates: u16,
    pub max_attached_chunks: u16,
    pub reason: RetrievalPlanReason,
}

/// The methods used for project knowledge: structured lookup always, keyword
/// and semantic search when their indexes are ready.
pub open spec fn planned_methods(a: RetrievalAvailability) -> Seq<RetrievalMethod> {
    let m = seq![RetrievalMethod::Structured];
    let m = if a.keyword_index_ready {
        m.push(RetrievalMethod::Keyword)
    } else {
        m
    };
    if a.semantic_index_ready {
        m.push(RetrievalMethod::Semantic)
    } else {
        m
    }
}

/// Plans retrieval for a task.
pub struct RetrievalPlanner;

impl RetrievalPlanner {
    /// A task on the current chapter, or one without project knowledge,
    /// retrieves nothing; otherwise the ready methods run, with up to 24
    /// candidates and 8 attached chunks.
    pub fn plan(intent: RetrievalIntent, availability: &RetrievalAvailability) -> (r: RetrievalPlan)
        ensures
            intent == RetrievalIntent::CurrentChapterOnly ==> r.methods@.len() == 0
                && r.max_candidates == 0 && r.max_attached_chunks == 0 && r.reason
                == RetrievalPlanReason::CurrentChapterIsSufficient,
            intent == RetrievalIntent::ProjectKnowledge && !availability.knowledge_available
                ==> r.methods@.len() == 0 && r.max_candidates == 0 && r.max_attached_chunks == 0
                && r.reason == RetrievalPlanReason::KnowledgeUnavailable,
            intent == RetrievalIntent::ProjectKnowledge && availability.knowledge_available
                ==> r.methods@ == planned_methods(*availability) && r.max_candidates == 24
                && r.max_attached_chunks == 8 && r.reason
                == RetrievalPlanReason::ProjectKnowledgeRequested,
    {
        if intent == RetrievalIntent::CurrentChapterOnly {
            return RetrievalPlan {
                methods: Vec::new(),
                max_candidates: 0,
                max_attached_chunks: 0,
                reason: RetrievalPlanReason::CurrentChapterIsSufficient,
            };
        }
        if !availability.knowledge_available {
            return RetrievalPlan {
                methods: Vec::new(),
                max_candidates: 0,
                max_attached_chunks: 0,
                reason: RetrievalPlanReason::KnowledgeUnavailable,
            };
        }
        let mut methods: Vec<RetrievalMethod> = Vec::new();
        methods.push(RetrievalMethod::Structured);
        if availability.keyword_index_ready {
            methods.push(RetrievalMethod::Keyword);
        }
        if availability.semantic_index_ready {
            methods.push(RetrievalMethod::Semantic);
        }
        assert(methods@ =~= planned_methods(*availability));
        RetrievalPlan {
            methods,
            max_candidates: 24,
            max_attached_chunks: 8,
            reason: RetrievalPlanReason::ProjectKnowledgeRequested,
        }
    }
}

} // verus!
