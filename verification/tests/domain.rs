use novel_core::application::retrieval::{
    linked_layers, RetrievalAvailability, RetrievalIntent, RetrievalPlanReason, RetrievalPlanner,
};
use novel_core::domain::{
    layer_name, AiAction, AiContractError, CandidateStatus, ChangeSetStatus, EvidenceAnchor, Fact,
    KnowledgeCandidate, KnowledgeContractError, KnowledgeLifecycleStatus, ModelCapability,
    ModelProfileInput, ModelProvider, PrivacyLevel, RetrievalMethod, ReviewDecision,
    ReviewPurpose,
};
use novel_core::ids::RecordId;
use novel_core::review_model::ReviewClaimType;

fn id(n: u128) -> RecordId {
    RecordId::from_u128(n)
}

#[test]
fn application_depends_on_domain() {
    assert_eq!(linked_layers(), ["domain", "application"]);
}

#[test]
fn exposes_domain_layer_name() {
    assert_eq!(layer_name(), "domain");
}

#[test]
fn claim_types_declare_their_review_purpose() {
    assert!(ReviewClaimType::RequiredEvent.supports(ReviewPurpose::Admission));
    assert!(!ReviewClaimType::RequiredEvent.supports(ReviewPurpose::Manuscript));
    assert!(ReviewClaimType::CharacterStatus.supports(ReviewPurpose::Manuscript));
    assert!(!ReviewClaimType::CharacterStatus.supports(ReviewPurpose::Admission));
    assert_eq!(ReviewClaimType::KnowledgeBoundary.as_str(), "KNOWLEDGE_BOUNDARY");
}

#[test]
fn validates_model_profiles_and_selection_actions() {
    let input = ModelProfileInput {
        id: None,
        name: "Local".into(),
        provider: ModelProvider::OpenAiCompatible,
        capability: ModelCapability::Chat,
        base_url: "https://api.example.com/v1".into(),
        model_id: "writer-model".into(),
        context_window: 32_768,
        max_output_tokens: 4_096,
        privacy_level: PrivacyLevel::AllowCloud,
        timeout_seconds: 120,
        retry_limit: 1,
        input_price_micros_per_million: 0,
        output_price_micros_per_million: 0,
        price_currency: "USD".into(),
    };
    assert_eq!(input.validate(), Ok(()));
    let mut invalid = input.clone();
    invalid.provider = ModelProvider::SiliconFlow;
    assert_eq!(invalid.validate(), Err(AiContractError::InvalidProviderCapability));
    assert!(AiAction::Rewrite.requires_selection());
    assert!(!AiAction::Continue.requires_selection());
}

#[test]
fn validates_fact_and_evidence_contracts() {
    let project_id = id(1);
    let chapter_id = id(2);
    let revision_id = id(3);
    let anchor_id = id(4);
    let anchor = EvidenceAnchor {
        id: anchor_id,
        project_id,
        chapter_id,
        source_revision_id: revision_id,
        block_id: "paragraph-1".into(),
        start_offset: 0,
        end_offset: 5,
        source_version: "revision-1".into(),
        source_hash: "sha256:test".into(),
        lifecycle_status: KnowledgeLifecycleStatus::Active,
        created_by: "author".into(),
        created_at: "2026-09-02T00:00:00Z".into(),
        updated_at: "2026-09-02T00:00:00Z".into(),
    };
    assert_eq!(anchor.validate(), Ok(()));

    let fact = Fact {
        knowledge_id: id(5),
        project_id,
        knowledge_version: 1,
        subject: "林澈".into(),
        predicate: "喜欢".into(),
        object: "雨天".into(),
        source_revision_id: revision_id,
        evidence_anchor_ids: vec![anchor_id],
        lifecycle_status: KnowledgeLifecycleStatus::Active,
        created_by: "author".into(),
        created_at: "2026-09-02T00:00:00Z".into(),
        updated_at: "2026-09-02T00:00:00Z".into(),
    };
    assert_eq!(fact.validate(), Ok(()));

    let mut invalid = fact;
    invalid.evidence_anchor_ids.clear();
    assert_eq!(invalid.validate(), Err(KnowledgeContractError::MissingEvidence));
}

#[test]
fn validates_candidate_review_and_change_set_transitions() {
    let project_id = id(10);
    let fact = Fact {
        knowledge_id: id(11),
        project_id,
        knowledge_version: 1,
        subject: "甲".into(),
        predicate: "认识".into(),
        object: "乙".into(),
        source_revision_id: id(12),
        evidence_anchor_ids: vec![id(13)],
        lifecycle_status: KnowledgeLifecycleStatus::Active,
        created_by: "author".into(),
        created_at: "2026-09-02T00:00:00Z".into(),
        updated_at: "2026-09-02T00:00:00Z".into(),
    };
    let candidate = KnowledgeCandidate {
        id: id(14),
        project_id,
        chapter_id: id(15),
        proposal_id: None,
        candidate_status: CandidateStatus::Approved,
        review_decision: Some(ReviewDecision::Approve),
        reviewer: Some("editor".into()),
        reviewed_at: Some("2026-09-02T00:00:00Z".into()),
        fact,
        created_at: "2026-09-02T00:00:00Z".into(),
        updated_at: "2026-09-02T00:00:00Z".into(),
    };
    assert_eq!(candidate.validate(), Ok(()));
    assert!(ChangeSetStatus::Draft.can_transition_to(ChangeSetStatus::InReview));
    assert!(!ChangeSetStatus::Finalized.can_transition_to(ChangeSetStatus::Draft));
}

#[test]
fn retrieval_planner_skips_simple_tasks_and_enables_hybrid_when_ready() {
    let ready = RetrievalAvailability {
        knowledge_available: true,
        keyword_index_ready: true,
        semantic_index_ready: true,
    };
    let simple = RetrievalPlanner::plan(RetrievalIntent::CurrentChapterOnly, &ready);
    assert!(simple.methods.is_empty());

    let hybrid = RetrievalPlanner::plan(RetrievalIntent::ProjectKnowledge, &ready);
    assert_eq!(
        hybrid.methods,
        [RetrievalMethod::Structured, RetrievalMethod::Keyword, RetrievalMethod::Semantic]
    );
    assert_eq!(hybrid.max_attached_chunks, 8);
}

#[test]
fn retrieval_planner_without_knowledge_retrieves_nothing() {
    let partial = RetrievalAvailability {
        knowledge_available: false,
        keyword_index_ready: true,
        semantic_index_ready: false,
    };
    let plan = RetrievalPlanner::plan(RetrievalIntent::ProjectKnowledge, &partial);
    assert!(plan.methods.is_empty());
    assert_eq!(plan.reason, RetrievalPlanReason::KnowledgeUnavailable);
    let keyword_only = RetrievalAvailability { knowledge_available: true, ..partial };
    let plan = RetrievalPlanner::plan(RetrievalIntent::ProjectKnowledge, &keyword_only);
    assert_eq!(plan.methods, [RetrievalMethod::Structured, RetrievalMethod::Keyword]);
    assert_eq!(plan.max_candidates, 24);
}

#[test]
fn claim_type_names_read_back_as_their_types() {
    let all = [
        ReviewClaimType::CharacterStatus,
        ReviewClaimType::CharacterLocation,
        ReviewClaimType::AbilityOrRealm,
        ReviewClaimType::ItemPossession,
        ReviewClaimType::Relation,
        ReviewClaimType::KnowledgeBoundary,
        ReviewClaimType::RequiredEvent,
        ReviewClaimType::ForbiddenEvent,
        ReviewClaimType::AllowedCharacter,
        ReviewClaimType::TimeWindow,
        ReviewClaimType::StageBoundary,
        ReviewClaimType::ForeshadowingWindow,
        ReviewClaimType::PlanDependency,
    ];
    for t in all {
        assert_eq!(ReviewClaimType::parse(t.as_str()), Some(t));
        assert_eq!(ReviewClaimType::parse(&format!(" {} ", t.as_str().to_ascii_lowercase())), Some(t));
    }
    assert_eq!(ReviewClaimType::parse("CHARACTER-STATUS"), None);
}
