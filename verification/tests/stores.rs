use novel_core::ai::exchange::{
    after_failed_attempt, attempt_count, chat_request_shape, check_embedding_request,
    embedding_endpoint, embedding_reply_slots, embedding_slots, transport_error, RetryStep,
};
use novel_core::ai::parsing::GenerationUsage;
use novel_core::ai::preferences::{apply_task_prompt_preferences, validate_ai_task_preference};
use novel_core::ai::profiles::{price_column_of, stored_profile_input};
use novel_core::ai::quality::quality_window;
use novel_core::ai::runs::{
    check_chat_profile, check_feedback_note, check_proposal_decision, consistency_freshness_mark,
    failure_status, listed_run_cost, run_list_limit, snapshot_run_prices, task_completion,
    writing_task_kind,
};
use novel_core::ai::tasks::{AiError, AiTaskContextPreference, AiTaskKind, AiTaskPromptPreference, ConsistencyReviewFreshness};
use novel_core::application::assembly::ContextPackage;
use novel_core::domain::{
    AiAction, AiContractError, AiProposal, AiProposalStatus, ModelCapability, ModelProfile,
    ModelProfileInput, ModelProvider, PrivacyLevel, ReviewPurpose,
};
use novel_core::entity::{EntityError, EntityInput, EntityLifecycleStatus, EntityType};
use novel_core::entity_store::{
    archive_outcome, check_entity_upsert, entity_type_str, lifecycle_key, parse_entity_lifecycle,
    parse_entity_type, EntityStoreError,
};
use novel_core::ids::RecordId;
use novel_core::manuscript::{check_manuscript_save, normalize_document, validate_document, ManuscriptError};
use novel_core::plan::{
    can_hold, check_new_plan_node, check_plan_edit, check_plan_move, edited_plan_node,
    new_plan_node, parent_walk_ends, PlanError, PlanNode, PlanNodeKind,
};
use sha2::Digest;

fn id(n: u128) -> RecordId {
    RecordId::from_u128(n)
}

fn parse(text: &str) -> serde_json::Value {
    serde_json::from_str(text).expect("json")
}

#[test]
fn normalizing_numbers_blocks_without_ids_in_document_order() {
    let doc = r#"{"type":"doc","content":[{"type":"paragraph","content":[{"type":"text","text":"a"}]},{"type":"paragraph","attrs":{"blockId":"keep"}},{"type":"heading","attrs":{"level":1}},{"type":"quote","attrs":"odd"}]}"#;
    let normalized = normalize_document(doc).expect("normalize");
    assert_eq!(
        parse(&normalized),
        parse(r#"{"type":"doc","content":[{"type":"paragraph","attrs":{"blockId":"block-1"},"content":[{"type":"text","text":"a","attrs":{"blockId":"block-2"}}]},{"type":"paragraph","attrs":{"blockId":"keep"}},{"type":"heading","attrs":{"level":1,"blockId":"block-3"}},{"type":"quote","attrs":"odd"}]}"#)
    );
    assert_eq!(normalize_document(r#"{"type":"paragraph"}"#), Err(ManuscriptError::InvalidDocument("root type must be doc".into())));
    assert!(matches!(normalize_document("{"), Err(ManuscriptError::InvalidDocument(_))));
    assert_eq!(validate_document(r#"{"type":"doc"}"#), Ok(()));
}

#[test]
fn manuscript_saves_check_chapter_and_base_revision() {
    let doc = r#"{"type":"doc","content":[]}"#;
    let (stored, hash) = check_manuscript_save(id(1), true, None, Some(id(2)), doc).expect("save");
    assert_eq!(parse(&stored), parse(doc));
    assert_eq!(hash, format!("{:x}", sha2::Sha256::digest(stored.as_bytes())));
    assert!(check_manuscript_save(id(1), true, Some(id(2)), Some(id(2)), doc).is_ok());
    assert_eq!(check_manuscript_save(id(1), false, None, None, doc), Err(ManuscriptError::MissingChapter(id(1))));
    assert_eq!(
        check_manuscript_save(id(1), true, Some(id(3)), Some(id(2)), doc),
        Err(ManuscriptError::Conflict { expected: Some(id(3)), actual: Some(id(2)) })
    );
    assert!(matches!(check_manuscript_save(id(1), true, None, None, "[]"), Err(ManuscriptError::InvalidDocument(_))));
}

fn node(n: u128, parent: Option<u128>, kind: PlanNodeKind, revision: i64) -> PlanNode {
    PlanNode { id: id(n), parent_id: parent.map(id), kind, title: format!("节点{n}"), sort_order: 0, archived: false, revision }
}

#[test]
fn plan_tree_keeps_its_shape() {
    assert!(can_hold(PlanNodeKind::WorkDesign, PlanNodeKind::Outline));
    assert!(can_hold(PlanNodeKind::Outline, PlanNodeKind::Chapter));
    assert!(!can_hold(PlanNodeKind::Volume, PlanNodeKind::Scene));
    assert_eq!(PlanNodeKind::parse("VOLUME"), PlanNodeKind::Volume);
    assert_eq!(PlanNodeKind::parse("???"), PlanNodeKind::Outline);
    assert_eq!(PlanNodeKind::Scene.as_str(), "SCENE");
    assert_eq!(check_new_plan_node(None, None, PlanNodeKind::WorkDesign), Ok(()));
    assert_eq!(check_new_plan_node(Some(id(1)), None, PlanNodeKind::Outline), Err(PlanError::MissingParent(id(1))));
    assert_eq!(check_new_plan_node(Some(id(1)), Some("OUTLINE".into()), PlanNodeKind::Volume), Ok(()));
    assert_eq!(check_new_plan_node(Some(id(1)), Some("CHAPTER".into()), PlanNodeKind::Volume), Err(PlanError::InvalidParentKind));
    assert_eq!(check_new_plan_node(Some(id(1)), Some("BOGUS".into()), PlanNodeKind::Outline), Err(PlanError::InvalidParentKind));
    let fresh = new_plan_node(id(9), None, PlanNodeKind::WorkDesign, "设计".into(), 3);
    assert_eq!((fresh.revision, fresh.archived, fresh.sort_order), (1, false, 3));
}

#[test]
fn plan_moves_refuse_stale_versions_wrong_kinds_and_cycles() {
    let nodes = vec![
        node(1, None, PlanNodeKind::WorkDesign, 1),
        node(2, Some(1), PlanNodeKind::Outline, 1),
        node(3, Some(2), PlanNodeKind::Volume, 2),
        node(4, Some(3), PlanNodeKind::Chapter, 1),
        node(5, Some(2), PlanNodeKind::Outline, 1),
    ];
    assert_eq!(check_plan_move(&nodes, id(4), Some(id(2)), 1), Ok(()));
    assert_eq!(check_plan_move(&nodes, id(4), Some(id(2)), 7), Err(PlanError::Conflict { expected: 7, actual: 1 }));
    assert_eq!(check_plan_move(&nodes, id(8), None, 1), Err(PlanError::MissingNode(id(8))));
    assert_eq!(check_plan_move(&nodes, id(4), Some(id(4)), 1), Err(PlanError::Cycle));
    assert_eq!(check_plan_move(&nodes, id(4), Some(id(9)), 1), Err(PlanError::MissingParent(id(9))));
    assert_eq!(check_plan_move(&nodes, id(4), Some(id(1)), 1), Err(PlanError::InvalidParentKind));
    assert_eq!(check_plan_move(&nodes, id(2), Some(id(5)), 1), Err(PlanError::InvalidParentKind));
    let outline_under_design = vec![
        node(1, None, PlanNodeKind::WorkDesign, 1),
        node(2, Some(6), PlanNodeKind::Outline, 1),
        node(6, Some(7), PlanNodeKind::WorkDesign, 1),
        node(7, Some(2), PlanNodeKind::Outline, 1),
    ];
    assert_eq!(check_plan_move(&outline_under_design, id(2), Some(id(6)), 1), Err(PlanError::Cycle));
    assert_eq!(check_plan_move(&nodes, id(4), None, 1), Ok(()));
    assert_eq!(check_plan_edit(&nodes, id(3), Some(2)), Ok(2));
    assert_eq!(check_plan_edit(&nodes, id(3), Some(1)), Err(PlanError::Conflict { expected: 1, actual: 2 }));
    let edited = edited_plan_node(&nodes[2], "新卷".into(), true);
    assert_eq!((edited.revision, edited.archived, edited.title.as_str(), edited.parent_id), (3, true, "新卷", Some(id(2))));
}

fn entity_input(expected: Option<i64>, kind: EntityType) -> EntityInput {
    EntityInput {
        id: Some(id(1)),
        entity_type: kind,
        name: "林澈".into(),
        aliases: Vec::new(),
        description: String::new(),
        fixed_attributes_json: "{}".into(),
        tags: Vec::new(),
        base_revision_id: None,
        source_version: None,
        expected_version: expected,
    }
}

#[test]
fn entity_upserts_follow_versions_and_keep_their_type() {
    let stored = Some((3i64, "CHARACTER".to_owned(), 5i64));
    assert_eq!(check_entity_upsert(id(1), &entity_input(Some(3), EntityType::Character), &stored), Ok((4, 6)));
    assert_eq!(
        check_entity_upsert(id(1), &entity_input(None, EntityType::Character), &stored),
        Err(EntityStoreError::Contract(EntityError::Conflict { expected: -1, actual: 3 }))
    );
    assert_eq!(
        check_entity_upsert(id(1), &entity_input(Some(3), EntityType::Location), &stored),
        Err(EntityStoreError::Database("entity_type cannot change".into()))
    );
    assert_eq!(check_entity_upsert(id(1), &entity_input(None, EntityType::Item), &None), Ok((1, 1)));
    assert_eq!(check_entity_upsert(id(1), &entity_input(Some(1), EntityType::Item), &None), Err(EntityStoreError::MissingEntity(id(1))));
    assert_eq!(archive_outcome(id(1), 1, None, 2), Ok(()));
    assert_eq!(archive_outcome(id(1), 0, None, 2), Err(EntityStoreError::MissingEntity(id(1))));
    assert_eq!(archive_outcome(id(1), 0, Some(4), 2), Err(EntityStoreError::Contract(EntityError::Conflict { expected: 2, actual: 4 })));
    assert_eq!(entity_type_str(EntityType::Faction), "FACTION");
    assert_eq!(parse_entity_type("CONCEPT"), Some(EntityType::Concept));
    assert_eq!(parse_entity_type("concept"), None);
    assert_eq!(parse_entity_lifecycle("ARCHIVED"), EntityLifecycleStatus::Archived);
    assert_eq!(parse_entity_lifecycle("anything"), EntityLifecycleStatus::Active);
    assert_eq!(lifecycle_key(true), "ARCHIVED");
}

#[test]
fn flash_models_are_priced_by_beijing_peak_hours() {
    // 2024-01-01T02:00:00Z is Monday 10:00 in UTC+8.
    let monday_ten = 1_704_074_400;
    assert_eq!(
        snapshot_run_prices("DEEP_SEEK", "deepseek-flash", 1, 2, "USD".into(), monday_ten),
        (40_000, 2_000_000, 8_000_000, "CNY".to_owned())
    );
    let monday_thirteen = monday_ten + 3 * 3_600;
    assert_eq!(
        snapshot_run_prices("DEEP_SEEK", "deepseek-v4-flash", 1, 2, "USD".into(), monday_thirteen),
        (20_000, 1_000_000, 4_000_000, "CNY".to_owned())
    );
    let sunday_ten = monday_ten - 86_400;
    assert_eq!(snapshot_run_prices("DEEP_SEEK", "deepseek-flash", 1, 2, "USD".into(), sunday_ten).0, 20_000);
    assert_eq!(snapshot_run_prices("OPEN_AI", "deepseek-flash", 1, 2, "USD".into(), monday_ten), (0, 1, 2, "USD".to_owned()));
    assert_eq!(snapshot_run_prices("DEEP_SEEK", "deepseek-chat", 1, 2, "USD".into(), monday_ten), (0, 1, 2, "USD".to_owned()));
}

#[test]
fn runs_need_chat_profiles_and_count_their_output() {
    assert_eq!(check_chat_profile(id(1), Some("CHAT")), Ok(()));
    assert_eq!(check_chat_profile(id(1), None), Err(AiError::MissingProfile(id(1))));
    assert_eq!(check_chat_profile(id(1), Some("EMBEDDING")), Err(AiError::Contract(AiContractError::InvalidProviderCapability)));
    assert_eq!(writing_task_kind(AiAction::ConsistencyCheck), AiTaskKind::ConsistencyReview);
    assert_eq!(writing_task_kind(AiAction::Polish), AiTaskKind::Writing);
    assert_eq!(failure_status(&AiError::Cancelled), "CANCELLED");
    assert_eq!(failure_status(&AiError::Timeout), "FAILED");
    assert_eq!(task_completion("  ", None, 0, 0, 0), Err(AiError::InvalidResponse));
    assert_eq!(task_completion(" 一二三四五 ", None, 0, 0, 0), Ok((None, 2, None)));
    let usage = GenerationUsage { input_tokens: 100, output_tokens: 50, input_cache_hit_tokens: Some(40), input_cache_miss_tokens: Some(60) };
    let (input, output, cost) = task_completion("text", Some(&usage), 1_000_000, 2_000_000, -5).expect("complete");
    assert_eq!((input, output), (Some(100), 50));
    assert_eq!(cost, Some(160));
    assert_eq!(run_list_limit(None), -1);
    assert_eq!(run_list_limit(Some(0)), 1);
    assert_eq!(run_list_limit(Some(500)), 100);
    assert_eq!(listed_run_cost(Some(-3), 10, 10, 1, 1), Some(0));
    assert_eq!(listed_run_cost(None, 1_000, 1_000, 2_000_000, -1), Some(2_000));
}

fn proposal(action: AiAction, status: AiProposalStatus, output: &str) -> AiProposal {
    AiProposal {
        id: id(1),
        task_id: id(2),
        chapter_id: id(3),
        action,
        review_purpose: ReviewPurpose::Admission,
        target_revision_id: None,
        context_version: "v1".into(),
        prompt_version: "p1".into(),
        output_text: output.into(),
        accepted_text: None,
        status,
        created_at: "t".into(),
        decided_at: None,
    }
}

#[test]
fn proposal_decisions_follow_their_rules() {
    let pending = proposal(AiAction::Continue, AiProposalStatus::Pending, "新的段落。");
    assert_eq!(check_proposal_decision(&pending, AiProposalStatus::Accepted, None), Ok(Some("新的段落。".to_owned())));
    assert_eq!(check_proposal_decision(&pending, AiProposalStatus::Rejected, None), Ok(None));
    assert_eq!(
        check_proposal_decision(&pending, AiProposalStatus::PartiallyAccepted, Some("  ".into())),
        Err(AiError::Contract(AiContractError::EmptyAcceptedText))
    );
    assert_eq!(check_proposal_decision(&pending, AiProposalStatus::PartiallyAccepted, Some("一段".into())), Ok(Some("一段".to_owned())));
    assert_eq!(
        check_proposal_decision(&pending, AiProposalStatus::Pending, None),
        Err(AiError::Contract(AiContractError::InvalidProposalTransition))
    );
    let decided = proposal(AiAction::Continue, AiProposalStatus::Rejected, "x");
    assert_eq!(
        check_proposal_decision(&decided, AiProposalStatus::Accepted, None),
        Err(AiError::Contract(AiContractError::InvalidProposalTransition))
    );
    let review = proposal(AiAction::ConsistencyCheck, AiProposalStatus::Pending, "结论：通过");
    assert_eq!(
        check_proposal_decision(&review, AiProposalStatus::Accepted, None),
        Err(AiError::Contract(AiContractError::InvalidProposalTransition))
    );
    let needs_input = proposal(AiAction::Continue, AiProposalStatus::Pending, "[上下文不足] 缺少设定");
    assert_eq!(
        check_proposal_decision(&needs_input, AiProposalStatus::Accepted, None),
        Err(AiError::Contract(AiContractError::InvalidProposalTransition))
    );
    assert_eq!(check_proposal_decision(&needs_input, AiProposalStatus::Rejected, None), Ok(None));
    assert_eq!(check_feedback_note(Some("  ".into())), Ok(None));
    assert_eq!(check_feedback_note(Some("好".into())), Ok(Some("好".to_owned())));
    assert_eq!(
        check_feedback_note(Some("字".repeat(2_001))),
        Err(AiError::Contract(AiContractError::InvalidGenerationOptions))
    );
    assert_eq!(consistency_freshness_mark(&review, Some("v1")), Some(ConsistencyReviewFreshness::Fresh));
    assert_eq!(consistency_freshness_mark(&review, Some("v2")), Some(ConsistencyReviewFreshness::Stale));
    assert_eq!(consistency_freshness_mark(&review, None), Some(ConsistencyReviewFreshness::Unverified));
    assert_eq!(consistency_freshness_mark(&pending, Some("v1")), None);
}

fn profile(n: u128, capability: ModelCapability, provider: ModelProvider, base_url: &str, max_output: u32) -> ModelProfile {
    ModelProfile {
        id: id(n),
        name: "模型".into(),
        provider,
        capability,
        base_url: base_url.into(),
        model_id: "m".into(),
        context_window: 8_000,
        max_output_tokens: max_output,
        privacy_level: PrivacyLevel::AllowCloud,
        timeout_seconds: 30,
        retry_limit: 1,
        input_price_micros_per_million: 0,
        output_price_micros_per_million: 0,
        price_currency: "USD".into(),
        secret_ref: None,
        has_secret: false,
        created_at: "t".into(),
        updated_at: "t".into(),
    }
}

fn prompt(system: Option<&str>, template: Option<&str>, budget: Option<u32>) -> AiTaskPromptPreference {
    AiTaskPromptPreference {
        system_prompt: system.map(str::to_owned),
        instruction_template: template.map(str::to_owned),
        context: AiTaskContextPreference {
            include_project_context: None,
            include_reference_content: None,
            include_project_knowledge: None,
            include_current_draft: None,
            include_chapter_plan: None,
            input_token_budget: budget,
        },
    }
}

#[test]
fn task_preferences_are_checked_against_profiles() {
    let profiles = vec![
        profile(1, ModelCapability::Chat, ModelProvider::DeepSeek, "https://a", 100),
        profile(2, ModelCapability::Embedding, ModelProvider::SiliconFlow, "https://b", 100),
        profile(3, ModelCapability::Chat, ModelProvider::OpenAi, "https://c", 100),
    ];
    let plain = prompt(None, None, None);
    assert_eq!(validate_ai_task_preference(Some(id(1)), Some(id(3)), Some(10), &plain, true, &profiles), Ok(()));
    let invalid = Err(AiError::Contract(AiContractError::InvalidGenerationOptions));
    assert_eq!(validate_ai_task_preference(None, None, None, &plain, false, &profiles), invalid);
    assert_eq!(validate_ai_task_preference(None, None, Some(0), &plain, true, &profiles), invalid);
    assert_eq!(validate_ai_task_preference(None, None, None, &prompt(None, None, Some(100)), true, &profiles), invalid);
    assert_eq!(validate_ai_task_preference(None, None, None, &prompt(Some(&"字".repeat(20_001)), None, None), true, &profiles), invalid);
    assert_eq!(validate_ai_task_preference(Some(id(9)), None, None, &plain, true, &profiles), Err(AiError::MissingProfile(id(9))));
    assert_eq!(
        validate_ai_task_preference(Some(id(2)), None, None, &plain, true, &profiles),
        Err(AiError::Contract(AiContractError::InvalidProviderCapability))
    );
    assert_eq!(validate_ai_task_preference(Some(id(1)), Some(id(1)), None, &plain, true, &profiles), invalid);
}

fn package() -> ContextPackage {
    let mut p = ContextPackage::connection_test();
    p.system_prompt = "系统".into();
    p.user_prompt = "用户".into();
    p.prompt_version = "r3".into();
    p.context_version = "c1".into();
    p
}

#[test]
fn custom_prompts_change_versions_by_their_digest() {
    let mut unchanged = package();
    apply_task_prompt_preferences(&mut unchanged, &prompt(Some("  "), None, None), &[]);
    assert_eq!((unchanged.prompt_version.as_str(), unchanged.context_version.as_str()), ("r3", "c1"));

    let mut custom = package();
    apply_task_prompt_preferences(&mut custom, &prompt(Some(" 新系统 "), Some("写{{chapterTitle}}"), None), &[("chapterTitle", "第一章")]);
    assert_eq!(custom.system_prompt, "新系统");
    assert_eq!(custom.user_prompt, "用户\n\n[P0 自定义任务模板]\n写第一章");
    let digest = format!("{:x}", sha2::Sha256::digest(format!("{}\n{}", custom.system_prompt, custom.user_prompt).as_bytes()));
    assert_eq!(custom.prompt_version, format!("r3+task-{}", &digest[..8]));
    assert_eq!(custom.context_version, format!("c1+task-{}", &digest[..8]));
}

#[test]
fn provider_requests_take_their_shape_from_the_profile() {
    let deepseek = profile(1, ModelCapability::Chat, ModelProvider::DeepSeek, "https://api.deepseek.com//", 4_000);
    let shape = chat_request_shape(&deepseek, true, true, Some(9_000));
    assert_eq!(shape.endpoint, "https://api.deepseek.com/chat/completions");
    assert_eq!(shape.token_field, "max_tokens");
    assert_eq!(shape.max_output_tokens, 4_000);
    assert_eq!(shape.thinking.as_deref(), Some("disabled"));
    assert!(shape.include_usage);
    let openai = profile(2, ModelCapability::Chat, ModelProvider::OpenAi, "https://api.openai.com/v1", 0);
    let shape = chat_request_shape(&openai, true, false, None);
    assert_eq!(shape.token_field, "max_completion_tokens");
    assert_eq!(shape.max_output_tokens, 1);
    assert_eq!(shape.thinking, None);
    assert!(!shape.include_usage);
    assert_eq!(embedding_endpoint(&openai), "https://api.openai.com/v1/embeddings");
    assert_eq!(attempt_count(2), 3);
    assert_eq!(transport_error(true), AiError::Timeout);
    assert_eq!(after_failed_attempt(0, 3, AiError::RateLimited, true), RetryStep::Retry { delay_millis: 250 });
    assert_eq!(after_failed_attempt(1, 3, AiError::Network, false), RetryStep::Retry { delay_millis: 500 });
    assert_eq!(after_failed_attempt(2, 3, AiError::Network, false), RetryStep::Stop(AiError::Network));
    assert_eq!(after_failed_attempt(0, 3, AiError::Authentication, true), RetryStep::Stop(AiError::Authentication));
}

#[test]
fn embedding_batches_must_fill_each_input_once() {
    let embedder = profile(1, ModelCapability::Embedding, ModelProvider::SiliconFlow, "https://e", 1);
    let chat = profile(2, ModelCapability::Chat, ModelProvider::DeepSeek, "https://c", 1);
    assert_eq!(check_embedding_request(&embedder, "key", &vec!["a".into()]), Ok(true));
    assert_eq!(check_embedding_request(&embedder, "key", &Vec::new()), Ok(false));
    assert_eq!(check_embedding_request(&embedder, " ", &vec!["a".into()]), Err(AiError::MissingSecret));
    assert_eq!(
        check_embedding_request(&embedder, "key", &vec!["a".into(), " ".into()]),
        Err(AiError::Contract(AiContractError::EmptyAcceptedText))
    );
    assert_eq!(
        check_embedding_request(&chat, "key", &vec!["a".into()]),
        Err(AiError::Contract(AiContractError::InvalidProviderCapability))
    );
    assert_eq!(embedding_slots(3, &vec![Some(2), None, Some(0)]), Ok(vec![2, 1, 0]));
    assert_eq!(embedding_slots(2, &vec![Some(1), Some(1)]), Err(AiError::InvalidResponse));
    assert_eq!(embedding_slots(2, &vec![Some(5), None]), Err(AiError::InvalidResponse));
    assert_eq!(embedding_slots(2, &vec![None]), Err(AiError::InvalidResponse));
}

#[test]
fn profiles_are_stored_trimmed_with_saturated_prices() {
    let input = ModelProfileInput {
        id: Some(RecordId::from_u128(7)),
        name: "  Local writer ".into(),
        provider: ModelProvider::OpenAiCompatible,
        capability: ModelCapability::Chat,
        base_url: " https://api.example.com/v1//".into(),
        model_id: " writer-model\n".into(),
        context_window: 32_768,
        max_output_tokens: 4_096,
        privacy_level: PrivacyLevel::AllowCloud,
        timeout_seconds: 120,
        retry_limit: 1,
        input_price_micros_per_million: u64::MAX,
        output_price_micros_per_million: 25,
        price_currency: " usd ".into(),
    };
    let stored = stored_profile_input(&input);
    assert_eq!(stored.name, "Local writer");
    assert_eq!(stored.base_url, " https://api.example.com/v1");
    assert_eq!(stored.model_id, "writer-model");
    assert_eq!(stored.price_currency, "usd");
    assert_eq!(stored.id, input.id);
    assert_eq!(stored.context_window, 32_768);
    assert_eq!(price_column_of(stored.input_price_micros_per_million), i64::MAX);
    assert_eq!(price_column_of(stored.output_price_micros_per_million), 25);
    assert_eq!(price_column_of(i64::MAX as u64), i64::MAX);
}

#[test]
fn task_keys_read_back_and_quality_windows_are_clamped() {
    for task in [
        AiTaskKind::WorkDesign,
        AiTaskKind::Outline,
        AiTaskKind::VolumePlanning,
        AiTaskKind::ChapterSplit,
        AiTaskKind::ChapterPlan,
        AiTaskKind::ConsistencyReview,
        AiTaskKind::Writing,
        AiTaskKind::KnowledgeExtraction,
    ] {
        assert_eq!(AiTaskKind::from_storage_key(task.storage_key()), Some(task));
    }
    assert_eq!(AiTaskKind::from_storage_key("chapterPlan"), Some(AiTaskKind::ChapterPlan));
    assert_eq!(AiTaskKind::from_storage_key("ChapterPlan"), None);
    assert_eq!(AiTaskKind::from_storage_key(""), None);
    assert_eq!(quality_window(None), None);
    assert_eq!(quality_window(Some(0)).as_deref(), Some("-0 days"));
    assert_eq!(quality_window(Some(30)).as_deref(), Some("-29 days"));
    assert_eq!(quality_window(Some(10_000)).as_deref(), Some("-3649 days"));
}

fn render_variables_and_change_context_versions() {
    let mut context = ContextPackage::connection_test();
    let prompt_version_before = context.prompt_version.clone();
    let context_version_before = context.context_version.clone();
    let preference = prompt(
        Some("你是严谨的执行编辑。"),
        Some("章节：{{chapterTitle}}\n作者意见：{{userInstruction}}"),
        None,
    );

    apply_task_prompt_preferences(
        &mut context,
        &preference,
        &[("chapterTitle", "雨夜来客"), ("userInstruction", "让冲突先藏后露")],
    );

    assert_eq!(context.system_prompt, "你是严谨的执行编辑。");
    assert!(context
        .user_prompt
        .ends_with("[P0 自定义任务模板]\n章节：雨夜来客\n作者意见：让冲突先藏后露"));
    assert_ne!(context.prompt_version, prompt_version_before);
    assert_ne!(context.context_version, context_version_before);
}

#[test]
fn ai_task_prompt_preferences_render_variables_and_change_context_versions() {
    render_variables_and_change_context_versions();
}

#[test]
fn tests_task_prompt_preferences_render_variables_and_change_context_versions() {
    render_variables_and_change_context_versions();
}

#[test]
fn normalizing_gives_ids_at_the_deepest_nesting_that_parses() {
    let depth = 63;
    let mut doc = String::from(r#"{"type":"doc","content":["#);
    for _ in 0..depth - 1 {
        doc.push_str(r#"{"type":"section","content":["#);
    }
    doc.push_str(r#"{"type":"paragraph"}"#);
    for _ in 0..depth - 1 {
        doc.push_str("]}");
    }
    doc.push_str("]}");
    assert!(serde_json::from_str::<serde_json::Value>(&doc).is_ok());
    let normalized = normalize_document(&doc).expect("normalize");
    for k in 1..=depth {
        assert!(normalized.contains(&format!("\"blockId\":\"block-{k}\"")), "block-{k}");
    }
    assert_eq!(normalized.matches("blockId").count(), depth);
}

#[test]
fn parent_walks_end_at_the_root_or_the_target_and_not_on_a_cycle() {
    let tree = vec![
        node(1, None, PlanNodeKind::WorkDesign, 1),
        node(2, Some(1), PlanNodeKind::Outline, 1),
        node(3, Some(2), PlanNodeKind::Volume, 1),
    ];
    assert!(parent_walk_ends(&tree, Some(id(3)), id(9)));
    assert!(parent_walk_ends(&tree, Some(id(3)), id(2)));
    assert!(parent_walk_ends(&tree, None, id(2)));
    let looped = vec![
        node(2, Some(6), PlanNodeKind::Outline, 1),
        node(6, Some(7), PlanNodeKind::WorkDesign, 1),
        node(7, Some(2), PlanNodeKind::Outline, 1),
    ];
    assert!(parent_walk_ends(&looped, Some(id(6)), id(2)));
    assert!(!parent_walk_ends(&looped, Some(id(6)), id(1)));
}

#[test]
fn embedding_reply_slots_are_read_from_the_reply_text() {
    assert_eq!(embedding_reply_slots(2, r#"{"data":[{"index":1,"embedding":[0.5]},{"index":0,"embedding":[0.25]}]}"#), Ok(vec![1, 0]));
    assert_eq!(embedding_reply_slots(2, r#"{"data":[{"embedding":[0.5]},{"embedding":[0.25]}]}"#), Ok(vec![0, 1]));
    assert_eq!(embedding_reply_slots(2, r#"{"data":[{"index":1},{"index":1}]}"#), Err(AiError::InvalidResponse));
    assert_eq!(embedding_reply_slots(1, r#"{"items":[]}"#), Err(AiError::InvalidResponse));
    assert_eq!(embedding_reply_slots(1, "not json"), Err(AiError::InvalidResponse));
}
