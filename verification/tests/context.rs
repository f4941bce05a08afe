use novel_core::application::assembly::{AiTaskContract, AssembleContextInput, ContextPackage};
use novel_core::application::context::{AiTaskRole, ContextAssembler, ContextError, ContextSectionKind};
use novel_core::application::document::document_text_of;
use novel_core::application::version::push_contract;
use novel_core::application::review::{
    ReviewClaimExtractionInput, ReviewContextError, ReviewScopeBuilder, ReviewSemanticInput,
    ReviewSourceBlock,
};
use novel_core::domain::{
    AiAction, AiContractError, ContextAuthority, KnowledgeChunk, RetrievalEvidence, RetrievalMethod,
    ReviewPurpose,
};
use novel_core::ids::RecordId;
use novel_core::review_model::{
    EvidenceAuthority, ReviewClaim, ReviewClaimType, ReviewEvidence, ReviewEvidenceSource,
};

fn id(n: u128) -> RecordId {
    RecordId::from_u128(n)
}

fn writing_input(action: AiAction, document_json: &str) -> AssembleContextInput {
    AssembleContextInput {
        chapter_id: id(1),
        target_revision_id: None,
        action,
        chapter_title: "第一章".into(),
        chapter_plan: "主角抵达车站".into(),
        document_json: document_json.into(),
        selection: None,
        instruction: None,
        input_token_budget: 2048,
    }
}

#[test]
fn context_versions_are_stable_and_selection_is_enforced() {
    let input = writing_input(
        AiAction::Continue,
        r#"{"type":"doc","content":[{"type":"paragraph","content":[{"type":"text","text":"雨停了。"}]}]}"#,
    );
    let first = ContextAssembler::assemble(&input).expect("assemble");
    let second = ContextAssembler::assemble(&input).expect("assemble again");
    assert_eq!(first.context_version, second.context_version);
    let mut rewrite = input;
    rewrite.action = AiAction::Rewrite;
    assert!(matches!(
        ContextAssembler::assemble(&rewrite),
        Err(ContextError::Contract(AiContractError::SelectionRequired))
    ));
}

fn fact_evidence(relevance: u16) -> RetrievalEvidence {
    RetrievalEvidence {
        chunk: KnowledgeChunk {
            id: id(77),
            source_id: id(78),
            source_revision: "character-r2".into(),
            source_hash: "sha256:def".into(),
            chunk_index: 0,
            chunking_version: "knowledge-chunk-v1".into(),
            content: "林澈不饮酒。".into(),
            embedding: None,
        },
        method: RetrievalMethod::Structured,
        authority: ContextAuthority::AuthoritativeFact,
        relevance,
    }
}

#[test]
fn retrieved_original_text_is_deduplicated_and_auditable() {
    let input = AssembleContextInput {
        chapter_id: id(2),
        target_revision_id: None,
        action: AiAction::Continue,
        chapter_title: "第十章".into(),
        chapter_plan: "宴会冲突".into(),
        document_json: r#"{"type":"doc","content":[]}"#.into(),
        selection: None,
        instruction: Some("保持人物习惯".into()),
        input_token_budget: 2048,
    };
    let package = ContextAssembler::assemble_with_retrieval(&input, &vec![fact_evidence(9_000), fact_evidence(8_000)])
        .expect("assemble with retrieval");
    assert_eq!(package.entity_source_status, "RETRIEVAL_ATTACHED");
    assert_eq!(package.retrieval_evidence.len(), 1);
    assert_eq!(package.user_prompt.matches("林澈不饮酒。").count(), 1);
    assert!(package.user_prompt.contains("[P1 已批准事实]"));
    assert_eq!(package.retrieval_evidence[0].authority, ContextAuthority::AuthoritativeFact);
}

#[test]
fn retrieval_marks_missing_source_versions_as_unverified() {
    let mut input = writing_input(AiAction::Continue, r#"{"type":"doc","content":[]}"#);
    input.chapter_plan = String::new();
    let evidence = RetrievalEvidence {
        chunk: KnowledgeChunk {
            id: id(10),
            source_id: id(11),
            source_revision: "search:current".into(),
            source_hash: "sha256:test".into(),
            chunk_index: 0,
            chunking_version: "r4-search-v1".into(),
            content: "未绑定版本的搜索材料".into(),
            embedding: None,
        },
        method: RetrievalMethod::Keyword,
        authority: ContextAuthority::Reference,
        relevance: 5000,
    };
    let package = ContextAssembler::assemble_with_retrieval(&input, &vec![evidence]).expect("assemble");
    assert_eq!(package.entity_source_status, "SOURCE_VERSION_UNVERIFIED");
}

#[test]
fn writing_calls_have_bounded_roles_and_audited_priority_sections() {
    let input = AssembleContextInput {
        chapter_id: id(3),
        target_revision_id: Some(id(4)),
        action: AiAction::Continue,
        chapter_title: "第三章".into(),
        chapter_plan: "主角必须在雨夜抵达码头。".into(),
        document_json: format!(
            r#"{{"type":"doc","content":[{{"type":"paragraph","content":[{{"type":"text","text":"{}结尾锚点"}}]}}]}}"#,
            "远处的雨声。".repeat(1_000)
        ),
        selection: None,
        instruction: Some("不要新增命名人物。".into()),
        input_token_budget: 1_024,
    };
    let package = ContextAssembler::assemble(&input).expect("assemble contract");
    assert_eq!(package.prompt_version, "r3-writing-v2");
    assert_eq!(package.task_contract.role, AiTaskRole::DraftWriter);
    assert!(package.task_contract.forbidden_actions.iter().any(|item| item.contains("正式正文")));
    assert!(package.user_prompt.contains("[P0 任务合同]"));
    assert!(package.user_prompt.contains("[P0 用户本次明确指令]"));
    assert!(package.user_prompt.contains("不要新增命名人物。"));
    assert!(package.user_prompt.contains("结尾锚点"));
    assert!(package.truncated);
    assert!(package
        .section_audit
        .iter()
        .any(|item| item.kind == ContextSectionKind::CurrentDraft && item.truncated));

    for (action, expected_role) in [
        (AiAction::Continue, AiTaskRole::DraftWriter),
        (AiAction::Rewrite, AiTaskRole::SelectionReviser),
        (AiAction::Polish, AiTaskRole::SelectionReviser),
        (AiAction::Summarize, AiTaskRole::ChapterSummarizer),
    ] {
        let mut action_input = input.clone();
        action_input.action = action;
        action_input.selection = if action.requires_selection() { Some("选区内容".to_owned()) } else { None };
        let action_package = ContextAssembler::assemble(&action_input).expect("assemble action role");
        assert_eq!(action_package.task_contract.role, expected_role);
    }
}

#[test]
fn context_version_is_a_digest_that_follows_the_request() {
    let input = writing_input(AiAction::Continue, r#"{"type":"doc","content":[]}"#);
    let first = ContextAssembler::assemble(&input).expect("assemble");
    assert_eq!(first.context_version.len(), 64);
    assert!(first.context_version.chars().all(|c| c.is_ascii_hexdigit() && !c.is_ascii_uppercase()));
    let mut other = input.clone();
    other.instruction = Some("加快节奏".into());
    let second = ContextAssembler::assemble(&other).expect("assemble other");
    assert_ne!(first.context_version, second.context_version);
}

#[test]
fn assembly_refuses_small_budgets_and_foreign_documents() {
    let mut input = writing_input(AiAction::Continue, r#"{"type":"doc","content":[]}"#);
    input.input_token_budget = 255;
    assert_eq!(ContextAssembler::assemble(&input), Err(ContextError::BudgetTooSmall));
    input.input_token_budget = 256;
    assert!(ContextAssembler::assemble(&input).is_ok());
    let paragraph = writing_input(AiAction::Continue, r#"{"type":"paragraph"}"#);
    assert_eq!(
        ContextAssembler::assemble(&paragraph),
        Err(ContextError::InvalidDocument("root type must be doc".into()))
    );
    let broken = writing_input(AiAction::Continue, "{not json");
    assert!(matches!(ContextAssembler::assemble(&broken), Err(ContextError::InvalidDocument(_))));
}

#[test]
fn evidence_without_a_source_revision_is_refused() {
    let input = writing_input(AiAction::Continue, r#"{"type":"doc","content":[]}"#);
    let mut evidence = fact_evidence(9_000);
    evidence.chunk.source_revision = "  ".into();
    assert!(matches!(
        ContextAssembler::assemble_with_retrieval(&input, &vec![evidence]),
        Err(ContextError::Contract(_))
    ));
}

#[test]
fn summaries_keep_the_head_of_a_long_draft() {
    let mut input = writing_input(
        AiAction::Summarize,
        &format!(
            r#"{{"type":"doc","content":[{{"type":"paragraph","content":[{{"type":"text","text":"开头锚点{}"}}]}}]}}"#,
            "远处的雨声。".repeat(1_000)
        ),
    );
    input.input_token_budget = 1_024;
    let package = ContextAssembler::assemble(&input).expect("assemble summary");
    assert!(package.truncated);
    assert!(package.user_prompt.contains("开头锚点"));
    assert_eq!(package.task_contract.role, AiTaskRole::ChapterSummarizer);
}

#[test]
fn connection_test_package_is_fixed() {
    let package = ContextPackage::connection_test();
    assert_eq!(package.context_version, "connection-test-v2");
    assert_eq!(package.user_prompt, "只回复 OK。");
    assert_eq!(package.estimated_input_tokens, 16);
    assert_eq!(package.task_contract.role, AiTaskRole::ApiConnectionTester);
    assert!(package.section_audit.is_empty());
}

#[test]
fn document_text_reads_paragraphs_in_order() {
    let text = document_text_of(
        r#"{"type":"doc","content":[{"type":"paragraph","content":[{"type":"text","text":"雨停了。"}]},{"type":"paragraph","content":[{"type":"text","text":"灯亮了。"}]}]}"#,
    );
    assert_eq!(text, Ok("雨停了。\n灯亮了。".to_owned()));
    assert_eq!(document_text_of(r#"{"type":"note"}"#), Err("root type must be doc".to_owned()));
    assert!(document_text_of("[").is_err());
}

#[test]
fn review_stages_keep_unrelated_project_context_out() {
    let chapter_id = id(5);
    let claim_id = id(6);
    let extraction = ReviewScopeBuilder::claim_extraction(&ReviewClaimExtractionInput {
        review_purpose: ReviewPurpose::Manuscript,
        chapter_id,
        target_revision_id: Some(id(7)),
        chapter_title: "第一章".to_owned(),
        blocks: vec![ReviewSourceBlock { block_id: "block-1".to_owned(), text: "林澈抵达城门。".to_owned() }],
        locked_rules: "人物死亡后不得再次正常出场。".to_owned(),
        input_token_budget: 4_096,
    })
    .expect("claim context");
    assert!(extraction.user_prompt.contains("林澈抵达城门"));
    assert!(extraction.user_prompt.contains("人物死亡后不得再次正常出场"));
    assert!(!extraction.user_prompt.contains("无关作品全量摘要"));

    let semantic = ReviewScopeBuilder::semantic_review(&ReviewSemanticInput {
        review_purpose: ReviewPurpose::Manuscript,
        chapter_id,
        target_revision_id: None,
        claims: vec![ReviewClaim {
            id: claim_id,
            claim_type: ReviewClaimType::CharacterLocation,
            subject: "林澈".to_owned(),
            predicate: "位于".to_owned(),
            object: "城门".to_owned(),
            quote: "林澈抵达城门".to_owned(),
            block_id: "block-1".to_owned(),
            start_offset: 0,
            end_offset: 6,
            importance: 4,
            confidence: 90,
        }],
        evidence: vec![ReviewEvidence {
            id: id(8),
            claim_id,
            source_kind: ReviewEvidenceSource::WorldState,
            source_record_id: id(9),
            authority: EvidenceAuthority::CurrentState,
            excerpt: "林澈位于城门。".to_owned(),
            source_revision: "world-state-v1".to_owned(),
            relevance: 9_000,
        }],
        input_token_budget: 4_096,
    })
    .expect("semantic context");
    assert!(semantic.user_prompt.contains("林澈位于城门"));
    assert!(!semantic.user_prompt.contains("无关作品全量摘要"));
    assert_ne!(extraction.context_version, semantic.context_version);
}

#[test]
fn claim_extraction_frames_blocks_and_audits_them() {
    let package = ReviewScopeBuilder::claim_extraction(&ReviewClaimExtractionInput {
        review_purpose: ReviewPurpose::Admission,
        chapter_id: id(5),
        target_revision_id: None,
        chapter_title: "  第二章 ".to_owned(),
        blocks: vec![ReviewSourceBlock { block_id: "b\"1".to_owned(), text: "他说：\"走\"".to_owned() }],
        locked_rules: "   ".to_owned(),
        input_token_budget: 10,
    })
    .expect("claim context");
    assert!(package.user_prompt.contains("[作者锁定规则]\n无\n"));
    assert!(package.user_prompt.contains(r#"[{"block_id":"b\"1","text":"他说：\"走\""}]"#));
    assert!(package.system_prompt.starts_with("你是小说创作准入声明提取器"));
    assert!(package.task_contract.output_contract.contains("REQUIRED_EVENT|FORBIDDEN_EVENT"));
    assert_eq!(package.estimated_input_tokens, 10);
    assert_eq!(package.action, AiAction::ConsistencyCheck);
    assert_eq!(package.entity_source_status, "NOT_USED");
    assert_eq!(package.section_audit.len(), 1);
    assert_eq!(package.section_audit[0].source_count, 1);
    assert_eq!(
        package.section_audit[0].included_chars as usize,
        r#"[{"block_id":"b\"1","text":"他说：\"走\""}]"#.chars().count()
    );
    assert_eq!(package.context_version.len(), 64);
    assert_eq!(
        ReviewContextError::Serialization("x".into()).message(),
        "review context serialization failed: x"
    );
}

#[test]
fn canonical_contracts_escape_text_and_write_hyphenated_identifiers() {
    let contract = AiTaskContract {
        role: AiTaskRole::DraftWriter,
        goal: "a\"b\\c\nd\u{1}e\u{8}\u{c}\r\t".into(),
        target_type: "chapter".into(),
        target_id: RecordId::from_u128(0x0123_4567_89ab_cdef_0123_4567_89ab_cdef),
        target_revision_id: None,
        permissions: vec![],
        forbidden_actions: vec!["无".into()],
        acceptance_criteria: vec![],
        uncertainty_policy: "ask".into(),
        output_contract: "text".into(),
    };
    let mut out = Vec::new();
    push_contract(&mut out, &contract);
    let json = out.into_iter().collect::<String>();
    assert!(json.contains(r#""goal":"a\"b\\c\nd\u0001e\b\f\r\t""#));
    assert!(json.contains(r#""targetId":"01234567-89ab-cdef-0123-456789abcdef""#));
    assert!(json.contains(r#""targetRevisionId":null"#));
    assert!(json.contains(r#""forbiddenActions":["无"]"#));
    let parsed: serde_json::Value = serde_json::from_str(&json).expect("canonical JSON");
    assert_eq!(parsed["goal"], "a\"b\\c\nd\u{1}e\u{8}\u{c}\r\t");
}
