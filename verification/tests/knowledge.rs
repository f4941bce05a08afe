use novel_core::ai::quality::{summarize_quality, QualityRow};
use novel_core::ai::tasks::AiError;
use novel_core::ai::usage::{summarize_usage, usage_window, UsageRunRow};
use novel_core::application::assembly::AssembleContextInput;
use novel_core::candidates::candidate::{ContextCandidate, ContextCandidateKind};
use novel_core::candidates::collect::{collect_context_candidates, input_search_query};
use novel_core::candidates::knowledge::{
    EntitySnapshot, Foreshadowing, ProjectKnowledge, SearchResult, StoryEvent, WorldState,
    WorldStateEntry,
};
use novel_core::candidates::scoring::score_values;
use novel_core::domain::{AiAction, ContextAuthority, Fact, KnowledgeLifecycleStatus, RetrievalMethod};
use novel_core::entity::{Entity, EntityLifecycleStatus, EntityRevision, EntityType};
use novel_core::ids::RecordId;
use novel_core::manuscript::{merge_documents, ManuscriptError};
use novel_core::materials::{SummaryKind, SummaryMaterial, SummaryPrecision};
use sha2::Digest;

fn id(n: u128) -> RecordId {
    RecordId::from_u128(n)
}

fn chars(s: &str) -> Vec<char> {
    s.chars().collect()
}

#[test]
fn keyword_scores_reward_whole_matches_over_shared_characters() {
    let query = chars("第一章林澈抵达城门");
    assert_eq!(score_values(&query, &vec![chars("林澈")]), 5_400);
    assert_eq!(score_values(&query, &vec![chars("林某")]), 200);
    assert_eq!(score_values(&query, &vec![chars("林")]), 0);
    assert_eq!(score_values(&query, &vec![chars("林某"), chars("城门")]), 5_400);
    assert_eq!(score_values(&query, &vec![chars("第一章林澈抵达城门第一章林澈抵达城门第一章林澈")]), 3_000);
    assert_eq!(score_values(&Vec::new(), &vec![chars("林澈")]), 0);
    let long = chars("甲乙丙丁戊己庚辛壬癸子丑寅卯辰巳午未申酉戌亥");
    let whole: Vec<char> = long.clone();
    assert_eq!(score_values(&whole, &vec![long.clone()]), 9_000);
}

fn fact(n: u128, s: &str, p: &str, o: &str, version: u32) -> Fact {
    Fact {
        knowledge_id: id(n),
        project_id: id(1),
        knowledge_version: version,
        subject: s.into(),
        predicate: p.into(),
        object: o.into(),
        source_revision_id: id(2),
        evidence_anchor_ids: Vec::new(),
        lifecycle_status: KnowledgeLifecycleStatus::Active,
        created_by: "author".into(),
        created_at: "2024-01-01".into(),
        updated_at: "2024-01-01".into(),
    }
}

fn entity(n: u128, name: &str, aliases: &[&str], description: &str, fixed: &str) -> EntitySnapshot {
    EntitySnapshot {
        entity: Entity {
            id: id(n),
            project_id: id(1),
            entity_type: EntityType::Character,
            lifecycle_status: EntityLifecycleStatus::Active,
            current_revision_id: id(n + 1),
            version: 1,
            created_at: "t".into(),
            updated_at: "t".into(),
        },
        revision: EntityRevision {
            id: id(n + 1),
            entity_id: id(n),
            revision: 3,
            name: name.into(),
            aliases: aliases.iter().map(|a| a.to_string()).collect(),
            description: description.into(),
            fixed_attributes_json: fixed.into(),
            tags: Vec::new(),
            base_revision_id: None,
            source_version: None,
            created_at: "t".into(),
        },
    }
}

fn hash_of(text: &str) -> String {
    format!("sha256:{:x}", sha2::Sha256::digest(text.as_bytes()))
}

fn check(c: &ContextCandidate, kind: ContextCandidateKind, content: &str, source: RecordId, revision: &str, authority: ContextAuthority, relevance: u16) {
    assert_eq!(c.kind, kind);
    assert_eq!(c.evidence.chunk.content, content);
    assert_eq!(c.evidence.chunk.source_id, source);
    assert_eq!(c.evidence.chunk.source_revision, revision);
    assert_eq!(c.evidence.chunk.source_hash, hash_of(content));
    assert_eq!(c.evidence.chunk.chunk_index, 0);
    assert_eq!(c.evidence.chunk.chunking_version, "context-candidate-v1");
    assert!(c.evidence.chunk.embedding.is_none());
    assert_eq!(c.evidence.authority, authority);
    assert_eq!(c.evidence.relevance, relevance);
}

#[test]
fn context_candidates_rank_each_section_and_skip_covered_hits() {
    let chapter = id(500);
    let input = AssembleContextInput {
        chapter_id: chapter,
        target_revision_id: None,
        action: AiAction::Continue,
        chapter_title: "第一章".into(),
        chapter_plan: "林澈抵达城门".into(),
        document_json: r#"{"type":"doc","content":[]}"#.into(),
        selection: None,
        instruction: None,
        input_token_budget: 2048,
    };
    let mut facts = vec![fact(10, "苏晚", "喜欢", "茶", 1), fact(11, "林澈", "位于", "城门", 3)];
    for n in 0..11u128 {
        facts.push(fact(20 + n, "某人", "拥有", "某物", 1));
    }
    let knowledge = ProjectKnowledge {
        facts,
        world_state: Some(WorldState {
            id: id(40),
            entries: vec![WorldStateEntry {
                subject: "林澈".into(),
                predicate: "在".into(),
                object: "城门".into(),
                fact_knowledge_id: id(11),
                fact_version: 2,
            }],
        }),
        entities: vec![
            entity(50, "苏晚", &[], "配角", r#"{"age":18}"#),
            entity(60, "林澈", &["阿澈", "澈哥"], " 主角 ", " {} "),
        ],
        foreshadowings: vec![
            Foreshadowing {
                id: id(70),
                title: "城门之约".into(),
                status: "OPEN".into(),
                lifecycle_status: KnowledgeLifecycleStatus::Active,
                target_chapter_id: Some(chapter),
                foreshadowing_version: 4,
            },
            Foreshadowing {
                id: id(71),
                title: "林澈".into(),
                status: "resolved".into(),
                lifecycle_status: KnowledgeLifecycleStatus::Active,
                target_chapter_id: None,
                foreshadowing_version: 1,
            },
            Foreshadowing {
                id: id(72),
                title: "林澈".into(),
                status: "OPEN".into(),
                lifecycle_status: KnowledgeLifecycleStatus::Archived,
                target_chapter_id: None,
                foreshadowing_version: 1,
            },
        ],
        summaries: vec![
            SummaryMaterial {
                id: id(80),
                project_id: id(1),
                kind: SummaryKind::Setting,
                precision: SummaryPrecision::L2,
                source_id: None,
                source_version: Some("summary-v1".into()),
                content: " 城门设定 ".into(),
                generation_mode: "MANUAL".into(),
                lifecycle_status: "ACTIVE".into(),
                created_at: "t".into(),
                updated_at: "t".into(),
            },
            SummaryMaterial {
                id: id(81),
                project_id: id(1),
                kind: SummaryKind::Chapter,
                precision: SummaryPrecision::L0,
                source_id: Some(chapter),
                source_version: None,
                content: "林澈".into(),
                generation_mode: "MANUAL".into(),
                lifecycle_status: "ARCHIVED".into(),
                created_at: "t".into(),
                updated_at: "t".into(),
            },
        ],
        events: vec![StoryEvent {
            id: id(90),
            name: "城门相遇".into(),
            occurred_at: "第一天".into(),
            lifecycle_status: KnowledgeLifecycleStatus::Active,
            participant_fact_ids: vec![id(11)],
            event_version: 1,
        }],
        object_hits: vec![
            SearchResult { object_id: id(11), object_type: "FACT".into(), snippet: "重复".into(), source_version: None },
            SearchResult { object_id: id(95), object_type: "ENTITY".into(), snippet: "城门守卫".into(), source_version: None },
        ],
        search_hits: vec![SearchResult {
            object_id: id(96),
            object_type: "SUMMARY".into(),
            snippet: "旧事".into(),
            source_version: Some("s-9".into()),
        }],
    };
    let candidates = collect_context_candidates(&input, &knowledge);
    assert_eq!(candidates.len(), 20);
    let fact_revision = format!("fact:{}:v3", id(11).to_text());
    check(&candidates[0], ContextCandidateKind::AuthoritativeFact, "林澈 位于 城门", id(11), &fact_revision, ContextAuthority::AuthoritativeFact, 7_000);
    check(&candidates[1], ContextCandidateKind::AuthoritativeFact, "苏晚 喜欢 茶", id(10), &format!("fact:{}:v1", id(10).to_text()), ContextAuthority::AuthoritativeFact, 7_000);
    assert!(candidates[..12].iter().all(|c| c.kind == ContextCandidateKind::AuthoritativeFact));
    assert!(candidates[..12].iter().all(|c| c.evidence.chunk.source_id != id(30)));
    let state_revision = format!("world-state:{}:fact:{}:v2", id(40).to_text(), id(11).to_text());
    check(&candidates[12], ContextCandidateKind::CurrentState, "林澈 在 城门", id(11), &state_revision, ContextAuthority::TaskMaterial, 6_500);
    check(&candidates[13], ContextCandidateKind::Entity, "林澈（人物）：主角\n别名：阿澈、澈哥", id(60), &format!("entity:{}:r3", id(60).to_text()), ContextAuthority::TaskMaterial, 6_000);
    check(&candidates[14], ContextCandidateKind::Entity, "苏晚（人物）：配角\n固定属性：{\"age\":18}", id(50), &format!("entity:{}:r3", id(50).to_text()), ContextAuthority::TaskMaterial, 6_000);
    check(&candidates[15], ContextCandidateKind::Foreshadowing, "未回收伏笔：城门之约（OPEN）", id(70), &format!("foreshadowing:{}:v4", id(70).to_text()), ContextAuthority::TaskMaterial, 5_500);
    check(&candidates[16], ContextCandidateKind::Summary, "L2 设定摘要：城门设定", id(80), "summary-v1", ContextAuthority::Reference, 4_000);
    check(&candidates[17], ContextCandidateKind::Event, "事件（第一天）：城门相遇", id(90), &format!("event:{}:v1", id(90).to_text()), ContextAuthority::Reference, 3_500);
    check(&candidates[18], ContextCandidateKind::Keyword, "城门守卫", id(95), "search:current", ContextAuthority::TaskMaterial, 5_000);
    check(&candidates[19], ContextCandidateKind::Keyword, "旧事", id(96), "s-9", ContextAuthority::Reference, 5_000);
    assert_eq!(candidates[18].evidence.method, RetrievalMethod::Keyword);
    assert_eq!(candidates[0].evidence.method, RetrievalMethod::Structured);
    assert_ne!(candidates[0].evidence.chunk.id, candidates[1].evidence.chunk.id);
}

#[test]
fn search_query_prefers_the_instruction() {
    let mut input = AssembleContextInput {
        chapter_id: id(1),
        target_revision_id: None,
        action: AiAction::Continue,
        chapter_title: " 第一章 ".into(),
        chapter_plan: String::new(),
        document_json: "{}".into(),
        selection: None,
        instruction: None,
        input_token_budget: 2048,
    };
    assert_eq!(input_search_query(&input), "第一章");
    input.instruction = Some("  城门 ".into());
    assert_eq!(input_search_query(&input), "城门");
}

fn parse(text: &str) -> serde_json::Value {
    serde_json::from_str(text).expect("json")
}

#[test]
fn merge_takes_each_sides_changes_and_reports_conflicts() {
    let base = r#"{"type":"doc","content":[{"type":"p","attrs":{"blockId":"a"},"text":"1"},{"type":"p","attrs":{"blockId":"b"},"text":"2"}]}"#;
    let current = r#"{"type":"doc","content":[{"type":"p","attrs":{"blockId":"a"},"text":"1"},{"type":"p","attrs":{"blockId":"b"},"text":"2c"}]}"#;
    let draft = r#"{"type":"doc","content":[{"type":"p","attrs":{"blockId":"a"},"text":"1d"},{"type":"p","attrs":{"blockId":"b"},"text":"2"},{"type":"p","attrs":{"blockId":"c"},"text":"3"}]}"#;
    let merged = merge_documents(base, current, draft).expect("merge");
    assert!(merged.conflicts.is_empty());
    assert_eq!(
        parse(&merged.document_json),
        parse(r#"{"type":"doc","content":[{"type":"p","attrs":{"blockId":"a"},"text":"1d"},{"type":"p","attrs":{"blockId":"b"},"text":"2c"},{"type":"p","attrs":{"blockId":"c"},"text":"3"}]}"#)
    );

    let rival = r#"{"type":"doc","content":[{"type":"p","attrs":{"blockId":"a"},"text":"1"},{"type":"p","attrs":{"blockId":"b"},"text":"2d"}]}"#;
    let conflicted = merge_documents(base, current, rival).expect("merge with conflict");
    assert_eq!(conflicted.conflicts.len(), 1);
    let conflict = &conflicted.conflicts[0];
    assert_eq!(conflict.block_id, "b");
    assert_eq!(parse(conflict.base.as_deref().unwrap()), parse(r#"{"type":"p","attrs":{"blockId":"b"},"text":"2"}"#));
    assert_eq!(parse(conflict.current.as_deref().unwrap()), parse(r#"{"type":"p","attrs":{"blockId":"b"},"text":"2c"}"#));
    assert_eq!(parse(conflict.draft.as_deref().unwrap()), parse(r#"{"type":"p","attrs":{"blockId":"b"},"text":"2d"}"#));
    assert_eq!(
        parse(&conflicted.document_json),
        parse(r#"{"type":"doc","content":[{"type":"p","attrs":{"blockId":"a"},"text":"1"},{"type":"p","attrs":{"blockId":"b"},"text":"2c"}]}"#)
    );
}

#[test]
fn merge_drops_blocks_deleted_on_one_untouched_side() {
    let base = r#"{"type":"doc","content":[{"attrs":{"blockId":"a"},"text":"1"},{"attrs":{"blockId":"b"},"text":"2"}]}"#;
    let draft = r#"{"type":"doc","content":[{"attrs":{"blockId":"a"},"text":"1"}]}"#;
    let merged = merge_documents(base, base, draft).expect("merge");
    assert_eq!(parse(&merged.document_json), parse(draft));
    assert!(merged.conflicts.is_empty());
}

#[test]
fn merge_compares_blocks_as_json_values() {
    let base = r#"{"type":"doc","content":[{"attrs":{"blockId":"a"},"weight":0.0}]}"#;
    let current = r#"{"type":"doc","content":[{"attrs":{"blockId":"a"},"weight":-0.0}]}"#;
    let draft = r#"{"type":"doc","content":[{"attrs":{"blockId":"a"},"weight":2}]}"#;
    let merged = merge_documents(base, current, draft).expect("merge");
    assert!(merged.conflicts.is_empty());
    assert_eq!(parse(&merged.document_json), parse(draft));
}

#[test]
fn merge_refuses_texts_that_are_not_json() {
    let good = r#"{"type":"doc","content":[]}"#;
    assert!(matches!(merge_documents("{", good, good), Err(ManuscriptError::InvalidDocument(m)) if !m.is_empty()));
    assert!(matches!(merge_documents(good, good, "nope"), Err(ManuscriptError::InvalidDocument(_))));
}

fn run(task: &str, currency: &str, input: u64, output: u64, actual: Option<u64>, date: Option<&str>) -> UsageRunRow {
    UsageRunRow {
        task_key: task.into(),
        input_tokens: input,
        output_tokens: output,
        input_price: 2_000_000,
        output_price: 8_000_000,
        currency: currency.into(),
        actual_cost_micros: actual,
        date: date.map(str::to_owned),
    }
}

#[test]
fn usage_totals_group_by_currency_task_and_day() {
    let runs = vec![
        run("WRITE", "CNY", 1_000, 500, None, Some("2024-05-01")),
        run("REVIEW", "CNY", 2_000, 0, Some(7), Some("2024-05-02")),
        run("WRITE", "USD", 10, 10, None, Some("2024-05-02")),
    ];
    let summary = summarize_usage(0, &runs, &runs).expect("summary");
    assert_eq!(summary.days, 1);
    assert_eq!(summary.total.len(), 2);
    assert_eq!(summary.total[0].currency, "CNY");
    assert_eq!(summary.total[0].run_count, 2);
    assert_eq!(summary.total[0].input_tokens, 3_000);
    assert_eq!(summary.total[0].estimated_cost_micros, Some(6_000 + 7));
    assert_eq!(summary.total[1].currency, "USD");
    assert_eq!(summary.total[1].estimated_cost_micros, Some(100));
    let tasks: Vec<(&str, &str)> = summary.by_task.iter().map(|t| (t.task_key.as_str(), t.usage.currency.as_str())).collect();
    assert_eq!(tasks, vec![("REVIEW", "CNY"), ("WRITE", "CNY"), ("WRITE", "USD")]);
    let days: Vec<(&str, &str)> = summary.daily.iter().map(|d| (d.date.as_str(), d.usage.currency.as_str())).collect();
    assert_eq!(days, vec![("2024-05-02", "CNY"), ("2024-05-02", "USD"), ("2024-05-01", "CNY")]);
    let undated = vec![run("WRITE", "CNY", 1, 1, None, None)];
    assert_eq!(summarize_usage(7, &runs, &undated), Err(AiError::InvalidResponse));
    assert_eq!(usage_window(400), (365, "-364 days".to_owned()));
    assert_eq!(usage_window(7), (7, "-6 days".to_owned()));
}

fn proposal(task: &str, status: &str, output: &str, rating: Option<&str>) -> QualityRow {
    QualityRow {
        task_key: task.into(),
        action: "SUMMARIZE".into(),
        prompt_version: "v1".into(),
        profile_name: "model".into(),
        status: status.into(),
        output_text: output.into(),
        rating: rating.map(str::to_owned),
    }
}

#[test]
fn quality_summary_counts_groups_largest_first() {
    let rows = vec![
        proposal("A", "ACCEPTED", "", Some("HELPFUL")),
        proposal("B", "REJECTED", "", None),
        proposal("B", "PARTIALLY_ACCEPTED", "", Some("NOT_HELPFUL")),
    ];
    let summary = summarize_quality(&rows, 10);
    assert_eq!(summary.total_proposals, 3);
    assert_eq!(summary.total_rated, 2);
    assert_eq!(summary.total_helpful, 1);
    assert_eq!(summary.groups.len(), 2);
    assert_eq!(summary.groups[0].task_key, "B");
    assert_eq!(summary.groups[0].proposal_count, 2);
    assert_eq!(summary.groups[0].accepted_count, 1);
    assert_eq!(summary.groups[0].invalid_count, 2);
    assert_eq!(summary.groups[1].task_key, "A");
    assert_eq!(summary.groups[1].helpful_count, 1);
    assert_eq!(summarize_quality(&rows, 1).groups.len(), 1);
}

#[test]
fn usage_groups_count_every_run_once() {
    let runs = vec![
        run("WRITE", "CNY", 1_000, 500, None, Some("2024-05-01")),
        run("REVIEW", "CNY", 2_000, 0, Some(7), Some("2024-05-02")),
        run("WRITE", "USD", 10, 10, None, Some("2024-05-02")),
        run("WRITE", "CNY", 5, 6, None, Some("2024-05-01")),
    ];
    let summary = summarize_usage(30, &runs, &runs).expect("summary");
    let runs_in = |rows: Vec<u32>| rows.iter().map(|&n| u64::from(n)).sum::<u64>();
    assert_eq!(runs_in(summary.total.iter().map(|t| t.run_count).collect()), 4);
    assert_eq!(runs_in(summary.by_task.iter().map(|t| t.usage.run_count).collect()), 4);
    assert_eq!(runs_in(summary.daily.iter().map(|t| t.usage.run_count).collect()), 4);
    assert_eq!(summary.total.iter().map(|t| t.input_tokens).sum::<u64>(), 3_015);
    assert_eq!(summary.by_task.iter().map(|t| t.usage.output_tokens).sum::<u64>(), 516);
    let currencies: Vec<&str> = summary.total.iter().map(|t| t.currency.as_str()).collect();
    assert_eq!(currencies, vec!["CNY", "USD"]);
}

#[test]
fn quality_groups_add_up_and_stay_within_the_limit() {
    let rows = vec![
        proposal("A", "ACCEPTED", "", Some("HELPFUL")),
        proposal("B", "REJECTED", "", None),
        proposal("B", "PARTIALLY_ACCEPTED", "", Some("NOT_HELPFUL")),
        proposal("C", "REJECTED", "", Some("HELPFUL")),
    ];
    let summary = summarize_quality(&rows, 0);
    assert_eq!(summary.groups.len(), 1);
    for g in &summarize_quality(&rows, 500).groups {
        assert_eq!(g.valid_count + g.warning_count + g.needs_input_count + g.invalid_count, g.proposal_count);
        assert_eq!(g.rated_count, g.helpful_count + g.not_helpful_count);
        assert!(g.accepted_count <= g.proposal_count);
    }
    assert_eq!(summarize_quality(&rows, 500).groups.len(), 3);
}
