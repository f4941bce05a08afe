use novel_core::ai::admission::{chapter_writing_admission, review_freshness, AdmissionReview};
use novel_core::ai::gateway::{
    classify_finish_reason, map_status, read_json_response, read_stream_response, response_usage,
    GenerationCompletion,
};
use novel_core::ai::output::{parse_consistency_report, validate_ai_output};
use novel_core::ai::parsing::{
    action_str, actual_run_cost_micros, estimate_run_cost_micros, parse_action, parse_provider,
    provider_str, GenerationUsage,
};
use novel_core::ai::tasks::{
    render_prompt_template, AiBudgetSettings, AiConsistencySeverity, AiConsistencyVerdict,
    AiTaskContextPreference, AiTaskKind, ConsistencyReviewFreshness,
};
use novel_core::domain::{AiAction, AiProposalStatus, ModelProvider, WritingReviewPolicy};

fn check_actions_round_trip() {
    for action in [
        AiAction::Draft,
        AiAction::Continue,
        AiAction::Rewrite,
        AiAction::Polish,
        AiAction::Summarize,
        AiAction::ConsistencyCheck,
    ] {
        assert_eq!(parse_action(action_str(action)), action);
    }
}

#[test]
fn ai_writing_actions_round_trip() {
    check_actions_round_trip();
}

#[test]
fn tests_writing_actions_round_trip() {
    check_actions_round_trip();
}

fn check_context_insufficient() {
    let validation = validate_ai_output(
        AiAction::Draft,
        "[上下文不足]\n- 主角卡：未建立\n- 境界规则：缺失",
    );
    assert_eq!(validation.status, "NEEDS_INPUT");
    assert!(validation
        .messages
        .iter()
        .any(|message| message.contains("没有生成可用结果")));
}

#[test]
fn ai_context_insufficient_output_requires_input_instead_of_becoming_prose() {
    check_context_insufficient();
}

#[test]
fn tests_context_insufficient_output_requires_input_instead_of_becoming_prose() {
    check_context_insufficient();
}

fn check_consistency_report() {
    let report = parse_consistency_report(
        "审核结论：阻断\n[阻断] 主角姓名未确定｜主角卡未建立｜先确定主角姓名并建立主角卡。\n[提示] 开场动机可以更具体｜执行卡只写了寻找师父｜补充动机来源。",
    );
    assert_eq!(report.verdict, AiConsistencyVerdict::Blocked);
    assert_eq!(report.findings.len(), 2);
    assert_eq!(report.findings[0].severity, AiConsistencySeverity::Blocker);
    assert_eq!(report.findings[0].problem, "主角姓名未确定");
    assert_eq!(report.findings[0].evidence, "主角卡未建立");
    assert_eq!(report.findings[0].suggestion, "先确定主角姓名并建立主角卡。");

    let passed = parse_consistency_report("审核结论：通过（未发现冲突）");
    assert_eq!(passed.verdict, AiConsistencyVerdict::Pass);

    let incomplete = parse_consistency_report("[严重] 境界边界冲突");
    assert_eq!(incomplete.findings.len(), 1);
    assert!(!incomplete.parse_warnings.is_empty());
}

#[test]
fn ai_consistency_report_parser_classifies_findings_and_admission() {
    check_consistency_report();
}

#[test]
fn tests_consistency_report_parser_classifies_findings_and_admission() {
    check_consistency_report();
}

fn check_provider_statuses() {
    assert_eq!(map_status(401).code(), "PROVIDER_AUTHENTICATION");
    assert_eq!(map_status(429).code(), "PROVIDER_RATE_LIMITED");
    assert_eq!(provider_str(ModelProvider::SiliconFlow), "SILICON_FLOW");
}

#[test]
fn ai_provider_statuses_are_stable() {
    check_provider_statuses();
}

#[test]
fn tests_provider_statuses_are_stable() {
    check_provider_statuses();
}

#[test]
fn reads_provider_reported_token_usage() {
    let usage = response_usage(
        r#"{"usage":{"prompt_tokens":123,"completion_tokens":45,"prompt_cache_hit_tokens":80,"prompt_cache_miss_tokens":43}}"#,
    )
    .expect("usage");
    assert_eq!(usage.input_tokens, 123);
    assert_eq!(usage.output_tokens, 45);
    assert_eq!(usage.input_cache_hit_tokens, Some(80));
    assert_eq!(usage.input_cache_miss_tokens, Some(43));
}

#[test]
fn calculates_exact_cost_from_cache_usage() {
    let cost = actual_run_cost_micros(
        &GenerationUsage {
            input_tokens: 1_000_000,
            output_tokens: 1_000_000,
            input_cache_hit_tokens: Some(500_000),
            input_cache_miss_tokens: Some(500_000),
        },
        20_000,
        1_000_000,
        4_000_000,
    );
    assert_eq!(cost, Some(4_510_000));
}

#[test]
fn exact_cost_needs_cache_usage_and_a_cache_price() {
    let usage = GenerationUsage {
        input_tokens: 10,
        output_tokens: 10,
        input_cache_hit_tokens: None,
        input_cache_miss_tokens: Some(10),
    };
    assert_eq!(actual_run_cost_micros(&usage, 1, 1, 1), None);
    let usage = GenerationUsage { input_cache_hit_tokens: Some(5), ..usage };
    assert_eq!(actual_run_cost_micros(&usage, 0, 1_000_000, 1_000_000), None);
    assert_eq!(actual_run_cost_micros(&usage, 2_000_000, 1_000_000, 1_000_000), Some(30));
}

#[test]
fn estimated_cost_rounds_down_and_needs_a_price() {
    assert_eq!(estimate_run_cost_micros(1_000, 500, 0, 0), None);
    assert_eq!(estimate_run_cost_micros(1_000_000, 500_000, 2_000_000, 8_000_000), Some(6_000_000));
    assert_eq!(estimate_run_cost_micros(1, 0, 999_999, 5), Some(0));
}

#[test]
fn unknown_stored_names_fall_back() {
    assert_eq!(parse_action("UNKNOWN"), AiAction::Continue);
    assert_eq!(parse_provider("DEEPSEEK"), ModelProvider::DeepSeek);
    assert_eq!(parse_provider("other"), ModelProvider::OpenAiCompatible);
}

#[test]
fn output_checks_report_each_problem() {
    let empty = validate_ai_output(AiAction::Continue, "   ");
    assert_eq!(empty.status, "INVALID");
    assert_eq!(empty.messages, vec!["输出为空，不能形成候选。".to_owned()]);
    let chatty = validate_ai_output(AiAction::Continue, "好的，以下是续写内容……");
    assert_eq!(chatty.status, "WARNING");
    assert_eq!(chatty.messages.len(), 3);
    let json = validate_ai_output(AiAction::Continue, "{\"text\":\"这是一段足够长的正文候选内容，用来检查。\"}");
    assert!(json.messages.iter().any(|m| m.contains("JSON")));
    let summary = validate_ai_output(AiAction::Summarize, "{\"text\":\"这是一段足够长的正文候选内容，用来检查。\"}");
    assert!(!summary.messages.iter().any(|m| m.contains("JSON")));
    let fine = validate_ai_output(AiAction::Continue, "雨停了，林澈推开门，看见院子里积水映着灯。\n他没有回头。");
    assert_eq!(fine.status, "VALID");
    assert_eq!(fine.paragraph_count, 2);
    assert_eq!(fine.estimated_output_tokens, (fine.character_count as u32).div_ceil(4));
}

#[test]
fn prompt_templates_fill_every_placeholder() {
    let rendered = render_prompt_template(
        "章节：{{chapterTitle}}\n作者意见：{{userInstruction}}，{{chapterTitle}}",
        &[("chapterTitle", "雨夜来客"), ("userInstruction", "让冲突先藏后露")],
    );
    assert_eq!(rendered, "章节：雨夜来客\n作者意见：让冲突先藏后露，雨夜来客");
    assert_eq!(render_prompt_template("{{missing}}", &[]), "{{missing}}");
}

#[test]
fn budget_settings_validate_and_normalize_currency() {
    let defaults = AiBudgetSettings::default_settings();
    assert_eq!(defaults.currency, "USD");
    assert!(defaults.validate().is_ok());
    let settings = AiBudgetSettings {
        currency: " cny ".into(),
        daily_limit_micros: Some(10_000_000),
        project_limit_micros: Some(100_000_000),
    };
    assert!(settings.validate().is_ok());
    assert_eq!(settings.normalized().currency, "CNY");
    let zero = AiBudgetSettings { daily_limit_micros: Some(0), ..settings.clone() };
    assert!(zero.validate().is_err());
    let long = AiBudgetSettings { currency: "ABCDEFGHI".into(), ..settings };
    assert!(long.validate().is_err());
}

#[test]
fn task_defaults_fill_only_missing_context_settings() {
    let mut context = AiTaskContextPreference {
        include_project_context: Some(false),
        include_reference_content: None,
        include_project_knowledge: None,
        include_current_draft: None,
        include_chapter_plan: None,
        input_token_budget: Some(3_200),
    };
    context.set_recommended_defaults(AiTaskKind::WorkDesign);
    assert_eq!(context.include_project_context, Some(false));
    assert_eq!(context.include_reference_content, Some(true));
    assert_eq!(context.include_current_draft, Some(false));
    assert_eq!(context.input_token_budget, Some(3_200));
    assert_eq!(AiTaskKind::Writing.default_max_output_tokens(), 8_192);
    assert_eq!(AiTaskKind::Outline.default_max_output_tokens(), 6_144);
    assert_eq!(AiTaskKind::ChapterPlan.default_max_output_tokens(), 4_096);
    assert_eq!(AiTaskContextPreference::recommended(AiTaskKind::Writing).input_token_budget, Some(49_152));
}

#[test]
fn streams_join_pieces_and_report_how_they_ended() {
    let body = "data: {\"choices\":[{\"delta\":{\"content\":\"流式\"}}]}\n\ndata: {\"choices\":[{\"delta\":{\"content\":\"半截\"},\"finish_reason\":\"length\"}]}\n\ndata: [DONE]\n";
    let reading = read_stream_response(body).expect("stream");
    assert_eq!(reading.output.output, "流式半截");
    assert_eq!(reading.output.completion, GenerationCompletion::LengthLimit);
    assert_eq!(reading.chunks, vec!["流式".to_owned(), "半截".to_owned()]);

    let unterminated = "data: {\"choices\":[{\"delta\":{\"content\":\"无结束空行\"}}]}";
    let reading = read_stream_response(unterminated).expect("unterminated");
    assert_eq!(reading.output.output, "无结束空行");
    assert_eq!(reading.output.completion, GenerationCompletion::Interrupted);

    let json = read_stream_response("{\"choices\":[{\"message\":{\"content\":\"非流式候选\"}}]}").expect("json");
    assert_eq!(json.output.output, "非流式候选");
    assert_eq!(json.output.completion, GenerationCompletion::Complete);

    assert!(read_stream_response("data: [DONE]\n").is_err());
    assert!(read_stream_response("data: {broken\n").is_err());
    assert!(read_json_response("{\"choices\":[]}").is_err());
}

#[test]
fn finish_reasons_and_statuses_are_classified() {
    assert_eq!(classify_finish_reason(Some("stop")), Some(GenerationCompletion::Complete));
    assert_eq!(classify_finish_reason(Some("max_tokens")), Some(GenerationCompletion::LengthLimit));
    assert_eq!(classify_finish_reason(Some("content_filter")), Some(GenerationCompletion::ContentFiltered));
    assert_eq!(classify_finish_reason(Some("tool_calls")), Some(GenerationCompletion::Interrupted));
    assert_eq!(classify_finish_reason(None), None);
    assert_eq!(map_status(503).code(), "PROVIDER_UNAVAILABLE");
    assert_eq!(map_status(408).code(), "PROVIDER_TIMEOUT");
    assert_eq!(map_status(404).code(), "PROVIDER_INVALID_RESPONSE");
}

fn review(version: &str, report: Option<&str>) -> AdmissionReview {
    AdmissionReview {
        action: AiAction::ConsistencyCheck,
        status: AiProposalStatus::Pending,
        context_version: version.into(),
        consistency: report.map(parse_consistency_report),
    }
}

#[test]
fn writing_admission_follows_the_review_policy() {
    let none: Vec<AdmissionReview> = Vec::new();
    let required = chapter_writing_admission(&none, Some("v1"), WritingReviewPolicy::Required);
    assert!(!required.allowed);
    assert_eq!(required.review_freshness, ConsistencyReviewFreshness::Missing);
    assert!(chapter_writing_admission(&none, Some("v1"), WritingReviewPolicy::Standard).allowed);

    let blocked = vec![review("v1", Some("[阻断] 甲｜乙｜丙\n[阻断] 丁｜戊｜己"))];
    let standard = chapter_writing_admission(&blocked, Some("v1"), WritingReviewPolicy::Standard);
    assert!(!standard.allowed);
    assert_eq!(standard.blocker_count, 2);
    assert_eq!(
        standard.reason.as_deref(),
        Some("最近一次一致性审核发现 2 个阻断问题，请先处理并关闭审核后再生成正文。")
    );
    let advisory = chapter_writing_admission(&blocked, Some("v1"), WritingReviewPolicy::Advisory);
    assert!(advisory.allowed);
    assert_eq!(advisory.blocker_count, 2);

    let stale = chapter_writing_admission(&blocked, Some("v2"), WritingReviewPolicy::Required);
    assert!(!stale.allowed);
    assert_eq!(stale.review_freshness, ConsistencyReviewFreshness::Stale);
    assert_eq!(review_freshness(None, "v1"), ConsistencyReviewFreshness::Unverified);

    let needs_input = vec![review("v1", Some("[上下文不足] 缺少主角卡"))];
    assert!(chapter_writing_admission(&needs_input, Some("v1"), WritingReviewPolicy::Required).allowed);
}
