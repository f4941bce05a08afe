use novel_core::ai::secrets::SECRET_SERVICE;
use novel_core::ai::tasks::{AiError, SecretStore};
use novel_core::application::evaluation::{
    score_ai_evaluation_sample, AiEvaluationInput, AiEvaluationSample, AiEvaluationTask,
};
use novel_core::discussion::{
    check_dismissal, check_promotion, merge_pending_content, new_discussion_candidate,
    new_discussion_session, promoted_story_state,
    DiscussionCandidateKind, DiscussionCandidateStatus, DiscussionScopeKind, DiscussionStoreError,
};
use novel_core::ids::RecordId;

#[test]
fn discussion_scopes_and_candidates_are_checked() {
    let id = RecordId::from_u128(1);
    let project = RecordId::from_u128(2);
    let session = new_discussion_session(id, project, " 主线方案讨论 ", DiscussionScopeKind::Project, None, None, "t")
        .expect("project session");
    assert_eq!(session.title, "主线方案讨论");
    assert_eq!(session.scope_text, None);
    assert_eq!(
        new_discussion_session(id, project, "选区讨论", DiscussionScopeKind::Selection, Some(id), Some("  "), "t"),
        Err(DiscussionStoreError::InvalidScope)
    );
    assert_eq!(
        new_discussion_session(id, project, "章节", DiscussionScopeKind::Chapter, None, None, "t"),
        Err(DiscussionStoreError::InvalidScope)
    );
    let selection = new_discussion_session(id, project, "选区讨论", DiscussionScopeKind::Selection, Some(id), Some(" 城门在午夜后没有影子。 "), "t")
        .expect("selection session");
    assert_eq!(selection.scope_text.as_deref(), Some("城门在午夜后没有影子。"));
    assert_eq!(DiscussionScopeKind::parse(DiscussionScopeKind::Selection.as_str()), DiscussionScopeKind::Selection);

    assert_eq!(
        new_discussion_candidate(id, id, id, DiscussionCandidateKind::Note, "   ", None, "t"),
        Err(DiscussionStoreError::InvalidPromotion)
    );
    let candidate = new_discussion_candidate(id, id, id, DiscussionCandidateKind::Planning, " 第二卷末揭露真相 ", Some("seed-hook".into()), "t")
        .expect("candidate");
    assert_eq!(candidate.content, "第二卷末揭露真相");
    assert_eq!(check_promotion(&candidate, DiscussionCandidateStatus::Pending), Ok("seed-hook".to_owned()));
    assert_eq!(
        check_promotion(&candidate, DiscussionCandidateStatus::Dismissed),
        Err(DiscussionStoreError::Conflict)
    );
    let foreshadowing = new_discussion_candidate(id, id, id, DiscussionCandidateKind::Foreshadowing, "第二封信", Some("seed-hook".into()), "t")
        .expect("candidate");
    assert_eq!(
        check_promotion(&foreshadowing, DiscussionCandidateStatus::Pending),
        Err(DiscussionStoreError::InvalidPromotion)
    );
    assert!(check_dismissal(DiscussionCandidateStatus::Pending, DiscussionCandidateStatus::Dismissed).is_ok());
    assert_eq!(
        check_dismissal(DiscussionCandidateStatus::Promoted, DiscussionCandidateStatus::Dismissed),
        Err(DiscussionStoreError::Conflict)
    );
}

#[test]
fn promotion_appends_pending_text_and_marks_unsettled_sections() {
    assert_eq!(merge_pending_content("", "第二卷末揭露真相"), "第二卷末揭露真相");
    assert_eq!(merge_pending_content("   ", "第二卷末揭露真相"), "第二卷末揭露真相");
    assert_eq!(merge_pending_content("旧的待定内容", "新内容"), "旧的待定内容\n\n新内容");
    assert_eq!(merge_pending_content("\n", "新内容"), "\n\n\n新内容");
    assert_eq!(promoted_story_state("", "CONFIRMED"), "AI_SUGGESTED");
    assert_eq!(promoted_story_state("  ", "CONFIRMED"), "AI_SUGGESTED");
    assert_eq!(promoted_story_state("城门在午夜后关闭。", "CONFIRMED"), "CONFIRMED");
}

#[test]
fn secret_references_name_the_profile() {
    let id = RecordId::from_u128(0x0123_4567_89ab_cdef_0123_4567_89ab_cdef);
    assert_eq!(SecretStore::secret_ref(id), "model-profile:01234567-89ab-cdef-0123-456789abcdef");
    assert_eq!(SecretStore::set("model-profile:test", "  "), Err(AiError::MissingSecret));
    assert_eq!(SECRET_SERVICE, "AINovelTools");
}

#[test]
fn evaluation_scores_count_required_and_forbidden_phrases() {
    let sample = AiEvaluationSample {
        id: "writing-1".into(),
        task_key: AiEvaluationTask::Writing,
        purpose: "续写".into(),
        input: AiEvaluationInput { instruction: "续写".into(), context: "雨夜".into() },
        expected_all: vec!["林澈".into(), "Rain".into()],
        forbidden_any: vec!["作为AI".into()],
        min_characters: 4,
        max_characters: 40,
    };
    let good = score_ai_evaluation_sample(&sample, "林澈走进rain里。");
    assert!(good.passed);
    assert_eq!(good.required_hits, 2);
    let bad = score_ai_evaluation_sample(&sample, "作为AI，我不能续写林澈。");
    assert!(!bad.passed);
    assert_eq!(bad.forbidden_hits, 1);
    assert_eq!(bad.required_hits, 1);
}
