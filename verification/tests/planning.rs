use novel_core::planning::blocks::{parse_project_context, parse_reference_context, MAX_PROJECT_CHUNK_CHARS};
use novel_core::planning::planner::{
    split_project_section_chunks, PlanningContextBlock, PlanningContextMode,
    PlanningContextPlanner,
};
use novel_core::planning::ranked::{
    evidence_chunks_of, select_ranked_sections, ProjectRanking, ReferenceRanking,
};
use novel_core::planning::render::MAX_PROJECT_SECTION_CHARS;

const CORE_PROJECT_SECTION_IDS: [&str; 6] = [
    "seed-premise",
    "seed-genre-promise",
    "engine-protagonist",
    "engine-antagonism",
    "engine-stakes",
    "engine-ending",
];

#[test]
fn planning_plan_keeps_core_sections_under_a_small_budget() {
    let project = [
        "seed-premise: 主角在灾后城市寻找失踪姐姐。",
        "seed-genre-promise: 都市悬疑，持续推进谜团。",
        "engine-protagonist: 外在目标是找人，内在需求是接受失去。",
        "engine-antagonism: 对手掌握城市资源。",
        "engine-stakes: 失败会失去最后的家人线索。",
        "engine-ending: 主角接受真相并建立新的生活。",
        "seed-hook: 独特钩子",
        "frame-narrative: 第三人称有限视角",
    ]
    .join("\n");

    let plan = PlanningContextPlanner::plan(
        &project,
        "",
        "补全主角目标",
        PlanningContextMode::Generate,
        420,
        0,
    );

    for section_id in CORE_PROJECT_SECTION_IDS {
        assert!(
            plan.project_context.contains(&format!("{section_id}:")),
            "missing core section {section_id}"
        );
    }
    assert!(plan.project_context.chars().count() <= 420);
}

#[test]
fn planning_plan_caps_individual_project_sections() {
    let long_section = "长期设定背景".repeat(1_000);
    let project = CORE_PROJECT_SECTION_IDS
        .iter()
        .map(|section_id| format!("{section_id}: {long_section}"))
        .collect::<Vec<_>>()
        .join("\n");

    let plan = PlanningContextPlanner::plan(
        &project,
        "",
        "补充当前节点",
        PlanningContextMode::Generate,
        100_000,
        0,
    );

    assert!(plan.project_context.contains("[片段已按预算截断]"));
    assert!(
        plan.project_context.chars().count()
            <= CORE_PROJECT_SECTION_IDS.len() * (MAX_PROJECT_SECTION_CHARS + 16)
    );
}

#[test]
fn planning_plan_selects_relevant_reference_blocks_instead_of_full_file() {
    let reference = [
        "文件开篇设定城市长期停电。",
        "无关段落：王城港口以渔业闻名，拥有三家商会。",
        "主角林澈左臂受伤后无法长时间持剑。",
        "无关段落：北方学院每十年举办一次学术竞赛。",
        "林澈需要隐瞒伤口，否则会被对手发现。",
    ]
    .join("\n\n");

    let plan = PlanningContextPlanner::plan(
        "",
        &reference,
        "林澈 左臂受伤 隐瞒伤口",
        PlanningContextMode::Extract,
        0,
        300,
    );

    assert!(plan.reference_context.contains("林澈左臂受伤"));
    assert!(plan.reference_context.contains("隐瞒伤口"));
    assert!(!plan.reference_context.contains("三家商会"));
    assert!(plan.reference_context.contains("已按相关度省略"));
    assert!(plan.reference_context.chars().count() <= 300);
    assert!(plan.omitted_reference_blocks > 0);
}

#[test]
fn planning_plan_chunks_a_single_long_file_line() {
    let unrelated = "无关背景".repeat(500);
    let relevant = "林澈左臂受伤后无法长时间持剑，并且必须隐瞒伤口。";
    let reference = format!("{unrelated}{relevant}{unrelated}");

    let plan = PlanningContextPlanner::plan(
        "",
        &reference,
        "林澈 左臂受伤 隐瞒伤口",
        PlanningContextMode::Extract,
        0,
        360,
    );

    assert!(plan.reference_context.contains("左臂受伤"));
    assert!(plan.reference_context.contains("隐瞒伤口"));
    assert!(plan.selected_reference_blocks >= 2);
    assert!(plan.reference_context.chars().count() <= 360);
}

#[test]
fn semantic_candidates_keep_document_coverage_outside_keyword_top_blocks() {
    let reference = (0..30)
        .map(|index| format!("第 {index} 段只有普通背景信息。"))
        .collect::<Vec<_>>()
        .join("\n\n");

    let candidates =
        PlanningContextPlanner::reference_semantic_candidates(&reference, "完全不同的查询", 8);

    assert_eq!(candidates.len(), 8);
    assert!(
        candidates
            .iter()
            .any(|candidate| candidate.id == "reference-30")
    );
}

#[test]
fn project_chunks_respect_the_chunk_limit_and_keep_relevant_tail_content() {
    let content = format!(
        "{}{}{}",
        "无关背景。".repeat(180),
        "林澈左臂的旧伤使他无法长时间持剑。",
        "其他背景。".repeat(180)
    );
    let chunks = split_project_section_chunks(&content);

    assert!(chunks.len() > 1);
    assert!(
        chunks
            .iter()
            .all(|chunk| chunk.chars().count() <= MAX_PROJECT_CHUNK_CHARS)
    );
    let candidates = PlanningContextPlanner::project_semantic_candidates(
        &[PlanningContextBlock {
            id: "seed-premise".to_owned(),
            heading: String::new(),
            content,
        }],
        "林澈 左臂 旧伤",
        3,
    );
    assert!(
        candidates
            .iter()
            .any(|candidate| candidate.content.contains("旧伤"))
    );
}

#[test]
fn ranked_reference_blocks_follow_the_given_order() {
    let reference = [
        "文件开篇设定城市长期停电。",
        "他每次靠近旧钟楼都会下意识遮住手腕，离开后才恢复平静。",
        "北方学院每十年举办一次学术竞赛。",
    ]
    .join("\n\n");
    let ranking = Some(ReferenceRanking { order: vec![1, 0, 2], relevant: vec![false, true, false] });
    let plan = PlanningContextPlanner::plan_ranked(
        "",
        &reference,
        "创伤反应 隐藏身份 关键线索",
        PlanningContextMode::Extract,
        0,
        300,
        &None,
        &ranking,
    );
    assert!(plan.reference_context.contains("旧钟楼"));
    assert!(!plan.reference_context.contains("学术竞赛"));
    assert_eq!(plan.selected_reference_blocks, 2);
    assert_eq!(plan.omitted_reference_blocks, 1);

    let unranked = PlanningContextPlanner::plan_ranked(
        "",
        &reference,
        "创伤反应 隐藏身份 关键线索",
        PlanningContextMode::Extract,
        0,
        300,
        &None,
        &None,
    );
    let keyword = PlanningContextPlanner::plan(
        "",
        &reference,
        "创伤反应 隐藏身份 关键线索",
        PlanningContextMode::Extract,
        0,
        300,
    );
    assert_eq!(unranked.reference_context, keyword.reference_context);
    assert!(!unranked.reference_context.contains("旧钟楼"));
}

#[test]
fn ranked_project_chunks_render_briefs_and_raw_evidence() {
    let long_section = format!(
        "{}{}{}",
        "无关背景。".repeat(220),
        "林澈左臂的旧伤使他无法长时间持剑。",
        "其他背景。".repeat(220)
    );
    let project = [
        format!("seed-premise: {long_section}"),
        "seed-genre-promise: 都市悬疑，持续推进谜团。".to_owned(),
        "engine-protagonist: 主角需要遮掩自己的弱点。".to_owned(),
        "engine-antagonism: 对手会利用任何破绽。".to_owned(),
        "engine-stakes: 暴露弱点会失去调查资格。".to_owned(),
        "engine-ending: 主角学会主动面对创伤。".to_owned(),
    ]
    .join("\n");
    let blocks = parse_project_context(&project.chars().collect());
    assert_eq!(blocks.len(), 6);
    let order: Vec<usize> = (0..blocks.len()).collect();
    let mask = select_ranked_sections(&blocks, 3_200, &order);
    let chunks = evidence_chunks_of(&blocks, &mask);
    let relevant = chunks
        .iter()
        .position(|chunk| chunk.content.iter().collect::<String>().contains("旧伤"))
        .expect("relevant chunk");
    assert_eq!(chunks[relevant].section, 0);
    let mut rank = vec![relevant];
    rank.extend((0..chunks.len()).filter(|index| *index != relevant));

    let plan = PlanningContextPlanner::plan_ranked(
        &project,
        "",
        "创伤反应 隐藏身份",
        PlanningContextMode::Extract,
        3_200,
        0,
        &Some(ProjectRanking { section_order: order, chunk_rank: rank }),
        &None,
    );
    assert!(plan.project_context.contains("旧伤"));
    assert!(plan.project_context.contains("[节点导航]"));
    assert!(plan.project_context.contains("[原文片段 "));
    assert!(plan.selected_project_chunks > 0);
    assert!(plan.selected_project_chunks <= 10);
    assert_eq!(plan.selected_project_sections, 6);
    let premise = plan.project_context.split("\n\n").next().expect("first section");
    assert!(premise.starts_with("seed-premise: [节点导航] "));
    assert!(premise.matches("[原文片段 ").count() <= 3);
    assert!(plan.project_context.chars().count() <= 3_200);
    assert!(plan.project_context.chars().count() < project.chars().count());
}

#[test]
fn reference_context_keeps_to_every_limit() {
    let reference = (0..30)
        .map(|index| format!("第 {index} 段：林澈在城门附近寻找线索，记录第 {index} 条证词。"))
        .collect::<Vec<_>>()
        .join("\n\n");
    let blocks = parse_reference_context(&reference.chars().collect()).len();
    for limit in [0_usize, 40, 79, 80, 81, 120, 160, 300, 1_000, 5_000] {
        for (mode, max_project) in [(PlanningContextMode::Extract, 0_usize), (PlanningContextMode::Generate, limit * 4)] {
            let plan = PlanningContextPlanner::plan("", &reference, "林澈 证词", mode, max_project, limit);
            assert_eq!(usize::from(plan.selected_reference_blocks) + usize::from(plan.omitted_reference_blocks), blocks);
            if limit == 0 {
                assert!(plan.reference_context.is_empty());
                assert_eq!(plan.selected_reference_blocks, 0);
            } else {
                assert!(plan.selected_reference_blocks >= 1);
            }
            if limit >= 80 {
                assert!(plan.reference_context.chars().count() <= limit, "limit {limit}");
            }
        }
    }
}

#[test]
fn project_context_keeps_to_its_budget_and_five_characters_a_section() {
    let project = [
        "seed-premise: 主角在灾后城市寻找失踪姐姐。",
        "engine-protagonist: 外在目标是找人，内在需求是接受失去。",
        "engine-stakes: 失败会失去最后的家人线索。",
        "frame-narrative: 第三人称有限视角",
    ]
    .join("\n");
    for budget in [0_usize, 5, 20, 40, 60, 100, 420, 2_000] {
        let plan = PlanningContextPlanner::plan(&project, "", "主角目标", PlanningContextMode::Generate, budget, 0);
        let count = plan.project_context.chars().count();
        assert!(count <= budget + 5 * usize::from(plan.selected_project_sections), "budget {budget}");
        if budget == 0 {
            assert!(plan.project_context.is_empty());
        }
        if budget >= 420 {
            assert!(count <= budget);
        }
    }
    let tiny = PlanningContextPlanner::plan("a: xx目标", "", "目标", PlanningContextMode::Generate, 5, 0);
    assert_eq!(tiny.project_context, "a: ......");
}
