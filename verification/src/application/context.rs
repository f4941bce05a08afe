//! The writing context package: roles, prompt sections and their audit.
use vstd::prelude::*;
use crate::domain::AiContractError;

verus! {

/// The version of the writing prompt layout.
pub const PROMPT_VERSION: &'static str = "r3-writing-v2";

/// The role a model plays in a task.
#[derive(Debug, Clone, Copy, PartialEq, Eq, Structural)]
pub enum AiTaskRole {
    DraftWriter,
    SelectionReviser,
    ChapterSummarizer,
    ApiConnectionTester,
    ReviewClaimExtractor,
    ReviewSemanticAdjudicator,
}

/// The role's name in the system prompt.
pub open spec fn role_name(role: AiTaskRole) -> Seq<char> {
    match role {
        AiTaskRole::DraftWriter => "小说候选正文执行器"@,
        AiTaskRole::SelectionReviser => "小说选区修订执行器"@,
        AiTaskRole::ChapterSummarizer => "小说章节摘要执行器"@,
        AiTaskRole::ApiConnectionTester => "API 连接测试器"@,
        AiTaskRole::ReviewClaimExtractor => "小说审核声明提取器"@,
        AiTaskRole::ReviewSemanticAdjudicator => "小说审核语义复核器"@,
    }
}

/// The role's name in the system prompt.
pub fn role_label(role: AiTaskRole) -> (r: &'static str)
    ensures
        r@ == role_name(role),
{
    match role {
        AiTaskRole::DraftWriter => "小说候选正文执行器",
        AiTaskRole::SelectionReviser => "小说选区修订执行器",
        AiTaskRole::ChapterSummarizer => "小说章节摘要执行器",
        AiTaskRole::ApiConnectionTester => "API 连接测试器",
        AiTaskRole::ReviewClaimExtractor => "小说审核声明提取器",
        AiTaskRole::ReviewSemanticAdjudicator => "小说审核语义复核器",
    }
}

/// The kinds of prompt section, in priority order.
#[derive(Debug, Clone, Copy, PartialEq, Eq, Structural)]
pub enum ContextSectionKind {
    TaskContract,
    UserInstruction,
    AuthoritativeFacts,
    ChapterPlan,
    CurrentState,
    CurrentDraft,
    StyleRules,
    References,
}

/// What one prompt section contributed.
#[derive(Debug, Clone, Copy, PartialEq, Eq, Structural)]
pub struct ContextSectionAudit {
    pub kind: ContextSectionKind,
    pub priority: u8,
    pub source_count: u16,
    pub included_chars: u32,
    pub truncated: bool,
}

/// Why a context could not be assembled.
#[derive(Debug, Clone, PartialEq, Eq)]
pub enum ContextError {
    Contract(AiContractError),
    InvalidDocument(String),
    BudgetTooSmall,
}

/// Assembles writing contexts.
pub struct ContextAssembler;

} // verus!
