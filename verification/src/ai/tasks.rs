//! AI task kinds, their recommended settings, prompt templates and budgets.
use vstd::prelude::*;
use crate::domain::AiContractError;
use crate::ids::RecordId;
use crate::text::{chars_of, occurs_at, string_of, trim};

verus! {

/// Why an AI operation failed.
#[derive(Debug, Clone, PartialEq, Eq)]
pub enum AiError {
    NoProject,
    Contract(AiContractError),
    MissingProfile(RecordId),
    MissingProposal(RecordId),
    MissingRun(RecordId),
    SecretStore,
    MissingSecret,
    PrivacyPolicy,
    Authentication,
    RateLimited,
    Timeout,
    Cancelled,
    InvalidResponse,
    OutputLengthLimit,
    ContentFiltered,
    StreamInterrupted,
    OutputIncomplete,
    ProviderUnavailable,
    Network,
    ContextSerialization,
    Database(String),
}

/// The stable code reported for each error.
pub open spec fn error_code(e: AiError) -> Seq<char> {
    match e {
        AiError::NoProject => "NO_PROJECT_OPEN"@,
        AiError::Contract(_) => "INVALID_INPUT"@,
        AiError::MissingProfile(_) => "NOT_FOUND"@,
        AiError::MissingProposal(_) => "NOT_FOUND"@,
        AiError::MissingRun(_) => "NOT_FOUND"@,
        AiError::SecretStore => "SECRET_STORE_ERROR"@,
        AiError::MissingSecret => "MODEL_SECRET_MISSING"@,
        AiError::PrivacyPolicy => "PRIVACY_POLICY_BLOCKED"@,
        AiError::Authentication => "PROVIDER_AUTHENTICATION"@,
        AiError::RateLimited => "PROVIDER_RATE_LIMITED"@,
        AiError::Timeout => "PROVIDER_TIMEOUT"@,
        AiError::Cancelled => "TASK_CANCELLED"@,
        AiError::InvalidResponse => "PROVIDER_INVALID_RESPONSE"@,
        AiError::OutputLengthLimit => "AI_OUTPUT_LENGTH_LIMIT"@,
        AiError::ContentFiltered => "AI_CONTENT_FILTERED"@,
        AiError::StreamInterrupted => "AI_STREAM_INTERRUPTED"@,
        AiError::OutputIncomplete => "AI_OUTPUT_INCOMPLETE"@,
        AiError::ProviderUnavailable => "PROVIDER_UNAVAILABLE"@,
        AiError::Network => "PROVIDER_NETWORK"@,
        AiError::ContextSerialization => "CONTEXT_SERIALIZATION"@,
        AiError::Database(_) => "DATABASE_ERROR"@,
    }
}

impl AiError {
    /// The stable code reported to the user interface.
    pub fn code(&self) -> (r: &'static str)
        ensures
            r@ == error_code(*self),
    {
        match self {
            AiError::NoProject => "NO_PROJECT_OPEN",
            AiError::Contract(_) => "INVALID_INPUT",
            AiError::MissingProfile(_) => "NOT_FOUND",
            AiError::MissingProposal(_) => "NOT_FOUND",
            AiError::MissingRun(_) => "NOT_FOUND",
            AiError::SecretStore => "SECRET_STORE_ERROR",
            AiError::MissingSecret => "MODEL_SECRET_MISSING",
            AiError::PrivacyPolicy => "PRIVACY_POLICY_BLOCKED",
            AiError::Authentication => "PROVIDER_AUTHENTICATION",
            AiError::RateLimited => "PROVIDER_RATE_LIMITED",
            AiError::Timeout => "PROVIDER_TIMEOUT",
            AiError::Cancelled => "TASK_CANCELLED",
            AiError::InvalidResponse => "PROVIDER_INVALID_RESPONSE",
            AiError::OutputLengthLimit => "AI_OUTPUT_LENGTH_LIMIT",
            AiError::ContentFiltered => "AI_CONTENT_FILTERED",
            AiError::StreamInterrupted => "AI_STREAM_INTERRUPTED",
            AiError::OutputIncomplete => "AI_OUTPUT_INCOMPLETE",
            AiError::ProviderUnavailable => "PROVIDER_UNAVAILABLE",
            AiError::Network => "PROVIDER_NETWORK",
            AiError::ContextSerialization => "CONTEXT_SERIALIZATION",
            AiError::Database(_) => "DATABASE_ERROR",
        }
    }
}

/// The operating-system secret store for model API keys.
pub struct SecretStore;

/// The kinds of AI task that have their own model settings.
#[derive(Debug, Clone, Copy, PartialEq, Eq, Structural)]
pub enum AiTaskKind {
    WorkDesign,
    Outline,
    VolumePlanning,
    ChapterSplit,
    ChapterPlan,
    ConsistencyReview,
    Writing,
    KnowledgeExtraction,
}

/// Where an AI run was started from.
#[derive(Debug, Clone, Copy, PartialEq, Eq, Structural)]
pub enum AiRunSource {
    Writing,
    Planning,
    KnowledgeExtraction,
}

/// The stored key of a run source.
pub open spec fn run_source_key(s: AiRunSource) -> Seq<char> {
    match s {
        AiRunSource::Writing => "WRITING"@,
        AiRunSource::Planning => "PLANNING"@,
        AiRunSource::KnowledgeExtraction => "KNOWLEDGE_EXTRACTION"@,
    }
}

impl AiRunSource {
    pub fn storage_key(self) -> (r: &'static str)
        ensures
            r@ == run_source_key(self),
    {
        match self {
            AiRunSource::Writing => "WRITING",
            AiRunSource::Planning => "PLANNING",
            AiRunSource::KnowledgeExtraction => "KNOWLEDGE_EXTRACTION",
        }
    }
}

/// The stored key of a task kind.
pub open spec fn task_key(t: AiTaskKind) -> Seq<char> {
    match t {
        AiTaskKind::WorkDesign => "workDesign"@,
        AiTaskKind::Outline => "outline"@,
        AiTaskKind::VolumePlanning => "volumePlanning"@,
        AiTaskKind::ChapterSplit => "chapterSplit"@,
        AiTaskKind::ChapterPlan => "chapterPlan"@,
        AiTaskKind::ConsistencyReview => "consistencyReview"@,
        AiTaskKind::Writing => "writing"@,
        AiTaskKind::KnowledgeExtraction => "knowledgeExtraction"@,
    }
}

/// The recommended output limit of a task.
pub open spec fn recommended_max_output(t: AiTaskKind) -> u32 {
    match t {
        AiTaskKind::WorkDesign | AiTaskKind::ChapterSplit | AiTaskKind::ChapterPlan
        | AiTaskKind::KnowledgeExtraction => 4096,
        AiTaskKind::Outline | AiTaskKind::VolumePlanning => 6144,
        AiTaskKind::ConsistencyReview | AiTaskKind::Writing => 8192,
    }
}

/// The recommended input budget of a task.
pub open spec fn recommended_input_budget(t: AiTaskKind) -> u32 {
    match t {
        AiTaskKind::WorkDesign | AiTaskKind::ChapterSplit | AiTaskKind::ChapterPlan => 24576,
        AiTaskKind::Outline | AiTaskKind::VolumePlanning | AiTaskKind::ConsistencyReview
        | AiTaskKind::KnowledgeExtraction => 32768,
        AiTaskKind::Writing => 49152,
    }
}

/// The task stored under a key; a key of no task names none.
pub open spec fn task_of_key(k: Seq<char>) -> Option<AiTaskKind> {
    if k == "workDesign"@ {
        Some(AiTaskKind::WorkDesign)
    } else if k == "outline"@ {
        Some(AiTaskKind::Outline)
    } else if k == "volumePlanning"@ {
        Some(AiTaskKind::VolumePlanning)
    } else if k == "chapterSplit"@ {
        Some(AiTaskKind::ChapterSplit)
    } else if k == "chapterPlan"@ {
        Some(AiTaskKind::ChapterPlan)
    } else if k == "consistencyReview"@ {
        Some(AiTaskKind::ConsistencyReview)
    } else if k == "writing"@ {
        Some(AiTaskKind::Writing)
    } else if k == "knowledgeExtraction"@ {
        Some(AiTaskKind::KnowledgeExtraction)
    } else {
        None
    }
}

/// Every task reads back as itself from its storage key.
pub proof fn task_keys_round_trip(t: AiTaskKind)
    ensures
        task_of_key(task_key(t)) == Some(t),
{
    reveal_strlit("workDesign");
    reveal_strlit("outline");
    reveal_strlit("volumePlanning");
    reveal_strlit("chapterSplit");
    reveal_strlit("chapterPlan");
    reveal_strlit("consistencyReview");
    reveal_strlit("writing");
    reveal_strlit("knowledgeExtraction");
    assert("workDesign"@.len() == 10);
    assert("outline"@.len() == 7);
    assert("volumePlanning"@.len() == 14);
    assert("chapterSplit"@.len() == 12);
    assert("chapterPlan"@.len() == 11);
    assert("consistencyReview"@.len() == 17);
    assert("writing"@.len() == 7);
    assert("knowledgeExtraction"@.len() == 19);
    assert("outline"@[0] != "writing"@[0]);
}

impl AiTaskKind {
    pub fn storage_key(self) -> (r: &'static str)
        ensures
            r@ == task_key(self),
    {
        match self {
            AiTaskKind::WorkDesign => "workDesign",
            AiTaskKind::Outline => "outline",
            AiTaskKind::VolumePlanning => "volumePlanning",
            AiTaskKind::ChapterSplit => "chapterSplit",
            AiTaskKind::ChapterPlan => "chapterPlan",
            AiTaskKind::ConsistencyReview => "consistencyReview",
            AiTaskKind::Writing => "writing",
            AiTaskKind::KnowledgeExtraction => "knowledgeExtraction",
        }
    }

    /// The task stored under `key`, if any.
    pub fn from_storage_key(key: &str) -> (r: Option<Self>)
        ensures
            r == task_of_key(key@),
    {
        if crate::text::str_eq(key, "workDesign") {
            Some(AiTaskKind::WorkDesign)
        } else if crate::text::str_eq(key, "outline") {
            Some(AiTaskKind::Outline)
        } else if crate::text::str_eq(key, "volumePlanning") {
            Some(AiTaskKind::VolumePlanning)
        } else if crate::text::str_eq(key, "chapterSplit") {
            Some(AiTaskKind::ChapterSplit)
        } else if crate::text::str_eq(key, "chapterPlan") {
            Some(AiTaskKind::ChapterPlan)
        } else if crate::text::str_eq(key, "consistencyReview") {
            Some(AiTaskKind::ConsistencyReview)
        } else if crate::text::str_eq(key, "writing") {
            Some(AiTaskKind::Writing)
        } else if crate::text::str_eq(key, "knowledgeExtraction") {
            Some(AiTaskKind::KnowledgeExtraction)
        } else {
            None
        }
    }

    /// 4096 for design, splitting, chapter plans and extraction; 6144 for
    /// outlines and volume plans; 8192 for review and writing.
    pub fn default_max_output_tokens(self) -> (r: u32)
        ensures
            r == recommended_max_output(self),
    {
        match self {
            AiTaskKind::WorkDesign | AiTaskKind::ChapterSplit | AiTaskKind::ChapterPlan
            | AiTaskKind::KnowledgeExtraction => 4096,
            AiTaskKind::Outline | AiTaskKind::VolumePlanning => 6144,
            AiTaskKind::ConsistencyReview | AiTaskKind::Writing => 8192,
        }
    }

    /// 24576 for design, splitting and chapter plans; 49152 for writing;
    /// 32768 otherwise.
    pub fn default_input_token_budget(self) -> (r: u32)
        ensures
            r == recommended_input_budget(self),
    {
        match self {
            AiTaskKind::WorkDesign | AiTaskKind::ChapterSplit | AiTaskKind::ChapterPlan => 24576,
            AiTaskKind::Outline | AiTaskKind::VolumePlanning | AiTaskKind::ConsistencyReview
            | AiTaskKind::KnowledgeExtraction => 32768,
            AiTaskKind::Writing => 49152,
        }
    }

    /// Planning and review tasks read the project context.
    pub fn default_include_project_context(self) -> (r: bool)
        ensures
            r == !(self is Writing || self is KnowledgeExtraction),
    {
        match self {
            AiTaskKind::WorkDesign | AiTaskKind::Outline | AiTaskKind::VolumePlanning
            | AiTaskKind::ChapterSplit | AiTaskKind::ChapterPlan | AiTaskKind::ConsistencyReview => true,
            _ => false,
        }
    }

    /// Work design and knowledge extraction read the reference content.
    pub fn default_include_reference_content(self) -> (r: bool)
        ensures
            r == (self is WorkDesign || self is KnowledgeExtraction),
    {
        match self {
            AiTaskKind::WorkDesign | AiTaskKind::KnowledgeExtraction => true,
            _ => false,
        }
    }

    /// Every task but knowledge extraction reads the project knowledge.
    pub fn default_include_project_knowledge(self) -> (r: bool)
        ensures
            r == !(self is KnowledgeExtraction),
    {
        match self {
            AiTaskKind::KnowledgeExtraction => false,
            _ => true,
        }
    }

    /// Writing and review read the current draft.
    pub fn default_include_current_draft(self) -> (r: bool)
        ensures
            r == (self is Writing || self is ConsistencyReview),
    {
        match self {
            AiTaskKind::Writing | AiTaskKind::ConsistencyReview => true,
            _ => false,
        }
    }

    /// Writing and review read the chapter plan.
    pub fn default_include_chapter_plan(self) -> (r: bool)
        ensures
            r == (self is Writing || self is ConsistencyReview),
    {
        match self {
            AiTaskKind::Writing | AiTaskKind::ConsistencyReview => true,
            _ => false,
        }
    }
}

/// Which parts of the context a task reads, and its input budget; `None`
/// means the recommendation applies.
#[derive(Debug, Clone, Copy, PartialEq, Eq, Structural)]
pub struct AiTaskContextPreference {
    pub include_project_context: Option<bool>,
    pub include_reference_content: Option<bool>,
    pub include_project_knowledge: Option<bool>,
    pub include_current_draft: Option<bool>,
    pub include_chapter_plan: Option<bool>,
    pub input_token_budget: Option<u32>,
}

/// The recommended context settings of a task.
pub open spec fn recommended_context(t: AiTaskKind) -> AiTaskContextPreference {
    AiTaskContextPreference {
        include_project_context: Some(!(t is Writing || t is KnowledgeExtraction)),
        include_reference_content: Some(t is WorkDesign || t is KnowledgeExtraction),
        include_project_knowledge: Some(!(t is KnowledgeExtraction)),
        include_current_draft: Some(t is Writing || t is ConsistencyReview),
        include_chapter_plan: Some(t is Writing || t is ConsistencyReview),
        input_token_budget: Some(recommended_input_budget(t)),
    }
}

/// A setting kept when present, the default otherwise.
pub open spec fn or_default<T>(o: Option<T>, d: T) -> Option<T> {
    match o {
        Some(v) => Some(v),
        None => Some(d),
    }
}

impl AiTaskContextPreference {
    /// The recommended settings of a task.
    pub fn recommended(task: AiTaskKind) -> (r: Self)
        ensures
            r == recommended_context(task),
    {
        AiTaskContextPreference {
            include_project_context: Some(task.default_include_project_context()),
            include_reference_content: Some(task.default_include_reference_content()),
            include_project_knowledge: Some(task.default_include_project_knowledge()),
            include_current_draft: Some(task.default_include_current_draft()),
            include_chapter_plan: Some(task.default_include_chapter_plan()),
            input_token_budget: Some(task.default_input_token_budget()),
        }
    }

    /// Fills each missing setting with the recommendation; set ones stay.
    pub fn set_recommended_defaults(&mut self, task: AiTaskKind)
        ensures
            final(self).include_project_context == or_default(
                old(self).include_project_context,
                recommended_context(task).include_project_context.unwrap(),
            ),
            final(self).include_reference_content == or_default(
                old(self).include_reference_content,
                recommended_context(task).include_reference_content.unwrap(),
            ),
            final(self).include_project_knowledge == or_default(
                old(self).include_project_knowledge,
                recommended_context(task).include_project_knowledge.unwrap(),
            ),
            final(self).include_current_draft == or_default(
                old(self).include_current_draft,
                recommended_context(task).include_current_draft.unwrap(),
            ),
            final(self).include_chapter_plan == or_default(
                old(self).include_chapter_plan,
                recommended_context(task).include_chapter_plan.unwrap(),
            ),
            final(self).input_token_budget == or_default(
                old(self).input_token_budget,
                recommended_context(task).input_token_budget.unwrap(),
            ),
    {
        if self.include_project_context.is_none() {
            self.include_project_context = Some(task.default_include_project_context());
        }
        if self.include_reference_content.is_none() {
            self.include_reference_content = Some(task.default_include_reference_content());
        }
        if self.include_project_knowledge.is_none() {
            self.include_project_knowledge = Some(task.default_include_project_knowledge());
        }
        if self.include_current_draft.is_none() {
            self.include_current_draft = Some(task.default_include_current_draft());
        }
        if self.include_chapter_plan.is_none() {
            self.include_chapter_plan = Some(task.default_include_chapter_plan());
        }
        if self.input_token_budget.is_none() {
            self.input_token_budget = Some(task.default_input_token_budget());
        }
    }
}

/// The prompt settings of a task.
#[derive(Debug, Clone, PartialEq, Eq)]
pub struct AiTaskPromptPreference {
    pub system_prompt: Option<String>,
    pub instruction_template: Option<String>,
    pub context: AiTaskContextPreference,
}

impl AiTaskPromptPreference {
    /// No custom prompts, the recommended context.
    pub fn recommended(task: AiTaskKind) -> (r: Self)
        ensures
            r.system_prompt is None,
            r.instruction_template is None,
            r.context == recommended_context(task),
    {
        AiTaskPromptPreference {
            system_prompt: None,
            instruction_template: None,
            context: AiTaskContextPreference::recommended(task),
        }
    }

    /// Fills the missing context settings; the prompts stay as they are.
    pub fn set_recommended_defaults(&mut self, task: AiTaskKind)
        ensures
            final(self).system_prompt == old(self).system_prompt,
            final(self).instruction_template == old(self).instruction_template,
            final(self).context.include_project_context == or_default(
                old(self).context.include_project_context,
                recommended_context(task).include_project_context.unwrap(),
            ),
            final(self).context.include_reference_content == or_default(
                old(self).context.include_reference_content,
                recommended_context(task).include_reference_content.unwrap(),
            ),
            final(self).context.include_project_knowledge == or_default(
                old(self).context.include_project_knowledge,
                recommended_context(task).include_project_knowledge.unwrap(),
            ),
            final(self).context.include_current_draft == or_default(
                old(self).context.include_current_draft,
                recommended_context(task).include_current_draft.unwrap(),
            ),
            final(self).context.include_chapter_plan == or_default(
                old(self).context.include_chapter_plan,
                recommended_context(task).include_chapter_plan.unwrap(),
            ),
            final(self).context.input_token_budget == or_default(
                old(self).context.input_token_budget,
                recommended_context(task).input_token_budget.unwrap(),
            ),
    {
        self.context.set_recommended_defaults(task);
    }
}

/// `str::replace`: each non-overlapping occurrence of `p`, left to right,
/// replaced by `r`.
pub open spec fn replace_all(s: Seq<char>, p: Seq<char>, r: Seq<char>) -> Seq<char>
    decreases s.len(),
{
    if p.len() == 0 || s.len() == 0 {
        s
    } else if occurs_at(s, p, 0) {
        r + replace_all(s.skip(p.len() as int), p, r)
    } else {
        seq![s[0]] + replace_all(s.skip(1), p, r)
    }
}

/// The placeholder of a template variable: the name in double braces.
pub open spec fn placeholder(name: Seq<char>) -> Seq<char> {
    "{{"@ + name + "}}"@
}

/// The template with each variable's placeholder replaced in turn.
pub open spec fn render_template(t: Seq<char>, vars: Seq<(Seq<char>, Seq<char>)>) -> Seq<char>
    decreases vars.len(),
{
    if vars.len() == 0 {
        t
    } else {
        let v = vars.last();
        replace_all(render_template(t, vars.drop_last()), placeholder(v.0), v.1)
    }
}

/// Replaces every occurrence of `p` in `s` by `r`.
pub fn replace_all_of(s: &Vec<char>, p: &Vec<char>, r: &Vec<char>) -> (out: Vec<char>)
    ensures
        out@ == replace_all(s@, p@, r@),
{
    let mut out: Vec<char> = Vec::new();
    if p.len() == 0 {
        crate::text::extend_chars(&mut out, s);
        assert(out@ =~= s@);
        return out;
    }
    let mut i: usize = 0;
    assert(s@.skip(0) =~= s@);
    while i < s.len()
        invariant
            i <= s.len(),
            p.len() > 0,
            replace_all(s@, p@, r@) == out@ + replace_all(s@.skip(i as int), p@, r@),
        decreases s.len() - i,
    {
        let ghost rest = s@.skip(i as int);
        if crate::text::matches_at(s, p, i) {
            assert(occurs_at(rest, p@, 0)) by {
                assert(rest.subrange(0, p@.len() as int) =~= s@.subrange(i as int, i + p@.len()));
            };
            assert(rest.skip(p@.len() as int) =~= s@.skip(i + p@.len()));
            crate::text::extend_chars(&mut out, r);
            i = i + p.len();
        } else {
            assert(!occurs_at(rest, p@, 0)) by {
                if occurs_at(rest, p@, 0) {
                    assert(rest.subrange(0, p@.len() as int) =~= s@.subrange(i as int, i + p@.len()));
                }
            };
            assert(rest.skip(1) =~= s@.skip(i + 1));
            out.push(s[i]);
            i = i + 1;
        }
    }
    assert(s@.skip(i as int) =~= Seq::<char>::empty());
    out
}

/// The views of template variables.
pub open spec fn vars_view(v: Seq<(&str, &str)>) -> Seq<(Seq<char>, Seq<char>)> {
    v.map_values(|p: (&str, &str)| (p.0@, p.1@))
}

/// Fills a prompt template: each `{{name}}` becomes the variable's value, the
/// variables applied in order.
pub fn render_prompt_template(template: &str, variables: &[(&str, &str)]) -> (r: String)
    ensures
        r@ == render_template(template@, vars_view(variables@)),
{
    let mut cur = chars_of(template);
    let mut k: usize = 0;
    assert(vars_view(variables@).take(0) =~= Seq::<(Seq<char>, Seq<char>)>::empty());
    while k < variables.len()
        invariant
            k <= variables.len(),
            cur@ == render_template(template@, vars_view(variables@).take(k as int)),
        decreases variables.len() - k,
    {
        let ghost pre = vars_view(variables@).take(k + 1);
        assert(pre.drop_last() =~= vars_view(variables@).take(k as int));
        let (name, value) = variables[k];
        let mut p = chars_of("{{");
        crate::text::extend_str(&mut p, name);
        crate::text::extend_str(&mut p, "}}");
        let v = chars_of(value);
        assert(p@ == placeholder(pre.last().0));
        cur = replace_all_of(&cur, &p, &v);
        k = k + 1;
    }
    assert(vars_view(variables@).take(variables.len() as int) =~= vars_view(variables@));
    string_of(&cur)
}

/// The run that an AI task request was sent with.
#[derive(Debug, Clone, PartialEq, Eq)]
pub struct AiRunRequest {
    pub endpoint: Option<String>,
    pub request_body: Option<String>,
}

/// Usage totals in one currency.
#[derive(Debug, Clone, PartialEq, Eq)]
pub struct AiUsageCurrencySummary {
    pub currency: String,
    pub run_count: u32,
    pub input_tokens: u64,
    pub output_tokens: u64,
    pub estimated_cost_micros: Option<u64>,
}

/// Usage totals of one day.
#[derive(Debug, Clone, PartialEq, Eq)]
pub struct AiUsageDailySummary {
    pub date: String,
    pub usage: AiUsageCurrencySummary,
}

/// Usage totals of one task.
#[derive(Debug, Clone, PartialEq, Eq)]
pub struct AiUsageTaskSummary {
    pub task_key: String,
    pub usage: AiUsageCurrencySummary,
}

/// Usage over a number of days.
#[derive(Debug, Clone, PartialEq, Eq)]
pub struct AiUsageSummary {
    pub days: u32,
    pub total: Vec<AiUsageCurrencySummary>,
    pub daily: Vec<AiUsageDailySummary>,
    pub by_task: Vec<AiUsageTaskSummary>,
}

/// Proposal quality counts of one task, action, prompt and model.
#[derive(Debug, Clone, PartialEq, Eq)]
pub struct AiQualityGroup {
    pub task_key: String,
    pub action: String,
    pub prompt_version: String,
    pub profile_name: String,
    pub proposal_count: u32,
    pub accepted_count: u32,
    pub rated_count: u32,
    pub helpful_count: u32,
    pub not_helpful_count: u32,
    pub valid_count: u32,
    pub warning_count: u32,
    pub needs_input_count: u32,
    pub invalid_count: u32,
}

/// Proposal quality over all groups.
#[derive(Debug, Clone, PartialEq, Eq)]
pub struct AiQualitySummary {
    pub total_proposals: u32,
    pub total_rated: u32,
    pub total_helpful: u32,
    pub total_with_issues: u32,
    pub groups: Vec<AiQualityGroup>,
}

/// Spending limits in one currency.
#[derive(Debug, Clone, PartialEq, Eq)]
pub struct AiBudgetSettings {
    pub currency: String,
    pub daily_limit_micros: Option<u64>,
    pub project_limit_micros: Option<u64>,
}

impl AiBudgetSettings {
    /// USD with no limits.
    pub fn default_settings() -> (r: Self)
        ensures
            r.currency@ == "USD"@,
            r.daily_limit_micros is None,
            r.project_limit_micros is None,
    {
        AiBudgetSettings {
            currency: String::from_str("USD"),
            daily_limit_micros: None,
            project_limit_micros: None,
        }
    }

    /// The settings are valid: a currency code of one to eight characters once
    /// trimmed, and no limit of zero.
    pub open spec fn valid(&self) -> bool {
        let c = trim(self.currency@);
        0 < c.len() <= 8 && self.daily_limit_micros != Some(0u64) && self.project_limit_micros
            != Some(0u64)
    }

    pub fn validate(&self) -> (r: Result<(), AiError>)
        ensures
            r is Ok <==> self.valid(),
            r is Err ==> r == Err::<(), AiError>(AiError::Contract(AiContractError::InvalidGenerationOptions)),
    {
        let c = crate::text::trim_chars(&chars_of(self.currency.as_str()));
        if c.len() == 0 || c.len() > 8 || self.daily_limit_micros == Some(0u64)
            || self.project_limit_micros == Some(0u64) {
            return Err(AiError::Contract(AiContractError::InvalidGenerationOptions));
        }
        Ok(())
    }

    /// The settings as saved: the currency trimmed and in upper case.
    pub fn normalized(&self) -> (r: Self)
        ensures
            r.currency@ == crate::text::str_uppercase(trim(self.currency@)),
            r.daily_limit_micros == self.daily_limit_micros,
            r.project_limit_micros == self.project_limit_micros,
    {
        let t = crate::text::trim_str(self.currency.as_str());
        AiBudgetSettings {
            currency: crate::text::uppercase_str(t.as_str()),
            daily_limit_micros: self.daily_limit_micros,
            project_limit_micros: self.project_limit_micros,
        }
    }
}

/// How a user rated a proposal.
#[derive(Debug, Clone, Copy, PartialEq, Eq, Structural)]
pub enum AiProposalFeedbackRating {
    Helpful,
    NotHelpful,
}

/// The check of a model output.
#[derive(Debug, Clone, PartialEq, Eq)]
pub struct AiOutputValidation {
    pub status: String,
    pub messages: Vec<String>,
    pub character_count: usize,
    pub paragraph_count: usize,
    pub estimated_output_tokens: u32,
}

/// The outcome of a consistency review.
#[derive(Debug, Clone, Copy, PartialEq, Eq, Structural)]
pub enum AiConsistencyVerdict {
    Pass,
    Review,
    Blocked,
    NeedsInput,
    Unparsed,
}

/// How serious a consistency finding is.
#[derive(Debug, Clone, Copy, PartialEq, Eq, Structural)]
pub enum AiConsistencySeverity {
    Blocker,
    Major,
    Minor,
    Info,
}

/// One problem found by a consistency review.
#[derive(Debug, Clone, PartialEq, Eq)]
pub struct AiConsistencyFinding {
    pub severity: AiConsistencySeverity,
    pub problem: String,
    pub evidence: String,
    pub suggestion: String,
}

/// A parsed consistency review.
#[derive(Debug, Clone, PartialEq, Eq)]
pub struct AiConsistencyReport {
    pub verdict: AiConsistencyVerdict,
    pub summary: String,
    pub findings: Vec<AiConsistencyFinding>,
    pub parse_warnings: Vec<String>,
}

/// Whether the latest consistency review still matches the draft.
#[derive(Debug, Clone, Copy, PartialEq, Eq, Structural)]
pub enum ConsistencyReviewFreshness {
    Missing,
    Fresh,
    Stale,
    Unverified,
}

/// Whether writing may start on a chapter, and why not.
#[derive(Debug, Clone, PartialEq, Eq)]
pub struct WritingAdmission {
    pub allowed: bool,
    pub blocker_count: usize,
    pub reason: Option<String>,
    pub review_freshness: ConsistencyReviewFreshness,
}

} // verus!
