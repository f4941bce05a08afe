//! Core business rules: model profiles, retrieval evidence, knowledge
//! candidates and their review transitions.
use vstd::prelude::*;
use crate::ids::RecordId;
use crate::text::{is_blank_str, starts_with, trim, chars_of, matches_at};

verus! {

#[derive(Debug, Clone, Copy, PartialEq, Eq, Structural)]
pub enum ModelProvider {
    SiliconFlow,
    DeepSeek,
    OpenAi,
    OpenAiCompatible,
}

#[derive(Debug, Clone, Copy, PartialEq, Eq, Structural)]
pub enum ModelCapability {
    Chat,
    Embedding,
}

#[derive(Debug, Clone, Copy, PartialEq, Eq, Structural)]
pub enum PrivacyLevel {
    LocalOnly,
    AllowCloud,
}

#[derive(Debug, Clone, PartialEq, Eq)]
pub struct ModelProfile {
    pub id: RecordId,
    pub name: String,
    pub provider: ModelProvider,
    pub capability: ModelCapability,
    pub base_url: String,
    pub model_id: String,
    pub context_window: u32,
    pub max_output_tokens: u32,
    pub privacy_level: PrivacyLevel,
    pub timeout_seconds: u32,
    pub retry_limit: u8,
    pub input_price_micros_per_million: u64,
    pub output_price_micros_per_million: u64,
    pub price_currency: String,
    pub secret_ref: Option<String>,
    pub has_secret: bool,
    pub created_at: String,
    pub updated_at: String,
}

#[derive(Debug, Clone, PartialEq, Eq)]
pub struct ModelProfileInput {
    pub id: Option<RecordId>,
    pub name: String,
    pub provider: ModelProvider,
    pub capability: ModelCapability,
    pub base_url: String,
    pub model_id: String,
    pub context_window: u32,
    pub max_output_tokens: u32,
    pub privacy_level: PrivacyLevel,
    pub timeout_seconds: u32,
    pub retry_limit: u8,
    pub input_price_micros_per_million: u64,
    pub output_price_micros_per_million: u64,
    pub price_currency: String,
}

#[derive(Debug, Clone, Copy, PartialEq, Eq, Structural)]
pub enum AiAction {
    Draft,
    Continue,
    Rewrite,
    Polish,
    Summarize,
    ConsistencyCheck,
}

#[derive(Debug, Clone, Copy, PartialEq, Eq, Structural)]
pub enum RetrievalMethod {
    Structured,
    Keyword,
    Semantic,
}

#[derive(Debug, Clone, Copy, PartialEq, Eq, Structural)]
pub enum ContextAuthority {
    AuthoritativeFact,
    TaskMaterial,
    Reference,
}

#[derive(Debug, Clone, PartialEq, Eq)]
pub struct EmbeddingIdentity {
    pub profile_id: RecordId,
    pub model_id: String,
    pub dimensions: u32,
}

#[derive(Debug, Clone, PartialEq, Eq)]
pub struct KnowledgeChunk {
    pub id: RecordId,
    pub source_id: RecordId,
    pub source_revision: String,
    pub source_hash: String,
    pub chunk_index: u32,
    pub chunking_version: String,
    pub content: String,
    pub embedding: Option<EmbeddingIdentity>,
}

#[derive(Debug, Clone, PartialEq, Eq)]
pub struct RetrievalEvidence {
    pub chunk: KnowledgeChunk,
    pub method: RetrievalMethod,
    pub authority: ContextAuthority,
    /// Normalized relevance in the inclusive range `0..=10_000`.
    pub relevance: u16,
}

#[derive(Debug, Clone, Copy, PartialEq, Eq, Structural)]
pub enum ReviewPurpose {
    Admission,
    Manuscript,
}

#[derive(Debug, Clone, Copy, PartialEq, Eq, Structural)]
pub enum WritingReviewPolicy {
    Advisory,
    Standard,
    Required,
}

#[derive(Debug, Clone, Copy, PartialEq, Eq, Structural)]
pub enum AiTaskStatus {
    Running,
    Completed,
    Failed,
    Cancelled,
}

#[derive(Debug, Clone, Copy, PartialEq, Eq, Structural)]
pub enum AiProposalStatus {
    Pending,
    Accepted,
    PartiallyAccepted,
    Rejected,
}

#[derive(Debug, Clone, PartialEq, Eq)]
pub struct AiProposal {
    pub id: RecordId,
    pub task_id: RecordId,
    pub chapter_id: RecordId,
    pub action: AiAction,
    pub review_purpose: ReviewPurpose,
    pub target_revision_id: Option<RecordId>,
    pub context_version: String,
    pub prompt_version: String,
    pub output_text: String,
    pub accepted_text: Option<String>,
    pub status: AiProposalStatus,
    pub created_at: String,
    pub decided_at: Option<String>,
}

#[derive(Debug, Clone, Copy, PartialEq, Eq, Structural)]
pub enum KnowledgeLifecycleStatus {
    Active,
    NeedsReview,
    Archived,
}

#[derive(Debug, Clone, Copy, PartialEq, Eq, Structural)]
pub enum CandidateStatus {
    Pending,
    NeedsReview,
    Approved,
    Rejected,
    Finalized,
}

#[derive(Debug, Clone, Copy, PartialEq, Eq, Structural)]
pub enum ReviewDecision {
    Approve,
    Reject,
    NeedsReview,
}

#[derive(Debug, Clone, Copy, PartialEq, Eq, Structural)]
pub enum ChangeSetStatus {
    Draft,
    InReview,
    Blocked,
    Finalized,
    Rejected,
}

#[derive(Debug, Clone, PartialEq, Eq)]
pub struct EvidenceAnchor {
    pub id: RecordId,
    pub project_id: RecordId,
    pub chapter_id: RecordId,
    pub source_revision_id: RecordId,
    pub block_id: String,
    pub start_offset: u32,
    pub end_offset: u32,
    pub source_version: String,
    pub source_hash: String,
    pub lifecycle_status: KnowledgeLifecycleStatus,
    pub created_by: String,
    pub created_at: String,
    pub updated_at: String,
}

#[derive(Debug, Clone, PartialEq, Eq)]
pub struct Fact {
    pub knowledge_id: RecordId,
    pub project_id: RecordId,
    pub knowledge_version: u32,
    pub subject: String,
    pub predicate: String,
    pub object: String,
    pub source_revision_id: RecordId,
    pub evidence_anchor_ids: Vec<RecordId>,
    pub lifecycle_status: KnowledgeLifecycleStatus,
    pub created_by: String,
    pub created_at: String,
    pub updated_at: String,
}

#[derive(Debug, Clone, PartialEq, Eq)]
pub struct KnowledgeCandidate {
    pub id: RecordId,
    pub project_id: RecordId,
    pub chapter_id: RecordId,
    pub proposal_id: Option<RecordId>,
    pub candidate_status: CandidateStatus,
    pub review_decision: Option<ReviewDecision>,
    pub reviewer: Option<String>,
    pub reviewed_at: Option<String>,
    pub fact: Fact,
    pub created_at: String,
    pub updated_at: String,
}

#[derive(Debug, Clone, PartialEq, Eq)]
pub struct ChangeSet {
    pub id: RecordId,
    pub project_id: RecordId,
    pub chapter_id: RecordId,
    pub source_revision_id: RecordId,
    pub status: ChangeSetStatus,
    pub candidate_ids: Vec<RecordId>,
    pub created_by: String,
    pub created_at: String,
    pub updated_at: String,
}

#[derive(Debug, Clone, Copy, PartialEq, Eq, Structural)]
pub enum KnowledgeConflictKind {
    DuplicateFact,
    ContradictoryObject,
}

#[derive(Debug, Clone, PartialEq, Eq)]
pub struct KnowledgeConflict {
    pub kind: KnowledgeConflictKind,
    pub candidate_ids: Vec<RecordId>,
    pub subject: String,
    pub predicate: String,
    pub objects: Vec<String>,
    pub high_risk: bool,
}

#[derive(Debug, Clone, Copy, PartialEq, Eq, Structural)]
pub enum AiContractError {
    EmptyProfileName,
    EmptyModelId,
    InvalidBaseUrl,
    InvalidTokenLimit,
    InvalidTimeout,
    InvalidRetryLimit,
    InvalidProviderCapability,
    SelectionRequired,
    EmptyAcceptedText,
    InvalidProposalTransition,
    InvalidRetrievalEvidence,
    InvalidGenerationOptions,
}

/// The message shown for a contract error.
pub open spec fn contract_error_message(e: AiContractError) -> Seq<char> {
    match e {
        AiContractError::EmptyProfileName => "profile name cannot be empty"@,
        AiContractError::EmptyModelId => "model id cannot be empty"@,
        AiContractError::InvalidBaseUrl => "base URL must use http or https"@,
        AiContractError::InvalidTokenLimit => "context window and output token limits must be positive"@,
        AiContractError::InvalidTimeout => "timeout must be between 1 and 600 seconds"@,
        AiContractError::InvalidRetryLimit => "retry limit cannot exceed 3"@,
        AiContractError::InvalidProviderCapability => "the selected provider does not support this model capability"@,
        AiContractError::SelectionRequired => "this action requires a non-empty selection"@,
        AiContractError::EmptyAcceptedText => "accepted proposal text cannot be empty"@,
        AiContractError::InvalidProposalTransition => "proposal status transition is invalid"@,
        AiContractError::InvalidRetrievalEvidence => "retrieval evidence metadata is invalid"@,
        AiContractError::InvalidGenerationOptions => "generation options are invalid"@,
    }
}

impl AiContractError {
    /// The message shown for the error.
    pub fn message(&self) -> (r: &'static str)
        ensures
            r@ == contract_error_message(*self),
    {
        match self {
            AiContractError::EmptyProfileName => "profile name cannot be empty",
            AiContractError::EmptyModelId => "model id cannot be empty",
            AiContractError::InvalidBaseUrl => "base URL must use http or https",
            AiContractError::InvalidTokenLimit => "context window and output token limits must be positive",
            AiContractError::InvalidTimeout => "timeout must be between 1 and 600 seconds",
            AiContractError::InvalidRetryLimit => "retry limit cannot exceed 3",
            AiContractError::InvalidProviderCapability => "the selected provider does not support this model capability",
            AiContractError::SelectionRequired => "this action requires a non-empty selection",
            AiContractError::EmptyAcceptedText => "accepted proposal text cannot be empty",
            AiContractError::InvalidProposalTransition => "proposal status transition is invalid",
            AiContractError::InvalidRetrievalEvidence => "retrieval evidence metadata is invalid",
            AiContractError::InvalidGenerationOptions => "generation options are invalid",
        }
    }
}

#[derive(Debug, Clone, Copy, PartialEq, Eq, Structural)]
pub enum KnowledgeContractError {
    EmptyText,
    MissingEvidence,
    InvalidEvidenceRange,
    EmptyBlockId,
    EmptySourceIdentity,
    EmptyActor,
    InvalidKnowledgeVersion,
    InvalidCandidateReview,
    EmptyChangeSet,
    InvalidChangeSetTransition,
}

/// The text is empty once trimmed.
pub open spec fn blank(s: Seq<char>) -> bool {
    trim(s).len() == 0
}

impl RetrievalEvidence {
    /// The verdict of `validate`.
    pub open spec fn validation(&self) -> Result<(), AiContractError> {
        let chunk = self.chunk;
        let invalid_source = blank(chunk.source_revision@) || blank(chunk.source_hash@) || blank(
            chunk.chunking_version@,
        ) || blank(chunk.content@);
        let invalid_embedding = match chunk.embedding {
            Some(e) => blank(e.model_id@) || e.dimensions == 0,
            None => false,
        };
        if invalid_source || invalid_embedding || self.relevance > 10_000 {
            Err(AiContractError::InvalidRetrievalEvidence)
        } else {
            Ok(())
        }
    }

    /// Validates source identity and embedding compatibility metadata.
    pub fn validate(&self) -> (r: Result<(), AiContractError>)
        ensures
            r == self.validation(),
    {
        let chunk = &self.chunk;
        let invalid_source = is_blank_str(chunk.source_revision.as_str()) || is_blank_str(
            chunk.source_hash.as_str(),
        ) || is_blank_str(chunk.chunking_version.as_str()) || is_blank_str(chunk.content.as_str());
        let invalid_embedding = match &chunk.embedding {
            Some(e) => is_blank_str(e.model_id.as_str()) || e.dimensions == 0,
            None => false,
        };
        if invalid_source || invalid_embedding || self.relevance > 10_000 {
            return Err(AiContractError::InvalidRetrievalEvidence);
        }
        Ok(())
    }
}

impl AiAction {
    pub open spec fn needs_selection(self) -> bool {
        self == AiAction::Rewrite || self == AiAction::Polish
    }

    /// Rewrite and polish work on a selection.
    pub fn requires_selection(self) -> (r: bool)
        ensures
            r == self.needs_selection(),
    {
        match self {
            AiAction::Rewrite | AiAction::Polish => true,
            _ => false,
        }
    }
}

impl CandidateStatus {
    /// The review transitions a knowledge candidate may take.
    pub open spec fn allows(self, next: Self) -> bool {
        match (self, next) {
            (CandidateStatus::Pending, CandidateStatus::NeedsReview) => true,
            (CandidateStatus::Pending, CandidateStatus::Approved) => true,
            (CandidateStatus::Pending, CandidateStatus::Rejected) => true,
            (CandidateStatus::NeedsReview, CandidateStatus::Approved) => true,
            (CandidateStatus::NeedsReview, CandidateStatus::Rejected) => true,
            (CandidateStatus::Approved, CandidateStatus::Finalized) => true,
            _ => false,
        }
    }

    pub fn can_transition_to(self, next: Self) -> (r: bool)
        ensures
            r == self.allows(next),
    {
        match (self, next) {
            (CandidateStatus::Pending, CandidateStatus::NeedsReview)
            | (CandidateStatus::Pending, CandidateStatus::Approved)
            | (CandidateStatus::Pending, CandidateStatus::Rejected)
            | (CandidateStatus::NeedsReview, CandidateStatus::Approved)
            | (CandidateStatus::NeedsReview, CandidateStatus::Rejected)
            | (CandidateStatus::Approved, CandidateStatus::Finalized) => true,
            _ => false,
        }
    }
}

impl ChangeSetStatus {
    /// The transitions a change set may take.
    pub open spec fn allows(self, next: Self) -> bool {
        match (self, next) {
            (ChangeSetStatus::Draft, ChangeSetStatus::InReview) => true,
            (ChangeSetStatus::Draft, ChangeSetStatus::Rejected) => true,
            (ChangeSetStatus::Blocked, ChangeSetStatus::InReview) => true,
            (ChangeSetStatus::Blocked, ChangeSetStatus::Rejected) => true,
            (ChangeSetStatus::InReview, ChangeSetStatus::Blocked) => true,
            (ChangeSetStatus::InReview, ChangeSetStatus::Finalized) => true,
            (ChangeSetStatus::InReview, ChangeSetStatus::Rejected) => true,
            _ => false,
        }
    }

    pub fn can_transition_to(self, next: Self) -> (r: bool)
        ensures
            r == self.allows(next),
    {
        match (self, next) {
            (ChangeSetStatus::Draft, ChangeSetStatus::InReview)
            | (ChangeSetStatus::Draft, ChangeSetStatus::Rejected)
            | (ChangeSetStatus::Blocked, ChangeSetStatus::InReview)
            | (ChangeSetStatus::Blocked, ChangeSetStatus::Rejected)
            | (ChangeSetStatus::InReview, ChangeSetStatus::Blocked)
            | (ChangeSetStatus::InReview, ChangeSetStatus::Finalized)
            | (ChangeSetStatus::InReview, ChangeSetStatus::Rejected) => true,
            _ => false,
        }
    }
}

/// A finalized or rejected knowledge candidate takes no further step.
pub proof fn candidate_terminal_states_are_final(next: CandidateStatus)
    ensures
        !CandidateStatus::Finalized.allows(next),
        !CandidateStatus::Rejected.allows(next),
{
}

/// A finalized or rejected change set takes no further step.
pub proof fn change_set_terminal_states_are_final(next: ChangeSetStatus)
    ensures
        !ChangeSetStatus::Finalized.allows(next),
        !ChangeSetStatus::Rejected.allows(next),
{
}

/// No status transition, of a candidate or of a change set, leads back to itself.
pub proof fn transitions_always_change_status(c: CandidateStatus, s: ChangeSetStatus)
    ensures
        !c.allows(c),
        !s.allows(s),
{
}

/// Candidate review never returns to an earlier stage: along any chain of
/// allowed transitions the stage rank strictly increases.
pub open spec fn candidate_rank(s: CandidateStatus) -> int {
    match s {
        CandidateStatus::Pending => 0,
        CandidateStatus::NeedsReview => 1,
        CandidateStatus::Approved => 2,
        CandidateStatus::Rejected => 3,
        CandidateStatus::Finalized => 3,
    }
}

/// Every allowed candidate transition moves to a strictly later stage.
pub proof fn candidate_transitions_move_forward(from: CandidateStatus, to: CandidateStatus)
    requires
        from.allows(to),
    ensures
        candidate_rank(from) < candidate_rank(to),
{
}

impl EvidenceAnchor {
    pub open spec fn validation(&self) -> Result<(), KnowledgeContractError> {
        if blank(self.block_id@) {
            Err(KnowledgeContractError::EmptyBlockId)
        } else if self.start_offset >= self.end_offset {
            Err(KnowledgeContractError::InvalidEvidenceRange)
        } else if blank(self.source_version@) || blank(self.source_hash@) {
            Err(KnowledgeContractError::EmptySourceIdentity)
        } else if blank(self.created_by@) {
            Err(KnowledgeContractError::EmptyActor)
        } else {
            Ok(())
        }
    }

    /// Validates source identity and character range.
    pub fn validate(&self) -> (r: Result<(), KnowledgeContractError>)
        ensures
            r == self.validation(),
    {
        if is_blank_str(self.block_id.as_str()) {
            return Err(KnowledgeContractError::EmptyBlockId);
        }
        if self.start_offset >= self.end_offset {
            return Err(KnowledgeContractError::InvalidEvidenceRange);
        }
        if is_blank_str(self.source_version.as_str()) || is_blank_str(self.source_hash.as_str()) {
            return Err(KnowledgeContractError::EmptySourceIdentity);
        }
        if is_blank_str(self.created_by.as_str()) {
            return Err(KnowledgeContractError::EmptyActor);
        }
        Ok(())
    }
}

impl Fact {
    pub open spec fn validation(&self) -> Result<(), KnowledgeContractError> {
        if self.knowledge_version == 0 {
            Err(KnowledgeContractError::InvalidKnowledgeVersion)
        } else if blank(self.subject@) || blank(self.predicate@) || blank(self.object@) {
            Err(KnowledgeContractError::EmptyText)
        } else if self.evidence_anchor_ids@.len() == 0 {
            Err(KnowledgeContractError::MissingEvidence)
        } else if blank(self.created_by@) {
            Err(KnowledgeContractError::EmptyActor)
        } else {
            Ok(())
        }
    }

    /// Validates the immutable fact version contract.
    pub fn validate(&self) -> (r: Result<(), KnowledgeContractError>)
        ensures
            r == self.validation(),
    {
        if self.knowledge_version == 0 {
            return Err(KnowledgeContractError::InvalidKnowledgeVersion);
        }
        if is_blank_str(self.subject.as_str()) || is_blank_str(self.predicate.as_str())
            || is_blank_str(self.object.as_str()) {
            return Err(KnowledgeContractError::EmptyText);
        }
        if self.evidence_anchor_ids.len() == 0 {
            return Err(KnowledgeContractError::MissingEvidence);
        }
        if is_blank_str(self.created_by.as_str()) {
            return Err(KnowledgeContractError::EmptyActor);
        }
        Ok(())
    }
}

impl KnowledgeCandidate {
    /// The review decision recorded with a candidate matches its status.
    pub open spec fn review_consistent(&self) -> bool {
        match self.candidate_status {
            CandidateStatus::Pending | CandidateStatus::NeedsReview => self.review_decision.is_none(),
            CandidateStatus::Approved | CandidateStatus::Finalized => self.review_decision
                == Some(ReviewDecision::Approve),
            CandidateStatus::Rejected => self.review_decision == Some(ReviewDecision::Reject),
        }
    }

    pub open spec fn validation(&self) -> Result<(), KnowledgeContractError> {
        match self.fact.validation() {
            Err(e) => Err(e),
            Ok(()) => if self.fact.project_id != self.project_id || !self.review_consistent() {
                Err(KnowledgeContractError::InvalidCandidateReview)
            } else {
                Ok(())
            },
        }
    }

    /// Validates the candidate and review metadata.
    pub fn validate(&self) -> (r: Result<(), KnowledgeContractError>)
        ensures
            r == self.validation(),
    {
        match self.fact.validate() {
            Err(e) => return Err(e),
            Ok(()) => {},
        }
        if self.fact.project_id != self.project_id {
            return Err(KnowledgeContractError::InvalidCandidateReview);
        }
        let review_consistent = match self.candidate_status {
            CandidateStatus::Pending | CandidateStatus::NeedsReview => self.review_decision.is_none(),
            CandidateStatus::Approved | CandidateStatus::Finalized => match self.review_decision {
                Some(ReviewDecision::Approve) => true,
                _ => false,
            },
            CandidateStatus::Rejected => match self.review_decision {
                Some(ReviewDecision::Reject) => true,
                _ => false,
            },
        };
        if !review_consistent {
            return Err(KnowledgeContractError::InvalidCandidateReview);
        }
        Ok(())
    }
}

impl ChangeSet {
    pub open spec fn validation(&self) -> Result<(), KnowledgeContractError> {
        if self.candidate_ids@.len() == 0 {
            Err(KnowledgeContractError::EmptyChangeSet)
        } else if blank(self.created_by@) {
            Err(KnowledgeContractError::EmptyActor)
        } else {
            Ok(())
        }
    }

    /// Validates the minimum change-set metadata.
    pub fn validate(&self) -> (r: Result<(), KnowledgeContractError>)
        ensures
            r == self.validation(),
    {
        if self.candidate_ids.len() == 0 {
            return Err(KnowledgeContractError::EmptyChangeSet);
        }
        if is_blank_str(self.created_by.as_str()) {
            return Err(KnowledgeContractError::EmptyActor);
        }
        Ok(())
    }
}

/// The provider serves the capability: SiliconFlow embeddings, the others chat.
pub open spec fn provider_serves(provider: ModelProvider, capability: ModelCapability) -> bool {
    match (provider, capability) {
        (ModelProvider::SiliconFlow, ModelCapability::Embedding) => true,
        (ModelProvider::DeepSeek, ModelCapability::Chat) => true,
        (ModelProvider::OpenAi, ModelCapability::Chat) => true,
        (ModelProvider::OpenAiCompatible, ModelCapability::Chat) => true,
        _ => false,
    }
}

impl ModelProfileInput {
    pub open spec fn validation(&self) -> Result<(), AiContractError> {
        if blank(self.name@) {
            Err(AiContractError::EmptyProfileName)
        } else if blank(self.model_id@) {
            Err(AiContractError::EmptyModelId)
        } else if !(starts_with(self.base_url@, "http://"@) || starts_with(
            self.base_url@,
            "https://"@,
        )) {
            Err(AiContractError::InvalidBaseUrl)
        } else if self.context_window == 0 || self.max_output_tokens == 0 {
            Err(AiContractError::InvalidTokenLimit)
        } else if !(1 <= self.timeout_seconds <= 600) {
            Err(AiContractError::InvalidTimeout)
        } else if self.retry_limit > 3 {
            Err(AiContractError::InvalidRetryLimit)
        } else if !provider_serves(self.provider, self.capability) {
            Err(AiContractError::InvalidProviderCapability)
        } else {
            Ok(())
        }
    }

    /// Validates model limits and the cloud API endpoint contract.
    pub fn validate(&self) -> (r: Result<(), AiContractError>)
        ensures
            r == self.validation(),
    {
        if is_blank_str(self.name.as_str()) {
            return Err(AiContractError::EmptyProfileName);
        }
        if is_blank_str(self.model_id.as_str()) {
            return Err(AiContractError::EmptyModelId);
        }
        let url = chars_of(self.base_url.as_str());
        let http = chars_of("http://");
        let https = chars_of("https://");
        if !(matches_at(&url, &http, 0) || matches_at(&url, &https, 0)) {
            return Err(AiContractError::InvalidBaseUrl);
        }
        if self.context_window == 0 || self.max_output_tokens == 0 {
            return Err(AiContractError::InvalidTokenLimit);
        }
        if !(1 <= self.timeout_seconds && self.timeout_seconds <= 600) {
            return Err(AiContractError::InvalidTimeout);
        }
        if self.retry_limit > 3 {
            return Err(AiContractError::InvalidRetryLimit);
        }
        let valid_capability = match (self.provider, self.capability) {
            (ModelProvider::SiliconFlow, ModelCapability::Embedding)
            | (ModelProvider::DeepSeek, ModelCapability::Chat)
            | (ModelProvider::OpenAi, ModelCapability::Chat)
            | (ModelProvider::OpenAiCompatible, ModelCapability::Chat) => true,
            _ => false,
        };
        if !valid_capability {
            return Err(AiContractError::InvalidProviderCapability);
        }
        Ok(())
    }
}

impl ReviewPurpose {
    pub open spec fn key(self) -> Seq<char> {
        match self {
            ReviewPurpose::Admission => "ADMISSION"@,
            ReviewPurpose::Manuscript => "MANUSCRIPT"@,
        }
    }

    /// The key under which the purpose is stored.
    pub fn storage_key(self) -> (r: &'static str)
        ensures
            r@ == self.key(),
    {
        match self {
            ReviewPurpose::Admission => "ADMISSION",
            ReviewPurpose::Manuscript => "MANUSCRIPT",
        }
    }
}

/// Returns the stable name used in architecture diagnostics.
pub fn layer_name() -> (name: &'static str)
    ensures
        name@ == "domain"@,
{
    "domain"
}

} // verus!
