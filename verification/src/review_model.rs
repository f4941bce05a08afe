//! Review claims, evidence and findings.
use vstd::prelude::*;
use crate::ids::RecordId;
use crate::domain::ReviewPurpose;
use crate::text::{ascii_lower, is_white_space, trim, trim_end, trim_start, ascii_upper_seq, chars_of, trim_chars, to_ascii_uppercase_chars, eq_str};

verus! {

#[derive(Debug, Clone, Copy, PartialEq, Eq, Structural)]
pub enum ReviewClaimType {
    CharacterStatus,
    CharacterLocation,
    AbilityOrRealm,
    ItemPossession,
    Relation,
    KnowledgeBoundary,
    RequiredEvent,
    ForbiddenEvent,
    AllowedCharacter,
    TimeWindow,
    StageBoundary,
    ForeshadowingWindow,
    PlanDependency,
}

impl ReviewClaimType {
    pub open spec fn key(self) -> Seq<char> {
        match self {
            ReviewClaimType::CharacterStatus => "CHARACTER_STATUS"@,
            ReviewClaimType::CharacterLocation => "CHARACTER_LOCATION"@,
            ReviewClaimType::AbilityOrRealm => "ABILITY_OR_REALM"@,
            ReviewClaimType::ItemPossession => "ITEM_POSSESSION"@,
            ReviewClaimType::Relation => "RELATION"@,
            ReviewClaimType::KnowledgeBoundary => "KNOWLEDGE_BOUNDARY"@,
            ReviewClaimType::RequiredEvent => "REQUIRED_EVENT"@,
            ReviewClaimType::ForbiddenEvent => "FORBIDDEN_EVENT"@,
            ReviewClaimType::AllowedCharacter => "ALLOWED_CHARACTER"@,
            ReviewClaimType::TimeWindow => "TIME_WINDOW"@,
            ReviewClaimType::StageBoundary => "STAGE_BOUNDARY"@,
            ReviewClaimType::ForeshadowingWindow => "FORESHADOWING_WINDOW"@,
            ReviewClaimType::PlanDependency => "PLAN_DEPENDENCY"@,
        }
    }

    pub fn as_str(self) -> (r: &'static str)
        ensures
            r@ == self.key(),
    {
        match self {
            ReviewClaimType::CharacterStatus => "CHARACTER_STATUS",
            ReviewClaimType::CharacterLocation => "CHARACTER_LOCATION",
            ReviewClaimType::AbilityOrRealm => "ABILITY_OR_REALM",
            ReviewClaimType::ItemPossession => "ITEM_POSSESSION",
            ReviewClaimType::Relation => "RELATION",
            ReviewClaimType::KnowledgeBoundary => "KNOWLEDGE_BOUNDARY",
            ReviewClaimType::RequiredEvent => "REQUIRED_EVENT",
            ReviewClaimType::ForbiddenEvent => "FORBIDDEN_EVENT",
            ReviewClaimType::AllowedCharacter => "ALLOWED_CHARACTER",
            ReviewClaimType::TimeWindow => "TIME_WINDOW",
            ReviewClaimType::StageBoundary => "STAGE_BOUNDARY",
            ReviewClaimType::ForeshadowingWindow => "FORESHADOWING_WINDOW",
            ReviewClaimType::PlanDependency => "PLAN_DEPENDENCY",
        }
    }

    /// Admission reviews check planning claims, manuscript reviews check
    /// story-state claims.
    pub open spec fn serves(self, purpose: ReviewPurpose) -> bool {
        match purpose {
            ReviewPurpose::Admission => match self {
                ReviewClaimType::RequiredEvent | ReviewClaimType::ForbiddenEvent
                | ReviewClaimType::AllowedCharacter | ReviewClaimType::TimeWindow
                | ReviewClaimType::StageBoundary | ReviewClaimType::ForeshadowingWindow
                | ReviewClaimType::PlanDependency => true,
                _ => false,
            },
            ReviewPurpose::Manuscript => match self {
                ReviewClaimType::CharacterStatus | ReviewClaimType::CharacterLocation
                | ReviewClaimType::AbilityOrRealm | ReviewClaimType::ItemPossession
                | ReviewClaimType::Relation | ReviewClaimType::KnowledgeBoundary => true,
                _ => false,
            },
        }
    }

    pub fn supports(self, purpose: ReviewPurpose) -> (r: bool)
        ensures
            r == self.serves(purpose),
    {
        match purpose {
            ReviewPurpose::Admission => match self {
                ReviewClaimType::RequiredEvent | ReviewClaimType::ForbiddenEvent
                | ReviewClaimType::AllowedCharacter | ReviewClaimType::TimeWindow
                | ReviewClaimType::StageBoundary | ReviewClaimType::ForeshadowingWindow
                | ReviewClaimType::PlanDependency => true,
                _ => false,
            },
            ReviewPurpose::Manuscript => match self {
                ReviewClaimType::CharacterStatus | ReviewClaimType::CharacterLocation
                | ReviewClaimType::AbilityOrRealm | ReviewClaimType::ItemPossession
                | ReviewClaimType::Relation | ReviewClaimType::KnowledgeBoundary => true,
                _ => false,
            },
        }
    }

    /// The claim type named by a normalized key.
    pub open spec fn from_key(u: Seq<char>) -> Option<ReviewClaimType> {
        if u == "CHARACTER_STATUS"@ {
            Some(ReviewClaimType::CharacterStatus)
        } else if u == "CHARACTER_LOCATION"@ {
            Some(ReviewClaimType::CharacterLocation)
        } else if u == "ABILITY_OR_REALM"@ {
            Some(ReviewClaimType::AbilityOrRealm)
        } else if u == "ITEM_POSSESSION"@ {
            Some(ReviewClaimType::ItemPossession)
        } else if u == "RELATION"@ {
            Some(ReviewClaimType::Relation)
        } else if u == "KNOWLEDGE_BOUNDARY"@ {
            Some(ReviewClaimType::KnowledgeBoundary)
        } else if u == "REQUIRED_EVENT"@ {
            Some(ReviewClaimType::RequiredEvent)
        } else if u == "FORBIDDEN_EVENT"@ {
            Some(ReviewClaimType::ForbiddenEvent)
        } else if u == "ALLOWED_CHARACTER"@ {
            Some(ReviewClaimType::AllowedCharacter)
        } else if u == "TIME_WINDOW"@ {
            Some(ReviewClaimType::TimeWindow)
        } else if u == "STAGE_BOUNDARY"@ {
            Some(ReviewClaimType::StageBoundary)
        } else if u == "FORESHADOWING_WINDOW"@ {
            Some(ReviewClaimType::ForeshadowingWindow)
        } else if u == "PLAN_DEPENDENCY"@ {
            Some(ReviewClaimType::PlanDependency)
        } else {
            None
        }
    }

    /// Reads a claim type, ignoring surrounding white space and ASCII case.
    pub fn parse(value: &str) -> (r: Option<ReviewClaimType>)
        ensures
            r == Self::from_key(ascii_upper_seq(trim(value@))),
    {
        let raw = chars_of(value);
        let trimmed = trim_chars(&raw);
        let u = to_ascii_uppercase_chars(&trimmed);
        if eq_str(&u, "CHARACTER_STATUS") {
            Some(ReviewClaimType::CharacterStatus)
        } else if eq_str(&u, "CHARACTER_LOCATION") {
            Some(ReviewClaimType::CharacterLocation)
        } else if eq_str(&u, "ABILITY_OR_REALM") {
            Some(ReviewClaimType::AbilityOrRealm)
        } else if eq_str(&u, "ITEM_POSSESSION") {
            Some(ReviewClaimType::ItemPossession)
        } else if eq_str(&u, "RELATION") {
            Some(ReviewClaimType::Relation)
        } else if eq_str(&u, "KNOWLEDGE_BOUNDARY") {
            Some(ReviewClaimType::KnowledgeBoundary)
        } else if eq_str(&u, "REQUIRED_EVENT") {
            Some(ReviewClaimType::RequiredEvent)
        } else if eq_str(&u, "FORBIDDEN_EVENT") {
            Some(ReviewClaimType::ForbiddenEvent)
        } else if eq_str(&u, "ALLOWED_CHARACTER") {
            Some(ReviewClaimType::AllowedCharacter)
        } else if eq_str(&u, "TIME_WINDOW") {
            Some(ReviewClaimType::TimeWindow)
        } else if eq_str(&u, "STAGE_BOUNDARY") {
            Some(ReviewClaimType::StageBoundary)
        } else if eq_str(&u, "FORESHADOWING_WINDOW") {
            Some(ReviewClaimType::ForeshadowingWindow)
        } else if eq_str(&u, "PLAN_DEPENDENCY") {
            Some(ReviewClaimType::PlanDependency)
        } else {
            None
        }
    }
}

/// A claim type's name needs no trimming and no case change.
proof fn lemma_key_is_normal(s: Seq<char>)
    requires
        s.len() > 0,
        forall|i: int| 0 <= i < s.len() ==> ('A' <= #[trigger] s[i] && s[i] <= 'Z') || s[i] == '_',
    ensures
        trim(s) == s,
        ascii_upper_seq(s) == s,
{
    assert(!is_white_space(s[0]));
    assert(!is_white_space(s.last()));
    assert(ascii_upper_seq(s) =~= s);
}

/// A claim type's name in ASCII lower case with a space on each side trims
/// and upper-cases back to the name.
proof fn lemma_spaced_lower_key(s: Seq<char>)
    requires
        s.len() > 0,
        forall|i: int| 0 <= i < s.len() ==> ('A' <= #[trigger] s[i] && s[i] <= 'Z') || s[i] == '_',
    ensures
        ascii_upper_seq(trim(seq![' '] + s.map_values(|c: char| ascii_lower(c)) + seq![' '])) == s,
{
    let low = s.map_values(|c: char| ascii_lower(c));
    let tail = low + seq![' '];
    let spaced = seq![' '] + tail;
    assert(spaced =~= seq![' '] + low + seq![' ']);
    assert(is_white_space(spaced[0]));
    assert(spaced.drop_first() =~= tail);
    assert(trim_start(spaced) == trim_start(tail));
    assert(tail[0] == low[0]);
    assert(!is_white_space(low[0]));
    assert(trim_start(tail) == tail);
    assert(is_white_space(tail.last()));
    assert(tail.drop_last() =~= low);
    assert(trim_end(tail) == trim_end(low));
    assert(low.last() == low[low.len() - 1]);
    assert(!is_white_space(low[low.len() - 1]));
    assert(trim_end(low) == low);
    assert(ascii_upper_seq(low) =~= s);
}

/// A normalized text names a claim type exactly when it is that type's name
/// (the names are distinct); and reading a claim type's own name, or that
/// name in ASCII lower case with a space on each side, gives that type back.
pub proof fn claim_type_names_read_back(t: ReviewClaimType, u: Seq<char>)
    ensures
        ReviewClaimType::from_key(u) == Some(t) <==> u == t.key(),
        ReviewClaimType::from_key(ascii_upper_seq(trim(t.key()))) == Some(t),
        ReviewClaimType::from_key(
            ascii_upper_seq(trim(seq![' '] + t.key().map_values(|c: char| ascii_lower(c)) + seq![' '])),
        ) == Some(t),
{
    reveal_strlit("CHARACTER_STATUS");
    reveal_strlit("CHARACTER_LOCATION");
    reveal_strlit("ABILITY_OR_REALM");
    reveal_strlit("ITEM_POSSESSION");
    reveal_strlit("RELATION");
    reveal_strlit("KNOWLEDGE_BOUNDARY");
    reveal_strlit("REQUIRED_EVENT");
    reveal_strlit("FORBIDDEN_EVENT");
    reveal_strlit("ALLOWED_CHARACTER");
    reveal_strlit("TIME_WINDOW");
    reveal_strlit("STAGE_BOUNDARY");
    reveal_strlit("FORESHADOWING_WINDOW");
    reveal_strlit("PLAN_DEPENDENCY");
    lemma_key_is_normal(t.key());
    lemma_spaced_lower_key(t.key());
}

/// Every claim type serves exactly one review purpose.
pub proof fn claim_types_serve_one_purpose(t: ReviewClaimType)
    ensures
        t.serves(ReviewPurpose::Admission) != t.serves(ReviewPurpose::Manuscript),
{
}

#[derive(Debug, Clone, Copy, PartialEq, Eq, Structural, Hash)]
pub enum ReviewStatus {
    Pass,
    Notice,
    Warning,
    Block,
    Unknown,
}

#[derive(Debug, Clone, Copy, PartialEq, Eq, Structural)]
pub enum FindingSource {
    Rule,
    Llm,
    Merged,
}

#[derive(Debug, Clone, Copy, PartialEq, Eq, Structural)]
pub enum EvidenceAuthority {
    LockedRule,
    ConfirmedFact,
    CurrentState,
    ChapterContract,
    ApprovedEvent,
    PlanReference,
    SummaryReference,
    Unconfirmed,
}

#[derive(Debug, Clone, Copy, PartialEq, Eq, Structural, Hash)]
pub enum ReviewEvidenceSource {
    Entity,
    Fact,
    WorldState,
    Relation,
    Belief,
    Event,
    Foreshadowing,
    LockedRule,
    ChapterContract,
}

impl ReviewEvidenceSource {
    pub open spec fn key(self) -> Seq<char> {
        match self {
            ReviewEvidenceSource::Entity => "ENTITY"@,
            ReviewEvidenceSource::Fact => "FACT"@,
            ReviewEvidenceSource::WorldState => "WORLD_STATE"@,
            ReviewEvidenceSource::Relation => "RELATION"@,
            ReviewEvidenceSource::Belief => "BELIEF"@,
            ReviewEvidenceSource::Event => "EVENT"@,
            ReviewEvidenceSource::Foreshadowing => "FORESHADOWING"@,
            ReviewEvidenceSource::LockedRule => "LOCKED_RULE"@,
            ReviewEvidenceSource::ChapterContract => "CHAPTER_CONTRACT"@,
        }
    }

    pub fn as_str(self) -> (r: &'static str)
        ensures
            r@ == self.key(),
    {
        match self {
            ReviewEvidenceSource::Entity => "ENTITY",
            ReviewEvidenceSource::Fact => "FACT",
            ReviewEvidenceSource::WorldState => "WORLD_STATE",
            ReviewEvidenceSource::Relation => "RELATION",
            ReviewEvidenceSource::Belief => "BELIEF",
            ReviewEvidenceSource::Event => "EVENT",
            ReviewEvidenceSource::Foreshadowing => "FORESHADOWING",
            ReviewEvidenceSource::LockedRule => "LOCKED_RULE",
            ReviewEvidenceSource::ChapterContract => "CHAPTER_CONTRACT",
        }
    }
}

#[derive(Debug, Clone, PartialEq, Eq)]
pub struct ReviewClaim {
    pub id: RecordId,
    pub claim_type: ReviewClaimType,
    pub subject: String,
    pub predicate: String,
    pub object: String,
    pub quote: String,
    pub block_id: String,
    pub start_offset: u32,
    pub end_offset: u32,
    pub importance: u8,
    pub confidence: u8,
}

#[derive(Debug, Clone, PartialEq, Eq)]
pub struct ReviewEvidence {
    pub id: RecordId,
    pub claim_id: RecordId,
    pub source_kind: ReviewEvidenceSource,
    pub source_record_id: RecordId,
    pub authority: EvidenceAuthority,
    pub excerpt: String,
    pub source_revision: String,
    pub relevance: u16,
}

#[derive(Debug, Clone, PartialEq, Eq)]
pub struct ReviewFinding {
    pub id: RecordId,
    pub claim_id: RecordId,
    pub status: ReviewStatus,
    pub severity: String,
    pub source_kind: FindingSource,
    pub rule_id: Option<String>,
    pub rule_version: Option<String>,
    pub rule_scope: Option<String>,
    pub rule_effective_at: Option<String>,
    pub priority: u8,
    pub problem: String,
    pub evidence_ids: Vec<RecordId>,
    pub suggestion: String,
    pub confidence: u8,
}

fn copy_text(s: &Option<String>) -> (r: Option<String>)
    ensures
        r == *s,
{
    match s {
        Some(v) => Some(v.clone()),
        None => None,
    }
}

fn copy_ids(v: &Vec<RecordId>) -> (r: Vec<RecordId>)
    ensures
        r@ == v@,
{
    let mut r: Vec<RecordId> = Vec::new();
    let mut i: usize = 0;
    while i < v.len()
        invariant
            i <= v.len(),
            r@ == v@.subrange(0, i as int),
        decreases v.len() - i,
    {
        r.push(v[i]);
        i = i + 1;
        assert(r@ =~= v@.subrange(0, i as int));
    }
    assert(v@.subrange(0, v.len() as int) =~= v@);
    r
}

impl ReviewFinding {
    /// An equal copy of the finding.
    pub fn duplicate(&self) -> (r: Self)
        ensures
            r.id == self.id && r.claim_id == self.claim_id && r.status == self.status
                && r.severity == self.severity && r.source_kind == self.source_kind
                && r.rule_id == self.rule_id && r.rule_version == self.rule_version
                && r.rule_scope == self.rule_scope && r.rule_effective_at
                == self.rule_effective_at && r.priority == self.priority && r.problem
                == self.problem && r.evidence_ids@ == self.evidence_ids@ && r.suggestion
                == self.suggestion && r.confidence == self.confidence,
    {
        ReviewFinding {
            id: self.id,
            claim_id: self.claim_id,
            status: self.status,
            severity: self.severity.clone(),
            source_kind: self.source_kind,
            rule_id: copy_text(&self.rule_id),
            rule_version: copy_text(&self.rule_version),
            rule_scope: copy_text(&self.rule_scope),
            rule_effective_at: copy_text(&self.rule_effective_at),
            priority: self.priority,
            problem: self.problem.clone(),
            evidence_ids: copy_ids(&self.evidence_ids),
            suggestion: self.suggestion.clone(),
            confidence: self.confidence,
        }
    }
}

/// Two findings agree field by field.
pub open spec fn same_finding(a: ReviewFinding, b: ReviewFinding) -> bool {
    a.id == b.id && a.claim_id == b.claim_id && a.status == b.status && a.severity == b.severity
        && a.source_kind == b.source_kind && a.rule_id == b.rule_id && a.rule_version
        == b.rule_version && a.rule_scope == b.rule_scope && a.rule_effective_at
        == b.rule_effective_at && a.priority == b.priority && a.problem == b.problem
        && a.evidence_ids@ == b.evidence_ids@ && a.suggestion == b.suggestion && a.confidence
        == b.confidence
}

#[derive(Debug, Clone, PartialEq, Eq)]
pub struct ReviewOmittedItem {
    pub item_type: String,
    pub label: String,
    pub reason: String,
    pub claim_id: Option<RecordId>,
}

#[derive(Debug, Clone, Copy, PartialEq, Eq, Structural)]
pub enum ReviewStage {
    ClaimExtraction,
    DeterministicRules,
    SemanticReview,
    Merge,
}

#[derive(Debug, Clone, PartialEq, Eq)]
pub struct ReviewStageRequest {
    pub stage: ReviewStage,
    pub profile_id: Option<RecordId>,
    pub model_id: Option<String>,
    pub request_context_version: String,
    pub request_snapshot: Option<String>,
    pub response_preview: Option<String>,
    pub parse_result: String,
    pub fallback_reason: Option<String>,
}

#[derive(Debug, Clone, PartialEq, Eq)]
pub struct ReviewTrace {
    pub run_id: RecordId,
    pub review_purpose: ReviewPurpose,
    pub chapter_id: RecordId,
    pub target_revision_id: Option<RecordId>,
    pub context_version: String,
    pub claims: Vec<ReviewClaim>,
    pub evidence: Vec<ReviewEvidence>,
    pub deterministic_findings: Vec<ReviewFinding>,
    pub model_findings: Vec<ReviewFinding>,
    pub omitted_items: Vec<ReviewOmittedItem>,
    pub stage_requests: Vec<ReviewStageRequest>,
}

#[derive(Debug, Clone, PartialEq, Eq)]
pub struct ChapterContract {
    pub chapter_id: RecordId,
    pub source_section_id: String,
    pub source_revision: String,
    pub confirmed: bool,
    pub required_events: Vec<String>,
    pub forbidden_events: Vec<String>,
    pub allowed_characters: Vec<String>,
    pub time_windows: Vec<String>,
    pub stage_boundaries: Vec<String>,
}

impl ChapterContract {
    /// The contract lists no event, character, time window or stage boundary.
    pub fn is_empty(&self) -> (r: bool)
        ensures
            r == (self.required_events@.len() == 0 && self.forbidden_events@.len() == 0
                && self.allowed_characters@.len() == 0 && self.time_windows@.len() == 0
                && self.stage_boundaries@.len() == 0),
    {
        self.required_events.len() == 0 && self.forbidden_events.len() == 0
            && self.allowed_characters.len() == 0 && self.time_windows.len() == 0
            && self.stage_boundaries.len() == 0
    }
}

impl ReviewTrace {
    /// The deterministic findings followed by the model findings.
    pub fn all_findings(&self) -> (r: Vec<ReviewFinding>)
        ensures
            r@.len() == self.deterministic_findings@.len() + self.model_findings@.len(),
            forall|i: int|
                0 <= i < self.deterministic_findings@.len() ==> same_finding(
                    #[trigger] r@[i],
                    self.deterministic_findings@[i],
                ),
            forall|i: int|
                0 <= i < self.model_findings@.len() ==> same_finding(
                    #[trigger] r@[self.deterministic_findings@.len() + i],
                    self.model_findings@[i],
                ),
    {
        let mut r: Vec<ReviewFinding> = Vec::new();
        let d = &self.deterministic_findings;
        let m = &self.model_findings;
        let mut i: usize = 0;
        while i < d.len()
            invariant
                i <= d.len(),
                r@.len() == i,
                forall|k: int| 0 <= k < i ==> same_finding(#[trigger] r@[k], d@[k]),
            decreases d.len() - i,
        {
            r.push(d[i].duplicate());
            i = i + 1;
        }
        let mut j: usize = 0;
        while j < m.len()
            invariant
                j <= m.len(),
                r@.len() == d@.len() + j,
                forall|k: int| 0 <= k < d@.len() ==> same_finding(#[trigger] r@[k], d@[k]),
                forall|k: int| 0 <= k < j ==> same_finding(#[trigger] r@[d@.len() + k], m@[k]),
            decreases m.len() - j,
        {
            r.push(m[j].duplicate());
            proof {
                assert(same_finding(r@[d@.len() + j as int], m@[j as int]));
            }
            j = j + 1;
        }
        r
    }
}

} // verus!
