//! Contexts for the two review stages: claim extraction sees only the review
//! target and the locked rules; semantic review sees only one batch of claims
//! and the evidence resolved for them.
use vstd::prelude::*;
use crate::application::assembly::{
    contract_text, contract_view, format_task_contract, quarter_up, sat16, sat32, strings_view,
    AiTaskContract, ContextEvidenceRef, ContextPackage, ContractView,
};
use crate::application::context::{AiTaskRole, ContextSectionAudit, ContextSectionKind};
use crate::application::version::{id_json, joined, name_json, opt_id_json, q};
use crate::domain::{AiAction, ReviewPurpose};
use crate::ids::{uuid_hyphenated, RecordId};
use crate::json::{json_quote, json_quoted, sha256_hex, sha256_hex_of};
use crate::review_model::{EvidenceAuthority, ReviewClaim, ReviewEvidence};
use crate::text::{chars_of, decimal, extend_chars, extend_str, is_blank, push_decimal, string_of, trim, trim_chars};

verus! {

pub const REVIEW_CLAIM_EXTRACTION_PROMPT_VERSION: &'static str = "r6.0-review-claim-extraction-v1";

pub const REVIEW_SEMANTIC_PROMPT_VERSION: &'static str = "r6.0-review-semantic-v1";

/// One block of the review target.
#[derive(Debug, Clone, PartialEq, Eq)]
pub struct ReviewSourceBlock {
    pub block_id: String,
    pub text: String,
}

/// The review target of the claim-extraction stage.
#[derive(Debug, Clone, PartialEq, Eq)]
pub struct ReviewClaimExtractionInput {
    pub review_purpose: ReviewPurpose,
    pub chapter_id: RecordId,
    pub target_revision_id: Option<RecordId>,
    pub chapter_title: String,
    pub blocks: Vec<ReviewSourceBlock>,
    pub locked_rules: String,
    pub input_token_budget: u32,
}

/// One batch of claims and their evidence for the semantic stage.
#[derive(Debug, Clone, PartialEq, Eq)]
pub struct ReviewSemanticInput {
    pub review_purpose: ReviewPurpose,
    pub chapter_id: RecordId,
    pub target_revision_id: Option<RecordId>,
    pub claims: Vec<ReviewClaim>,
    pub evidence: Vec<ReviewEvidence>,
    pub input_token_budget: u32,
}

/// Why a review context could not be built.
#[derive(Debug, Clone, PartialEq, Eq)]
pub enum ReviewContextError {
    Serialization(String),
}

impl ReviewContextError {
    /// The error's message.
    pub fn message(&self) -> (r: String)
        ensures
            match self {
                ReviewContextError::Serialization(m) => r@ == "review context serialization failed: "@ + m@,
            },
    {
        match self {
            ReviewContextError::Serialization(m) => {
                let mut out = chars_of("review context serialization failed: ");
                extend_str(&mut out, m.as_str());
                string_of(&out)
            },
        }
    }
}

/// Builds the contexts of the review stages.
pub struct ReviewScopeBuilder;

/// The name of what is reviewed.
pub open spec fn purpose_label(p: ReviewPurpose) -> Seq<char> {
    match p {
        ReviewPurpose::Admission => "创作准入"@,
        ReviewPurpose::Manuscript => "正文审核"@,
    }
}

/// What the extractor may take as claims.
pub open spec fn purpose_scope(p: ReviewPurpose) -> Seq<char> {
    match p {
        ReviewPurpose::Admission => "只提取执行卡和阶段约束中的准入声明。"@,
        ReviewPurpose::Manuscript => "只提取正文明确写出的事实声明。"@,
    }
}

pub fn purpose_labels(purpose: ReviewPurpose) -> (r: (&'static str, &'static str))
    ensures
        r.0@ == purpose_label(purpose),
        r.1@ == purpose_scope(purpose),
{
    match purpose {
        ReviewPurpose::Admission => ("创作准入", "只提取执行卡和阶段约束中的准入声明。"),
        ReviewPurpose::Manuscript => ("正文审核", "只提取正文明确写出的事实声明。"),
    }
}

/// The claim types a purpose may extract, `|`-separated.
pub open spec fn claim_types(p: ReviewPurpose) -> Seq<char> {
    match p {
        ReviewPurpose::Admission => "REQUIRED_EVENT|FORBIDDEN_EVENT|ALLOWED_CHARACTER|TIME_WINDOW|STAGE_BOUNDARY|FORESHADOWING_WINDOW|PLAN_DEPENDENCY"@,
        ReviewPurpose::Manuscript => "CHARACTER_STATUS|CHARACTER_LOCATION|ABILITY_OR_REALM|ITEM_POSSESSION|RELATION|KNOWLEDGE_BOUNDARY"@,
    }
}

/// The output contract of claim extraction.
pub open spec fn claim_output(p: ReviewPurpose) -> Seq<char> {
    "严格 JSON 对象：{\"claims\":[{\"type\":\""@ + claim_types(p)
        + "\",\"subject\":\"\",\"predicate\":\"\",\"object\":\"\",\"quote\":\"\",\"blockId\":\"\",\"importance\":1,\"confidence\":0}]}。importance 为 1-5，confidence 为 0-100。不要 Markdown，不要解释。"@
}

pub fn claim_extraction_output_contract(purpose: ReviewPurpose) -> (r: String)
    ensures
        r@ == claim_output(purpose),
{
    let types = match purpose {
        ReviewPurpose::Admission => "REQUIRED_EVENT|FORBIDDEN_EVENT|ALLOWED_CHARACTER|TIME_WINDOW|STAGE_BOUNDARY|FORESHADOWING_WINDOW|PLAN_DEPENDENCY",
        ReviewPurpose::Manuscript => "CHARACTER_STATUS|CHARACTER_LOCATION|ABILITY_OR_REALM|ITEM_POSSESSION|RELATION|KNOWLEDGE_BOUNDARY",
    };
    let mut out = chars_of("严格 JSON 对象：{\"claims\":[{\"type\":\"");
    extend_str(&mut out, types);
    extend_str(
        &mut out,
        "\",\"subject\":\"\",\"predicate\":\"\",\"object\":\"\",\"quote\":\"\",\"blockId\":\"\",\"importance\":1,\"confidence\":0}]}。importance 为 1-5，confidence 为 0-100。不要 Markdown，不要解释。",
    );
    string_of(&out)
}

/// The output contract of semantic review.
pub open spec fn semantic_output() -> Seq<char> {
    "严格 JSON 对象：{\"summary\":\"\",\"findings\":[{\"claimId\":\"UUID\",\"status\":\"PASS|NOTICE|WARNING|BLOCK|UNKNOWN\",\"severity\":\"BLOCKER|MAJOR|MINOR|INFO\",\"problem\":\"\",\"evidenceIds\":[\"UUID\"],\"suggestion\":\"\",\"confidence\":0}],\"omitted\":[{\"label\":\"\",\"reason\":\"\"}]}。不要 Markdown，不要解释。"@
}

pub fn semantic_review_output_contract() -> (r: String)
    ensures
        r@ == semantic_output(),
{
    String::from_str(
        "严格 JSON 对象：{\"summary\":\"\",\"findings\":[{\"claimId\":\"UUID\",\"status\":\"PASS|NOTICE|WARNING|BLOCK|UNKNOWN\",\"severity\":\"BLOCKER|MAJOR|MINOR|INFO\",\"problem\":\"\",\"evidenceIds\":[\"UUID\"],\"suggestion\":\"\",\"confidence\":0}],\"omitted\":[{\"label\":\"\",\"reason\":\"\"}]}。不要 Markdown，不要解释。",
    )
}

// ---- JSON of the review material ----

/// A source block as JSON (`block_id`, `text`).
pub open spec fn block_json(b: ReviewSourceBlock) -> Seq<char> {
    "{\"block_id\":"@ + q(b.block_id@) + ",\"text\":"@ + q(b.text@) + "}"@
}

/// The source blocks as a JSON array.
pub open spec fn blocks_json(blocks: Seq<ReviewSourceBlock>) -> Seq<char> {
    "["@ + joined(blocks.map_values(|b: ReviewSourceBlock| block_json(b))) + "]"@
}

fn push_q(out: &mut Vec<char>, s: &str)
    ensures
        final(out)@ == old(out)@ + q(s@),
{
    let t = json_quote(s);
    extend_str(out, t.as_str());
}

fn push_id(out: &mut Vec<char>, id: RecordId)
    ensures
        final(out)@ == old(out)@ + id_json(id),
{
    let t = id.to_text();
    push_q(out, t.as_str());
}

fn blocks_json_of(blocks: &Vec<ReviewSourceBlock>) -> (r: Vec<char>)
    ensures
        r@ == blocks_json(blocks@),
{
    let ghost parts = blocks@.map_values(|b: ReviewSourceBlock| block_json(b));
    let mut out = chars_of("[");
    let mut i: usize = 0;
    while i < blocks.len()
        invariant
            i <= blocks.len(),
            parts == blocks@.map_values(|b: ReviewSourceBlock| block_json(b)),
            out@ == "["@ + joined(parts.take(i as int)),
        decreases blocks.len() - i,
    {
        assert(parts.take(i + 1).drop_last() =~= parts.take(i as int));
        let ghost before = out@;
        if i > 0 {
            extend_str(&mut out, ",");
        }
        extend_str(&mut out, "{\"block_id\":");
        push_q(&mut out, blocks[i].block_id.as_str());
        extend_str(&mut out, ",\"text\":");
        push_q(&mut out, blocks[i].text.as_str());
        extend_str(&mut out, "}");
        i = i + 1;
        assert(out@ =~= "["@ + joined(parts.take(i as int)));
    }
    extend_str(&mut out, "]");
    assert(parts.take(blocks.len() as int) =~= parts);
    out
}

/// The SCREAMING_SNAKE_CASE name of an evidence authority.
pub open spec fn evidence_authority_key(a: EvidenceAuthority) -> Seq<char> {
    match a {
        EvidenceAuthority::LockedRule => "LOCKED_RULE"@,
        EvidenceAuthority::ConfirmedFact => "CONFIRMED_FACT"@,
        EvidenceAuthority::CurrentState => "CURRENT_STATE"@,
        EvidenceAuthority::ChapterContract => "CHAPTER_CONTRACT"@,
        EvidenceAuthority::ApprovedEvent => "APPROVED_EVENT"@,
        EvidenceAuthority::PlanReference => "PLAN_REFERENCE"@,
        EvidenceAuthority::SummaryReference => "SUMMARY_REFERENCE"@,
        EvidenceAuthority::Unconfirmed => "UNCONFIRMED"@,
    }
}

fn evidence_authority_name(a: EvidenceAuthority) -> (r: &'static str)
    ensures
        r@ == evidence_authority_key(a),
{
    match a {
        EvidenceAuthority::LockedRule => "LOCKED_RULE",
        EvidenceAuthority::ConfirmedFact => "CONFIRMED_FACT",
        EvidenceAuthority::CurrentState => "CURRENT_STATE",
        EvidenceAuthority::ChapterContract => "CHAPTER_CONTRACT",
        EvidenceAuthority::ApprovedEvent => "APPROVED_EVENT",
        EvidenceAuthority::PlanReference => "PLAN_REFERENCE",
        EvidenceAuthority::SummaryReference => "SUMMARY_REFERENCE",
        EvidenceAuthority::Unconfirmed => "UNCONFIRMED",
    }
}

/// The first fields of a claim as JSON.
pub open spec fn claim_head(c: ReviewClaim) -> Seq<char> {
    "{\"id\":"@ + id_json(c.id) + ",\"claimType\":"@ + name_json(c.claim_type.key()) + ",\"subject\":"@
        + q(c.subject@) + ",\"predicate\":"@ + q(c.predicate@) + ",\"object\":"@ + q(c.object@)
        + ",\"quote\":"@ + q(c.quote@)
}

/// The remaining fields of a claim as JSON.
pub open spec fn claim_tail(c: ReviewClaim) -> Seq<char> {
    ",\"blockId\":"@ + q(c.block_id@) + ",\"startOffset\":"@ + decimal(c.start_offset as nat)
        + ",\"endOffset\":"@ + decimal(c.end_offset as nat) + ",\"importance\":"@ + decimal(
        c.importance as nat,
    ) + ",\"confidence\":"@ + decimal(c.confidence as nat) + "}"@
}

/// A claim as JSON, fields in declaration order.
pub open spec fn claim_json(c: ReviewClaim) -> Seq<char> {
    claim_head(c) + claim_tail(c)
}

/// The claims as a JSON array.
pub open spec fn claims_json(claims: Seq<ReviewClaim>) -> Seq<char> {
    "["@ + joined(claims.map_values(|c: ReviewClaim| claim_json(c))) + "]"@
}

fn push_name(out: &mut Vec<char>, s: &str)
    ensures
        final(out)@ == old(out)@ + name_json(s@),
{
    extend_str(out, "\"");
    extend_str(out, s);
    extend_str(out, "\"");
}

fn push_claim_head(out: &mut Vec<char>, c: &ReviewClaim)
    ensures
        final(out)@ == old(out)@ + claim_head(*c),
{
    let ghost start = out@;
    extend_str(out, "{\"id\":");
    push_id(out, c.id);
    extend_str(out, ",\"claimType\":");
    push_name(out, c.claim_type.as_str());
    extend_str(out, ",\"subject\":");
    push_q(out, c.subject.as_str());
    extend_str(out, ",\"predicate\":");
    push_q(out, c.predicate.as_str());
    extend_str(out, ",\"object\":");
    push_q(out, c.object.as_str());
    extend_str(out, ",\"quote\":");
    push_q(out, c.quote.as_str());
    assert(out@ =~= start + claim_head(*c));
}

fn push_claim_tail(out: &mut Vec<char>, c: &ReviewClaim)
    ensures
        final(out)@ == old(out)@ + claim_tail(*c),
{
    let ghost start = out@;
    extend_str(out, ",\"blockId\":");
    push_q(out, c.block_id.as_str());
    extend_str(out, ",\"startOffset\":");
    push_decimal(out, c.start_offset as u128);
    extend_str(out, ",\"endOffset\":");
    push_decimal(out, c.end_offset as u128);
    extend_str(out, ",\"importance\":");
    push_decimal(out, c.importance as u128);
    extend_str(out, ",\"confidence\":");
    push_decimal(out, c.confidence as u128);
    extend_str(out, "}");
    assert(out@ =~= start + claim_tail(*c));
}

fn push_claim(out: &mut Vec<char>, c: &ReviewClaim)
    ensures
        final(out)@ == old(out)@ + claim_json(*c),
{
    let ghost start = out@;
    push_claim_head(out, c);
    push_claim_tail(out, c);
    assert(out@ =~= start + claim_json(*c));
}

fn claims_json_of(claims: &Vec<ReviewClaim>) -> (r: Vec<char>)
    ensures
        r@ == claims_json(claims@),
{
    let ghost parts = claims@.map_values(|c: ReviewClaim| claim_json(c));
    let mut out = chars_of("[");
    let mut i: usize = 0;
    while i < claims.len()
        invariant
            i <= claims.len(),
            parts == claims@.map_values(|c: ReviewClaim| claim_json(c)),
            out@ == "["@ + joined(parts.take(i as int)),
        decreases claims.len() - i,
    {
        assert(parts.take(i + 1).drop_last() =~= parts.take(i as int));
        if i > 0 {
            extend_str(&mut out, ",");
        }
        push_claim(&mut out, &claims[i]);
        i = i + 1;
    }
    extend_str(&mut out, "]");
    assert(parts.take(claims.len() as int) =~= parts);
    out
}

/// An evidence item as JSON, fields in declaration order.
pub open spec fn review_evidence_json(e: ReviewEvidence) -> Seq<char> {
    "{\"id\":"@ + id_json(e.id) + ",\"claimId\":"@ + id_json(e.claim_id) + ",\"sourceKind\":"@ + name_json(
        e.source_kind.key(),
    ) + ",\"sourceRecordId\":"@ + id_json(e.source_record_id) + ",\"authority\":"@ + name_json(
        evidence_authority_key(e.authority),
    ) + ",\"excerpt\":"@ + q(e.excerpt@) + ",\"sourceRevision\":"@ + q(e.source_revision@)
        + ",\"relevance\":"@ + decimal(e.relevance as nat) + "}"@
}

/// The evidence as a JSON array.
pub open spec fn evidence_list(items: Seq<ReviewEvidence>) -> Seq<char> {
    "["@ + joined(items.map_values(|e: ReviewEvidence| review_evidence_json(e))) + "]"@
}

fn push_review_evidence(out: &mut Vec<char>, e: &ReviewEvidence)
    ensures
        final(out)@ == old(out)@ + review_evidence_json(*e),
{
    let ghost start = out@;
    extend_str(out, "{\"id\":");
    push_id(out, e.id);
    extend_str(out, ",\"claimId\":");
    push_id(out, e.claim_id);
    extend_str(out, ",\"sourceKind\":");
    push_name(out, e.source_kind.as_str());
    extend_str(out, ",\"sourceRecordId\":");
    push_id(out, e.source_record_id);
    extend_str(out, ",\"authority\":");
    push_name(out, evidence_authority_name(e.authority));
    extend_str(out, ",\"excerpt\":");
    push_q(out, e.excerpt.as_str());
    extend_str(out, ",\"sourceRevision\":");
    push_q(out, e.source_revision.as_str());
    extend_str(out, ",\"relevance\":");
    push_decimal(out, e.relevance as u128);
    extend_str(out, "}");
    assert(out@ =~= start + review_evidence_json(*e));
}

fn evidence_json_of(items: &Vec<ReviewEvidence>) -> (r: Vec<char>)
    ensures
        r@ == evidence_list(items@),
{
    let ghost parts = items@.map_values(|e: ReviewEvidence| review_evidence_json(e));
    let mut out = chars_of("[");
    let mut i: usize = 0;
    while i < items.len()
        invariant
            i <= items.len(),
            parts == items@.map_values(|e: ReviewEvidence| review_evidence_json(e)),
            out@ == "["@ + joined(parts.take(i as int)),
        decreases items.len() - i,
    {
        assert(parts.take(i + 1).drop_last() =~= parts.take(i as int));
        if i > 0 {
            extend_str(&mut out, ",");
        }
        push_review_evidence(&mut out, &items[i]);
        i = i + 1;
    }
    extend_str(&mut out, "]");
    assert(parts.take(items.len() as int) =~= parts);
    out
}

/// The identity of a review context as JSON, fields in declaration order.
pub open spec fn identity_json(
    chapter_id: RecordId,
    target_revision_id: Option<RecordId>,
    purpose: ReviewPurpose,
    prompt_version: Seq<char>,
    system: Seq<char>,
    user: Seq<char>,
) -> Seq<char> {
    "{\"chapterId\":"@ + id_json(chapter_id) + ",\"targetRevisionId\":"@ + opt_id_json(target_revision_id)
        + ",\"reviewPurpose\":"@ + name_json(purpose.key()) + ",\"promptVersion\":"@ + q(prompt_version)
        + ",\"systemPrompt\":"@ + q(system) + ",\"userPrompt\":"@ + q(user) + "}"@
}

fn identity_json_of(
    chapter_id: RecordId,
    target_revision_id: Option<RecordId>,
    purpose: ReviewPurpose,
    prompt_version: &str,
    system: &str,
    user: &str,
) -> (r: Vec<char>)
    ensures
        r@ == identity_json(chapter_id, target_revision_id, purpose, prompt_version@, system@, user@),
{
    let mut out = chars_of("{\"chapterId\":");
    push_id(&mut out, chapter_id);
    extend_str(&mut out, ",\"targetRevisionId\":");
    match target_revision_id {
        Some(id) => push_id(&mut out, id),
        None => extend_str(&mut out, "null"),
    }
    extend_str(&mut out, ",\"reviewPurpose\":");
    push_name(&mut out, purpose.storage_key());
    extend_str(&mut out, ",\"promptVersion\":");
    push_q(&mut out, prompt_version);
    extend_str(&mut out, ",\"systemPrompt\":");
    push_q(&mut out, system);
    extend_str(&mut out, ",\"userPrompt\":");
    push_q(&mut out, user);
    extend_str(&mut out, "}");
    assert(out@ =~= identity_json(chapter_id, target_revision_id, purpose, prompt_version@, system@, user@));
    out
}

// ---- the packages ----

/// A review package: a consistency check versioned by the digest of its
/// identity, its token estimate capped by the budget, with no retrieval.
pub open spec fn review_package(
    p: ContextPackage,
    chapter_id: RecordId,
    target_revision_id: Option<RecordId>,
    purpose: ReviewPurpose,
    budget: u32,
    prompt_version: Seq<char>,
    system: Seq<char>,
    user: Seq<char>,
    contract: ContractView,
    audit: Seq<ContextSectionAudit>,
) -> bool {
    let estimate = quarter_up((system.len() + user.len()) as int);
    &&& p.chapter_id == chapter_id
    &&& p.target_revision_id == target_revision_id
    &&& p.action == AiAction::ConsistencyCheck
    &&& p.context_version@ == sha256_hex_of(
        identity_json(chapter_id, target_revision_id, purpose, prompt_version, system, user),
    )
    &&& p.prompt_version@ == prompt_version
    &&& p.system_prompt@ == system
    &&& p.user_prompt@ == user
    &&& p.estimated_input_tokens == if estimate < budget {
        estimate
    } else {
        budget
    }
    &&& !p.truncated
    &&& p.entity_source_status@ == "NOT_USED"@
    &&& p.retrieval_evidence.len() == 0
    &&& contract_view(p.task_contract) == contract
    &&& p.section_audit@ == audit
}

fn build_review_context(
    chapter_id: RecordId,
    target_revision_id: Option<RecordId>,
    review_purpose: ReviewPurpose,
    input_token_budget: u32,
    prompt_version: &str,
    system_prompt: Vec<char>,
    user_prompt: Vec<char>,
    task_contract: AiTaskContract,
    section_audit: Vec<ContextSectionAudit>,
) -> (p: ContextPackage)
    ensures
        review_package(
            p,
            chapter_id,
            target_revision_id,
            review_purpose,
            input_token_budget,
            prompt_version@,
            system_prompt@,
            user_prompt@,
            contract_view(task_contract),
            section_audit@,
        ),
{
    let system = string_of(&system_prompt);
    let user = string_of(&user_prompt);
    let identity = identity_json_of(
        chapter_id,
        target_revision_id,
        review_purpose,
        prompt_version,
        system.as_str(),
        user.as_str(),
    );
    let context_version = sha256_hex(string_of(&identity).as_str());
    let total: u128 = system_prompt.len() as u128 + user_prompt.len() as u128;
    let quarter = (total + 3) / 4;
    let estimate: u32 = if quarter > 0xffff_ffff {
        0xffff_ffff
    } else {
        quarter as u32
    };
    let estimated_input_tokens = if estimate < input_token_budget {
        estimate
    } else {
        input_token_budget
    };
    ContextPackage {
        chapter_id,
        target_revision_id,
        action: AiAction::ConsistencyCheck,
        context_version,
        prompt_version: String::from_str(prompt_version),
        system_prompt: system,
        user_prompt: user,
        estimated_input_tokens,
        truncated: false,
        entity_source_status: String::from_str("NOT_USED"),
        retrieval_evidence: Vec::new(),
        task_contract,
        section_audit,
    }
}

/// The task contract of claim extraction.
pub open spec fn claim_contract(input: ReviewClaimExtractionInput) -> ContractView {
    (
        AiTaskRole::ReviewClaimExtractor,
        "从"@ + purpose_label(input.review_purpose) + "中提取可逐字定位的待核对事实声明，不判断冲突。"@,
        "REVIEW_TARGET"@,
        input.chapter_id,
        input.target_revision_id,
        seq!["只读取本次审核目标和作者锁定规则。"@],
        seq!["不得判断声明是否冲突。"@, "不得补写审核目标中不存在的事实。"@, "不得读取或引用未提供的作品资料。"@],
        seq![
            "每条声明的 quote 必须逐字来自对应 blockId 的原文。"@,
            "无法逐字定位的内容不得输出。"@,
            "只输出固定 JSON 对象。"@,
        ],
        "正文没有明确表达的事实不得作为声明提取。"@,
        claim_output(input.review_purpose),
    )
}

/// The locked rules as prompt text: trimmed, or `无` when blank.
pub open spec fn rules_text(rules: Seq<char>) -> Seq<char> {
    if trim(rules).len() == 0 {
        "无"@
    } else {
        trim(rules)
    }
}

/// The claim-extraction system prompt.
pub open spec fn claim_system(p: ReviewPurpose) -> Seq<char> {
    "你是小说"@ + purpose_label(p)
        + "声明提取器。你只回答“目标文本作出了哪些值得核对的事实声明”，不进行一致性判断，不扩写、不推断隐含设定。"@
        + purpose_scope(p)
}

/// The claim-extraction user prompt: the contract, the locked rules and the
/// target blocks as JSON.
pub open spec fn claim_user(input: ReviewClaimExtractionInput) -> Seq<char> {
    contract_text(claim_contract(input), trim(input.chapter_title@)) + "\n\n[作者锁定规则]\n"@
        + rules_text(input.locked_rules@) + "\n\n[审核目标块 JSON]\n"@ + blocks_json(input.blocks@)
}

/// The task contract of semantic review.
pub open spec fn semantic_contract(input: ReviewSemanticInput) -> ContractView {
    (
        AiTaskRole::ReviewSemanticAdjudicator,
        "逐条复核"@ + purpose_label(input.review_purpose) + "声明与对应正式证据之间的语义冲突。"@,
        "REVIEW_BATCH"@,
        input.chapter_id,
        input.target_revision_id,
        seq!["只读取本批声明及其证据。"@],
        seq![
            "不得引用本批证据之外的资料。"@,
            "不得把没有证据支持的判断标记为阻断或警告。"@,
            "不得修改正文或正式知识。"@,
        ],
        seq![
            "每条 finding 必须引用 claimId 和实际存在的 evidenceIds。"@,
            "没有正式证据时返回 UNKNOWN，不得返回 BLOCK。"@,
            "只输出固定 JSON 对象。"@,
        ],
        "证据不足、证据与声明缺乏直接语义关系或无法形成互斥结论时返回 UNKNOWN。"@,
        semantic_output(),
    )
}

/// The semantic-review system prompt.
pub open spec fn semantic_system(p: ReviewPurpose) -> Seq<char> {
    "你是小说"@ + purpose_label(p) + "语义复核器。你只依据本批声明和证据工作，不得重新注入全作品上下文，也不得作出最终写入决定。"@
}

/// The semantic-review user prompt: the contract, the claims and the
/// evidence as JSON.
pub open spec fn semantic_user(input: ReviewSemanticInput) -> Seq<char> {
    contract_text(semantic_contract(input), "声明证据复核"@) + "\n\n[声明 JSON]\n"@ + claims_json(input.claims@)
        + "\n\n[证据 JSON]\n"@ + evidence_list(input.evidence@)
}

fn strings(items: Vec<&'static str>) -> (r: Vec<String>)
    ensures
        strings_view(r@) == items@.map_values(|s: &str| s@),
{
    let mut r: Vec<String> = Vec::new();
    let mut i: usize = 0;
    while i < items.len()
        invariant
            i <= items.len(),
            strings_view(r@) == items@.take(i as int).map_values(|s: &str| s@),
        decreases items.len() - i,
    {
        let t = String::from_str(items[i]);
        assert(t@ == items@[i as int]@);
        let ghost before = r@;
        r.push(t);
        assert(items@.take(i + 1) =~= items@.take(i as int).push(items@[i as int]));
        i = i + 1;
        assert(strings_view(r@) =~= strings_view(before).push(t@));
        assert(strings_view(r@) =~= items@.take(i as int).map_values(|s: &str| s@));
    }
    assert(items@.take(items.len() as int) =~= items@);
    r
}

impl ReviewScopeBuilder {
    /// Builds the first-stage context: only the review target and the locked
    /// rules, no project retrieval.
    pub fn claim_extraction(input: &ReviewClaimExtractionInput) -> (r: Result<ContextPackage, ReviewContextError>)
        ensures
            match r {
                Ok(p) => review_package(
                    p,
                    input.chapter_id,
                    input.target_revision_id,
                    input.review_purpose,
                    input.input_token_budget,
                    "r6.0-review-claim-extraction-v1"@,
                    claim_system(input.review_purpose),
                    claim_user(*input),
                    claim_contract(*input),
                    seq![
                        ContextSectionAudit {
                            kind: ContextSectionKind::References,
                            priority: 0,
                            source_count: sat16(input.blocks.len() as int),
                            included_chars: sat32(blocks_json(input.blocks@).len() as int),
                            truncated: false,
                        },
                    ],
                ),
                Err(_) => false,
            },
    {
        let (labels, scope) = purpose_labels(input.review_purpose);
        let blocks = blocks_json_of(&input.blocks);
        let mut goal = chars_of("从");
        extend_str(&mut goal, labels);
        extend_str(&mut goal, "中提取可逐字定位的待核对事实声明，不判断冲突。");
        let task_contract = AiTaskContract {
            role: AiTaskRole::ReviewClaimExtractor,
            goal: string_of(&goal),
            target_type: String::from_str("REVIEW_TARGET"),
            target_id: input.chapter_id,
            target_revision_id: input.target_revision_id,
            permissions: strings(vec!["只读取本次审核目标和作者锁定规则。"]),
            forbidden_actions: strings(
                vec!["不得判断声明是否冲突。", "不得补写审核目标中不存在的事实。", "不得读取或引用未提供的作品资料。"],
            ),
            acceptance_criteria: strings(
                vec!["每条声明的 quote 必须逐字来自对应 blockId 的原文。", "无法逐字定位的内容不得输出。", "只输出固定 JSON 对象。"],
            ),
            uncertainty_policy: String::from_str("正文没有明确表达的事实不得作为声明提取。"),
            output_contract: claim_extraction_output_contract(input.review_purpose),
        };
        assert(contract_view(task_contract) =~= claim_contract(*input));
        let mut system = chars_of("你是小说");
        extend_str(&mut system, labels);
        extend_str(&mut system, "声明提取器。你只回答“目标文本作出了哪些值得核对的事实声明”，不进行一致性判断，不扩写、不推断隐含设定。");
        extend_str(&mut system, scope);
        let title = crate::text::trim_str(input.chapter_title.as_str());
        let mut user = chars_of(format_task_contract(&task_contract, title.as_str()).as_str());
        extend_str(&mut user, "\n\n[作者锁定规则]\n");
        let rules = trim_chars(&chars_of(input.locked_rules.as_str()));
        if rules.len() == 0 {
            extend_str(&mut user, "无");
        } else {
            extend_chars(&mut user, &rules);
        }
        extend_str(&mut user, "\n\n[审核目标块 JSON]\n");
        extend_chars(&mut user, &blocks);
        assert(system@ =~= claim_system(input.review_purpose));
        assert(user@ =~= claim_user(*input));
        let count: u16 = if input.blocks.len() > 65535 {
            65535
        } else {
            input.blocks.len() as u16
        };
        let chars: u32 = if blocks.len() > 0xffff_ffff {
            0xffff_ffff
        } else {
            blocks.len() as u32
        };
        let audit = vec![
            ContextSectionAudit {
                kind: ContextSectionKind::References,
                priority: 0,
                source_count: count,
                included_chars: chars,
                truncated: false,
            },
        ];
        assert(count == sat16(input.blocks.len() as int));
        assert(chars == sat32(blocks_json(input.blocks@).len() as int));
        assert(audit@ =~= seq![
            ContextSectionAudit {
                kind: ContextSectionKind::References,
                priority: 0,
                source_count: sat16(input.blocks.len() as int),
                included_chars: sat32(blocks_json(input.blocks@).len() as int),
                truncated: false,
            },
        ]);
        Ok(
            build_review_context(
                input.chapter_id,
                input.target_revision_id,
                input.review_purpose,
                input.input_token_budget,
                REVIEW_CLAIM_EXTRACTION_PROMPT_VERSION,
                system,
                user,
                task_contract,
                audit,
            ),
        )
    }

    /// Builds the semantic-review context: one batch of claims and only the
    /// evidence resolved for them.
    pub fn semantic_review(input: &ReviewSemanticInput) -> (r: Result<ContextPackage, ReviewContextError>)
        ensures
            match r {
                Ok(p) => review_package(
                    p,
                    input.chapter_id,
                    input.target_revision_id,
                    input.review_purpose,
                    input.input_token_budget,
                    "r6.0-review-semantic-v1"@,
                    semantic_system(input.review_purpose),
                    semantic_user(*input),
                    semantic_contract(*input),
                    seq![
                        ContextSectionAudit {
                            kind: ContextSectionKind::AuthoritativeFacts,
                            priority: 0,
                            source_count: sat16(input.claims.len() as int),
                            included_chars: sat32(claims_json(input.claims@).len() as int),
                            truncated: false,
                        },
                        ContextSectionAudit {
                            kind: ContextSectionKind::References,
                            priority: 1,
                            source_count: sat16(input.evidence.len() as int),
                            included_chars: sat32(evidence_list(input.evidence@).len() as int),
                            truncated: false,
                        },
                    ],
                ),
                Err(_) => false,
            },
    {
        let (labels, _) = purpose_labels(input.review_purpose);
        let claims = claims_json_of(&input.claims);
        let evidence = evidence_json_of(&input.evidence);
        let mut goal = chars_of("逐条复核");
        extend_str(&mut goal, labels);
        extend_str(&mut goal, "声明与对应正式证据之间的语义冲突。");
        let task_contract = AiTaskContract {
            role: AiTaskRole::ReviewSemanticAdjudicator,
            goal: string_of(&goal),
            target_type: String::from_str("REVIEW_BATCH"),
            target_id: input.chapter_id,
            target_revision_id: input.target_revision_id,
            permissions: strings(vec!["只读取本批声明及其证据。"]),
            forbidden_actions: strings(
                vec!["不得引用本批证据之外的资料。", "不得把没有证据支持的判断标记为阻断或警告。", "不得修改正文或正式知识。"],
            ),
            acceptance_criteria: strings(
                vec![
                    "每条 finding 必须引用 claimId 和实际存在的 evidenceIds。",
                    "没有正式证据时返回 UNKNOWN，不得返回 BLOCK。",
                    "只输出固定 JSON 对象。",
                ],
            ),
            uncertainty_policy: String::from_str("证据不足、证据与声明缺乏直接语义关系或无法形成互斥结论时返回 UNKNOWN。"),
            output_contract: semantic_review_output_contract(),
        };
        assert(contract_view(task_contract) =~= semantic_contract(*input));
        let mut system = chars_of("你是小说");
        extend_str(&mut system, labels);
        extend_str(&mut system, "语义复核器。你只依据本批声明和证据工作，不得重新注入全作品上下文，也不得作出最终写入决定。");
        let mut user = chars_of(format_task_contract(&task_contract, "声明证据复核").as_str());
        extend_str(&mut user, "\n\n[声明 JSON]\n");
        extend_chars(&mut user, &claims);
        extend_str(&mut user, "\n\n[证据 JSON]\n");
        extend_chars(&mut user, &evidence);
        assert(system@ =~= semantic_system(input.review_purpose));
        assert(user@ =~= semantic_user(*input));
        let claim_count: u16 = if input.claims.len() > 65535 {
            65535
        } else {
            input.claims.len() as u16
        };
        let claim_chars: u32 = if claims.len() > 0xffff_ffff {
            0xffff_ffff
        } else {
            claims.len() as u32
        };
        let evidence_count: u16 = if input.evidence.len() > 65535 {
            65535
        } else {
            input.evidence.len() as u16
        };
        let evidence_chars: u32 = if evidence.len() > 0xffff_ffff {
            0xffff_ffff
        } else {
            evidence.len() as u32
        };
        let audit = vec![
            ContextSectionAudit {
                kind: ContextSectionKind::AuthoritativeFacts,
                priority: 0,
                source_count: claim_count,
                included_chars: claim_chars,
                truncated: false,
            },
            ContextSectionAudit {
                kind: ContextSectionKind::References,
                priority: 1,
                source_count: evidence_count,
                included_chars: evidence_chars,
                truncated: false,
            },
        ];
        Ok(
            build_review_context(
                input.chapter_id,
                input.target_revision_id,
                input.review_purpose,
                input.input_token_budget,
                REVIEW_SEMANTIC_PROMPT_VERSION,
                system,
                user,
                task_contract,
                audit,
            ),
        )
    }
}

} // verus!
