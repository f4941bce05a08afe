//! Context versions: the SHA-256 digest of a package's canonical JSON form.
//!
//! The canonical form is compact JSON with object keys in byte order,
//! identifiers as hyphenated UUID strings, enumerations by their
//! SCREAMING_SNAKE_CASE names and absent values as `null`; string values are
//! quoted by `serde_json`.
use vstd::prelude::*;
use crate::ai::parsing::{action_key, action_str};
use crate::application::assembly::{strings_view, AiTaskContract, ContextEvidenceRef, ContractView, contract_view};
use crate::application::context::{AiTaskRole, ContextSectionAudit, ContextSectionKind};
use crate::domain::{AiAction, ContextAuthority, RetrievalMethod};
use crate::ids::{uuid_hyphenated, RecordId};
use crate::json::{json_quote, json_quoted};
use crate::text::{decimal, extend_chars, extend_str, push_decimal};

verus! {

/// A text as a JSON string.
pub open spec fn q(s: Seq<char>) -> Seq<char> {
    json_quoted(s)
}

fn push_q(out: &mut Vec<char>, s: &str)
    ensures
        final(out)@ == old(out)@ + q(s@),
{
    let t = json_quote(s);
    extend_str(out, t.as_str());
}

/// An identifier as a JSON string.
pub open spec fn id_json(id: RecordId) -> Seq<char> {
    q(uuid_hyphenated(id.value))
}

fn push_id(out: &mut Vec<char>, id: RecordId)
    ensures
        final(out)@ == old(out)@ + id_json(id),
{
    let t = id.to_text();
    push_q(out, t.as_str());
}

/// An optional identifier as JSON.
pub open spec fn opt_id_json(id: Option<RecordId>) -> Seq<char> {
    match id {
        Some(i) => id_json(i),
        None => "null"@,
    }
}

fn push_opt_id(out: &mut Vec<char>, id: Option<RecordId>)
    ensures
        final(out)@ == old(out)@ + opt_id_json(id),
{
    match id {
        Some(i) => push_id(out, i),
        None => extend_str(out, "null"),
    }
}

/// A boolean as JSON.
pub open spec fn bool_json(b: bool) -> Seq<char> {
    if b {
        "true"@
    } else {
        "false"@
    }
}

/// A list of texts as a JSON array of strings.
pub open spec fn strings_json(items: Seq<Seq<char>>) -> Seq<char> {
    "["@ + joined(items.map_values(|s: Seq<char>| q(s))) + "]"@
}

/// Items separated by commas.
pub open spec fn joined(items: Seq<Seq<char>>) -> Seq<char>
    decreases items.len(),
{
    if items.len() == 0 {
        seq![]
    } else if items.len() == 1 {
        items[0]
    } else {
        joined(items.drop_last()) + ","@ + items.last()
    }
}

fn push_strings(out: &mut Vec<char>, items: &Vec<String>)
    ensures
        final(out)@ == old(out)@ + strings_json(strings_view(items@)),
{
    let ghost start = out@;
    let ghost parts = strings_view(items@).map_values(|s: Seq<char>| q(s));
    extend_str(out, "[");
    let mut i: usize = 0;
    while i < items.len()
        invariant
            i <= items.len(),
            parts == strings_view(items@).map_values(|s: Seq<char>| q(s)),
            out@ == start + "["@ + joined(parts.take(i as int)),
        decreases items.len() - i,
    {
        assert(parts.take(i + 1).drop_last() =~= parts.take(i as int));
        assert(parts.take(i + 1).last() == q(items@[i as int]@));
        if i > 0 {
            extend_str(out, ",");
        }
        push_q(out, items[i].as_str());
        i = i + 1;
    }
    extend_str(out, "]");
    assert(parts.take(items.len() as int) =~= parts);
}

/// The SCREAMING_SNAKE_CASE name of a role.
pub open spec fn role_json(r: AiTaskRole) -> Seq<char> {
    match r {
        AiTaskRole::DraftWriter => "DRAFT_WRITER"@,
        AiTaskRole::SelectionReviser => "SELECTION_REVISER"@,
        AiTaskRole::ChapterSummarizer => "CHAPTER_SUMMARIZER"@,
        AiTaskRole::ApiConnectionTester => "API_CONNECTION_TESTER"@,
        AiTaskRole::ReviewClaimExtractor => "REVIEW_CLAIM_EXTRACTOR"@,
        AiTaskRole::ReviewSemanticAdjudicator => "REVIEW_SEMANTIC_ADJUDICATOR"@,
    }
}

fn role_name_of(r: AiTaskRole) -> (s: &'static str)
    ensures
        s@ == role_json(r),
{
    match r {
        AiTaskRole::DraftWriter => "DRAFT_WRITER",
        AiTaskRole::SelectionReviser => "SELECTION_REVISER",
        AiTaskRole::ChapterSummarizer => "CHAPTER_SUMMARIZER",
        AiTaskRole::ApiConnectionTester => "API_CONNECTION_TESTER",
        AiTaskRole::ReviewClaimExtractor => "REVIEW_CLAIM_EXTRACTOR",
        AiTaskRole::ReviewSemanticAdjudicator => "REVIEW_SEMANTIC_ADJUDICATOR",
    }
}

/// The SCREAMING_SNAKE_CASE name of a section kind.
pub open spec fn kind_json(k: ContextSectionKind) -> Seq<char> {
    match k {
        ContextSectionKind::TaskContract => "TASK_CONTRACT"@,
        ContextSectionKind::UserInstruction => "USER_INSTRUCTION"@,
        ContextSectionKind::AuthoritativeFacts => "AUTHORITATIVE_FACTS"@,
        ContextSectionKind::ChapterPlan => "CHAPTER_PLAN"@,
        ContextSectionKind::CurrentState => "CURRENT_STATE"@,
        ContextSectionKind::CurrentDraft => "CURRENT_DRAFT"@,
        ContextSectionKind::StyleRules => "STYLE_RULES"@,
        ContextSectionKind::References => "REFERENCES"@,
    }
}

fn kind_name_of(k: ContextSectionKind) -> (s: &'static str)
    ensures
        s@ == kind_json(k),
{
    match k {
        ContextSectionKind::TaskContract => "TASK_CONTRACT",
        ContextSectionKind::UserInstruction => "USER_INSTRUCTION",
        ContextSectionKind::AuthoritativeFacts => "AUTHORITATIVE_FACTS",
        ContextSectionKind::ChapterPlan => "CHAPTER_PLAN",
        ContextSectionKind::CurrentState => "CURRENT_STATE",
        ContextSectionKind::CurrentDraft => "CURRENT_DRAFT",
        ContextSectionKind::StyleRules => "STYLE_RULES",
        ContextSectionKind::References => "REFERENCES",
    }
}

/// The SCREAMING_SNAKE_CASE name of a retrieval method.
pub open spec fn method_json(m: RetrievalMethod) -> Seq<char> {
    match m {
        RetrievalMethod::Structured => "STRUCTURED"@,
        RetrievalMethod::Keyword => "KEYWORD"@,
        RetrievalMethod::Semantic => "SEMANTIC"@,
    }
}

fn method_name_of(m: RetrievalMethod) -> (s: &'static str)
    ensures
        s@ == method_json(m),
{
    match m {
        RetrievalMethod::Structured => "STRUCTURED",
        RetrievalMethod::Keyword => "KEYWORD",
        RetrievalMethod::Semantic => "SEMANTIC",
    }
}

/// The SCREAMING_SNAKE_CASE name of an authority.
pub open spec fn authority_json(a: ContextAuthority) -> Seq<char> {
    match a {
        ContextAuthority::AuthoritativeFact => "AUTHORITATIVE_FACT"@,
        ContextAuthority::TaskMaterial => "TASK_MATERIAL"@,
        ContextAuthority::Reference => "REFERENCE"@,
    }
}

fn authority_name_of(a: ContextAuthority) -> (s: &'static str)
    ensures
        s@ == authority_json(a),
{
    match a {
        ContextAuthority::AuthoritativeFact => "AUTHORITATIVE_FACT",
        ContextAuthority::TaskMaterial => "TASK_MATERIAL",
        ContextAuthority::Reference => "REFERENCE",
    }
}

/// A name as a JSON string (names need no escaping).
pub open spec fn name_json(s: Seq<char>) -> Seq<char> {
    "\""@ + s + "\""@
}

fn push_name(out: &mut Vec<char>, s: &str)
    ensures
        final(out)@ == old(out)@ + name_json(s@),
{
    extend_str(out, "\"");
    extend_str(out, s);
    extend_str(out, "\"");
}

/// A task contract as canonical JSON.
pub open spec fn contract_json(c: ContractView) -> Seq<char> {
    "{\"acceptanceCriteria\":"@ + strings_json(c.7) + ",\"forbiddenActions\":"@ + strings_json(c.6)
        + ",\"goal\":"@ + q(c.1) + ",\"outputContract\":"@ + q(c.9) + ",\"permissions\":"@
        + strings_json(c.5) + ",\"role\":"@ + name_json(role_json(c.0)) + ",\"targetId\":"@
        + id_json(c.3) + ",\"targetRevisionId\":"@ + opt_id_json(c.4) + ",\"targetType\":"@ + q(c.2)
        + ",\"uncertaintyPolicy\":"@ + q(c.8) + "}"@
}

pub fn push_contract(out: &mut Vec<char>, c: &AiTaskContract)
    ensures
        final(out)@ == old(out)@ + contract_json(contract_view(*c)),
{
    let ghost start = out@;
    extend_str(out, "{\"acceptanceCriteria\":");
    push_strings(out, &c.acceptance_criteria);
    extend_str(out, ",\"forbiddenActions\":");
    push_strings(out, &c.forbidden_actions);
    extend_str(out, ",\"goal\":");
    push_q(out, c.goal.as_str());
    extend_str(out, ",\"outputContract\":");
    push_q(out, c.output_contract.as_str());
    extend_str(out, ",\"permissions\":");
    push_strings(out, &c.permissions);
    extend_str(out, ",\"role\":");
    push_name(out, role_name_of(c.role));
    extend_str(out, ",\"targetId\":");
    push_id(out, c.target_id);
    extend_str(out, ",\"targetRevisionId\":");
    push_opt_id(out, c.target_revision_id);
    extend_str(out, ",\"targetType\":");
    push_q(out, c.target_type.as_str());
    extend_str(out, ",\"uncertaintyPolicy\":");
    push_q(out, c.uncertainty_policy.as_str());
    extend_str(out, "}");
    assert(out@ =~= start + contract_json(contract_view(*c)));
}

/// An evidence reference as canonical JSON.
pub open spec fn evidence_json(e: ContextEvidenceRef) -> Seq<char> {
    "{\"authority\":"@ + name_json(authority_json(e.authority)) + ",\"chunkId\":"@ + id_json(e.chunk_id)
        + ",\"method\":"@ + name_json(method_json(e.method)) + ",\"sourceHash\":"@ + q(e.source_hash@)
        + ",\"sourceId\":"@ + id_json(e.source_id) + ",\"sourceRevision\":"@ + q(e.source_revision@)
        + "}"@
}

fn push_evidence(out: &mut Vec<char>, e: &ContextEvidenceRef)
    ensures
        final(out)@ == old(out)@ + evidence_json(*e),
{
    let ghost start = out@;
    extend_str(out, "{\"authority\":");
    push_name(out, authority_name_of(e.authority));
    extend_str(out, ",\"chunkId\":");
    push_id(out, e.chunk_id);
    extend_str(out, ",\"method\":");
    push_name(out, method_name_of(e.method));
    extend_str(out, ",\"sourceHash\":");
    push_q(out, e.source_hash.as_str());
    extend_str(out, ",\"sourceId\":");
    push_id(out, e.source_id);
    extend_str(out, ",\"sourceRevision\":");
    push_q(out, e.source_revision.as_str());
    extend_str(out, "}");
    assert(out@ =~= start + evidence_json(*e));
}

/// A section audit as canonical JSON.
pub open spec fn audit_json(a: ContextSectionAudit) -> Seq<char> {
    "{\"includedChars\":"@ + decimal(a.included_chars as nat) + ",\"kind\":"@ + name_json(kind_json(a.kind))
        + ",\"priority\":"@ + decimal(a.priority as nat) + ",\"sourceCount\":"@ + decimal(
        a.source_count as nat,
    ) + ",\"truncated\":"@ + bool_json(a.truncated) + "}"@
}

fn push_audit(out: &mut Vec<char>, a: &ContextSectionAudit)
    ensures
        final(out)@ == old(out)@ + audit_json(*a),
{
    let ghost start = out@;
    extend_str(out, "{\"includedChars\":");
    push_decimal(out, a.included_chars as u128);
    extend_str(out, ",\"kind\":");
    push_name(out, kind_name_of(a.kind));
    extend_str(out, ",\"priority\":");
    push_decimal(out, a.priority as u128);
    extend_str(out, ",\"sourceCount\":");
    push_decimal(out, a.source_count as u128);
    extend_str(out, ",\"truncated\":");
    if a.truncated {
        extend_str(out, "true");
    } else {
        extend_str(out, "false");
    }
    extend_str(out, "}");
    assert(out@ =~= start + audit_json(*a));
}

/// A list of evidence references as a JSON array.
pub open spec fn evidence_list_json(items: Seq<ContextEvidenceRef>) -> Seq<char> {
    "["@ + joined(items.map_values(|e: ContextEvidenceRef| evidence_json(e))) + "]"@
}

fn push_evidence_list(out: &mut Vec<char>, items: &Vec<ContextEvidenceRef>)
    ensures
        final(out)@ == old(out)@ + evidence_list_json(items@),
{
    let ghost start = out@;
    let ghost parts = items@.map_values(|e: ContextEvidenceRef| evidence_json(e));
    extend_str(out, "[");
    let mut i: usize = 0;
    while i < items.len()
        invariant
            i <= items.len(),
            parts == items@.map_values(|e: ContextEvidenceRef| evidence_json(e)),
            out@ == start + "["@ + joined(parts.take(i as int)),
        decreases items.len() - i,
    {
        assert(parts.take(i + 1).drop_last() =~= parts.take(i as int));
        if i > 0 {
            extend_str(out, ",");
        }
        push_evidence(out, &items[i]);
        i = i + 1;
    }
    extend_str(out, "]");
    assert(parts.take(items.len() as int) =~= parts);
}

/// A list of section audits as a JSON array.
pub open spec fn audit_list_json(items: Seq<ContextSectionAudit>) -> Seq<char> {
    "["@ + joined(items.map_values(|a: ContextSectionAudit| audit_json(a))) + "]"@
}

pub fn push_audit_list(out: &mut Vec<char>, items: &Vec<ContextSectionAudit>)
    ensures
        final(out)@ == old(out)@ + audit_list_json(items@),
{
    let ghost start = out@;
    let ghost parts = items@.map_values(|a: ContextSectionAudit| audit_json(a));
    extend_str(out, "[");
    let mut i: usize = 0;
    while i < items.len()
        invariant
            i <= items.len(),
            parts == items@.map_values(|a: ContextSectionAudit| audit_json(a)),
            out@ == start + "["@ + joined(parts.take(i as int)),
        decreases items.len() - i,
    {
        assert(parts.take(i + 1).drop_last() =~= parts.take(i as int));
        if i > 0 {
            extend_str(out, ",");
        }
        push_audit(out, &items[i]);
        i = i + 1;
    }
    extend_str(out, "]");
    assert(parts.take(items.len() as int) =~= parts);
}

/// The canonical JSON of a writing context: action, chapter, prompt version,
/// evidence, section audit, system prompt, target revision, task contract
/// and user prompt.
pub open spec fn writing_canonical(
    chapter_id: RecordId,
    target_revision_id: Option<RecordId>,
    action: AiAction,
    prompt_version: Seq<char>,
    system: Seq<char>,
    user: Seq<char>,
    evidence: Seq<ContextEvidenceRef>,
    contract: ContractView,
    audit: Seq<ContextSectionAudit>,
) -> Seq<char> {
    "{\"action\":"@ + name_json(action_key(action)) + ",\"chapterId\":"@ + id_json(chapter_id)
        + ",\"promptVersion\":"@ + q(prompt_version) + ",\"retrievalEvidence\":"@ + evidence_list_json(evidence)
        + ",\"sectionAudit\":"@ + audit_list_json(audit) + ",\"system\":"@ + q(system)
        + ",\"targetRevisionId\":"@ + opt_id_json(target_revision_id) + ",\"taskContract\":"@
        + contract_json(contract) + ",\"user\":"@ + q(user) + "}"@
}

/// The canonical JSON of a writing context.
pub fn writing_canonical_of(
    chapter_id: RecordId,
    target_revision_id: Option<RecordId>,
    action: AiAction,
    prompt_version: &str,
    system: &str,
    user: &str,
    evidence: &Vec<ContextEvidenceRef>,
    contract: &AiTaskContract,
    audit: &Vec<ContextSectionAudit>,
) -> (r: Vec<char>)
    ensures
        r@ == writing_canonical(
            chapter_id,
            target_revision_id,
            action,
            prompt_version@,
            system@,
            user@,
            evidence@,
            contract_view(*contract),
            audit@,
        ),
{
    let mut out: Vec<char> = Vec::new();
    extend_str(&mut out, "{\"action\":");
    push_name(&mut out, action_str(action));
    extend_str(&mut out, ",\"chapterId\":");
    push_id(&mut out, chapter_id);
    extend_str(&mut out, ",\"promptVersion\":");
    push_q(&mut out, prompt_version);
    extend_str(&mut out, ",\"retrievalEvidence\":");
    push_evidence_list(&mut out, evidence);
    extend_str(&mut out, ",\"sectionAudit\":");
    push_audit_list(&mut out, audit);
    extend_str(&mut out, ",\"system\":");
    push_q(&mut out, system);
    extend_str(&mut out, ",\"targetRevisionId\":");
    push_opt_id(&mut out, target_revision_id);
    extend_str(&mut out, ",\"taskContract\":");
    push_contract(&mut out, contract);
    extend_str(&mut out, ",\"user\":");
    push_q(&mut out, user);
    extend_str(&mut out, "}");
    assert(out@ =~= writing_canonical(
        chapter_id,
        target_revision_id,
        action,
        prompt_version@,
        system@,
        user@,
        evidence@,
        contract_view(*contract),
        audit@,
    ));
    out
}

} // verus!
