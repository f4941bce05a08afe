//! Context candidates: stored knowledge turned into retrieval evidence.
use vstd::prelude::*;
use crate::domain::{ContextAuthority, KnowledgeChunk, RetrievalEvidence, RetrievalMethod};
use crate::entity::EntityType;
use crate::ids::{fresh_record_id, uuid_hyphenated, RecordId};
use crate::json::{sha256_hex, sha256_hex_of};
use crate::materials::{SummaryKind, SummaryPrecision};
use crate::text::{chars_of, decimal, extend_chars, extend_str, push_decimal, string_of};

verus! {

/// Where a context candidate comes from.
#[derive(Debug, Clone, Copy, PartialEq, Eq, Structural)]
pub enum ContextCandidateKind {
    AuthoritativeFact,
    CurrentState,
    Entity,
    Foreshadowing,
    Summary,
    Event,
    Keyword,
}

/// A piece of stored knowledge offered to context assembly.
#[derive(Debug, Clone, PartialEq, Eq)]
pub struct ContextCandidate {
    pub kind: ContextCandidateKind,
    pub evidence: RetrievalEvidence,
}

/// What a candidate is made of: kind, content, source, source revision,
/// retrieval method, authority and relevance.
pub type CandidateSpec = (
    ContextCandidateKind,
    Seq<char>,
    RecordId,
    Seq<char>,
    RetrievalMethod,
    ContextAuthority,
    u16,
);

/// The candidate carries exactly what the description says, hashed as
/// `sha256:<hex of the content>`, as chunk 0 of the `context-candidate-v1`
/// chunking and without an embedding. Its chunk id is a fresh random UUID.
pub open spec fn built(c: ContextCandidate, s: CandidateSpec) -> bool {
    &&& c.kind == s.0
    &&& c.evidence.chunk.content@ == s.1
    &&& c.evidence.chunk.source_id == s.2
    &&& c.evidence.chunk.source_revision@ == s.3
    &&& c.evidence.chunk.source_hash@ == "sha256:"@ + sha256_hex_of(s.1)
    &&& c.evidence.chunk.chunk_index == 0
    &&& c.evidence.chunk.chunking_version@ == "context-candidate-v1"@
    &&& c.evidence.chunk.embedding is None
    &&& c.evidence.method == s.4
    &&& c.evidence.authority == s.5
    &&& c.evidence.relevance == s.6
}

/// Each candidate matches its description, in order.
pub open spec fn all_built(r: Seq<ContextCandidate>, s: Seq<CandidateSpec>) -> bool {
    &&& r.len() == s.len()
    &&& forall|i: int| 0 <= i < r.len() ==> #[trigger] built(r[i], s[i])
}

pub proof fn lemma_all_built_append(
    a: Seq<ContextCandidate>,
    sa: Seq<CandidateSpec>,
    b: Seq<ContextCandidate>,
    sb: Seq<CandidateSpec>,
)
    requires
        all_built(a, sa),
        all_built(b, sb),
    ensures
        all_built(a + b, sa + sb),
{
    assert forall|i: int| 0 <= i < (a + b).len() implies #[trigger] built((a + b)[i], (sa + sb)[i]) by {
        if i < a.len() {
            assert(built(a[i], sa[i]));
        } else {
            assert(built(b[i - a.len()], sb[i - a.len()]));
        }
    }
}

/// Builds a candidate with a fresh chunk id.
pub fn build_candidate(
    kind: ContextCandidateKind,
    content: Vec<char>,
    source_id: RecordId,
    source_revision: Vec<char>,
    method: RetrievalMethod,
    authority: ContextAuthority,
    relevance: u16,
) -> (c: ContextCandidate)
    ensures
        built(c, (kind, content@, source_id, source_revision@, method, authority, relevance)),
{
    let text = string_of(&content);
    let digest = sha256_hex(text.as_str());
    let mut hash = chars_of("sha256:");
    extend_str(&mut hash, digest.as_str());
    ContextCandidate {
        kind,
        evidence: RetrievalEvidence {
            chunk: KnowledgeChunk {
                id: fresh_record_id(),
                source_id,
                source_revision: string_of(&source_revision),
                source_hash: string_of(&hash),
                chunk_index: 0,
                chunking_version: String::from_str("context-candidate-v1"),
                content: text,
                embedding: None,
            },
            method,
            authority,
            relevance,
        },
    }
}

/// `<prefix><uuid>:v<version>`.
pub open spec fn versioned(prefix: Seq<char>, id: RecordId, version: nat) -> Seq<char> {
    prefix + uuid_hyphenated(id.value) + ":v"@ + decimal(version)
}

pub fn versioned_of(prefix: &str, id: RecordId, version: u32) -> (r: Vec<char>)
    ensures
        r@ == versioned(prefix@, id, version as nat),
{
    let mut r = chars_of(prefix);
    extend_str(&mut r, id.to_text().as_str());
    extend_str(&mut r, ":v");
    push_decimal(&mut r, version as u128);
    r
}

/// The display label of an entity type.
pub open spec fn entity_type_text(t: EntityType) -> Seq<char> {
    match t {
        EntityType::Character => "人物"@,
        EntityType::Location => "地点"@,
        EntityType::Faction => "势力"@,
        EntityType::Item => "道具"@,
        EntityType::Concept => "概念"@,
    }
}

pub fn entity_type_label(value: EntityType) -> (r: &'static str)
    ensures
        r@ == entity_type_text(value),
{
    match value {
        EntityType::Character => "人物",
        EntityType::Location => "地点",
        EntityType::Faction => "势力",
        EntityType::Item => "道具",
        EntityType::Concept => "概念",
    }
}

/// The display label of a summary kind.
pub open spec fn summary_kind_text(k: SummaryKind) -> Seq<char> {
    match k {
        SummaryKind::Chapter => "章节"@,
        SummaryKind::Character => "人物"@,
        SummaryKind::Setting => "设定"@,
    }
}

pub fn summary_kind_label(value: SummaryKind) -> (r: &'static str)
    ensures
        r@ == summary_kind_text(value),
{
    match value {
        SummaryKind::Chapter => "章节",
        SummaryKind::Character => "人物",
        SummaryKind::Setting => "设定",
    }
}

/// The display label of a summary precision.
pub open spec fn precision_text(p: SummaryPrecision) -> Seq<char> {
    match p {
        SummaryPrecision::L0 => "L0"@,
        SummaryPrecision::L1 => "L1"@,
        SummaryPrecision::L2 => "L2"@,
        SummaryPrecision::L3 => "L3"@,
        SummaryPrecision::L4 => "L4"@,
        SummaryPrecision::L5 => "L5"@,
    }
}

pub fn summary_precision_label(value: SummaryPrecision) -> (r: &'static str)
    ensures
        r@ == precision_text(value),
{
    match value {
        SummaryPrecision::L0 => "L0",
        SummaryPrecision::L1 => "L1",
        SummaryPrecision::L2 => "L2",
        SummaryPrecision::L3 => "L3",
        SummaryPrecision::L4 => "L4",
        SummaryPrecision::L5 => "L5",
    }
}

/// The relevance floor: the larger of a score and a minimum.
pub open spec fn floor(score: u16, min: u16) -> u16 {
    if score > min {
        score
    } else {
        min
    }
}

} // verus!
