//! Stored names of AI settings, run costs and the checks of model output.
use vstd::prelude::*;
use crate::domain::{
    AiAction, AiProposalStatus, AiTaskStatus, ModelCapability, ModelProvider, PrivacyLevel,
    ReviewPurpose,
};
use crate::ai::tasks::AiProposalFeedbackRating;
use crate::text::str_eq;

verus! {

/// The stored name of a provider.
pub open spec fn provider_key(p: ModelProvider) -> Seq<char> {
    match p {
        ModelProvider::SiliconFlow => "SILICON_FLOW"@,
        ModelProvider::DeepSeek => "DEEPSEEK"@,
        ModelProvider::OpenAi => "OPEN_AI"@,
        ModelProvider::OpenAiCompatible => "OPEN_AI_COMPATIBLE"@,
    }
}

pub fn provider_str(value: ModelProvider) -> (r: &'static str)
    ensures
        r@ == provider_key(value),
{
    match value {
        ModelProvider::SiliconFlow => "SILICON_FLOW",
        ModelProvider::DeepSeek => "DEEPSEEK",
        ModelProvider::OpenAi => "OPEN_AI",
        ModelProvider::OpenAiCompatible => "OPEN_AI_COMPATIBLE",
    }
}

/// A stored provider name read back; unknown names are OpenAI-compatible.
pub open spec fn provider_of(s: Seq<char>) -> ModelProvider {
    if s == "SILICON_FLOW"@ {
        ModelProvider::SiliconFlow
    } else if s == "DEEPSEEK"@ {
        ModelProvider::DeepSeek
    } else if s == "OPEN_AI"@ {
        ModelProvider::OpenAi
    } else {
        ModelProvider::OpenAiCompatible
    }
}

pub fn parse_provider(value: &str) -> (r: ModelProvider)
    ensures
        r == provider_of(value@),
{
    if str_eq(value, "SILICON_FLOW") {
        ModelProvider::SiliconFlow
    } else if str_eq(value, "DEEPSEEK") {
        ModelProvider::DeepSeek
    } else if str_eq(value, "OPEN_AI") {
        ModelProvider::OpenAi
    } else {
        ModelProvider::OpenAiCompatible
    }
}

/// The stored name of a capability.
pub open spec fn capability_key(c: ModelCapability) -> Seq<char> {
    match c {
        ModelCapability::Chat => "CHAT"@,
        ModelCapability::Embedding => "EMBEDDING"@,
    }
}

pub fn capability_str(value: ModelCapability) -> (r: &'static str)
    ensures
        r@ == capability_key(value),
{
    match value {
        ModelCapability::Chat => "CHAT",
        ModelCapability::Embedding => "EMBEDDING",
    }
}

/// A stored capability read back; anything but `EMBEDDING` is chat.
pub fn parse_capability(value: &str) -> (r: ModelCapability)
    ensures
        r == (if value@ == "EMBEDDING"@ {
            ModelCapability::Embedding
        } else {
            ModelCapability::Chat
        }),
{
    if str_eq(value, "EMBEDDING") {
        ModelCapability::Embedding
    } else {
        ModelCapability::Chat
    }
}

/// The stored name of a privacy level.
pub open spec fn privacy_key(p: PrivacyLevel) -> Seq<char> {
    match p {
        PrivacyLevel::LocalOnly => "LOCAL_ONLY"@,
        PrivacyLevel::AllowCloud => "ALLOW_CLOUD"@,
    }
}

pub fn privacy_str(value: PrivacyLevel) -> (r: &'static str)
    ensures
        r@ == privacy_key(value),
{
    match value {
        PrivacyLevel::LocalOnly => "LOCAL_ONLY",
        PrivacyLevel::AllowCloud => "ALLOW_CLOUD",
    }
}

/// A stored privacy level read back; anything but `ALLOW_CLOUD` stays local.
pub fn parse_privacy(value: &str) -> (r: PrivacyLevel)
    ensures
        r == (if value@ == "ALLOW_CLOUD"@ {
            PrivacyLevel::AllowCloud
        } else {
            PrivacyLevel::LocalOnly
        }),
{
    if str_eq(value, "ALLOW_CLOUD") {
        PrivacyLevel::AllowCloud
    } else {
        PrivacyLevel::LocalOnly
    }
}

/// The stored name of a rating.
pub open spec fn rating_key(r: AiProposalFeedbackRating) -> Seq<char> {
    match r {
        AiProposalFeedbackRating::Helpful => "HELPFUL"@,
        AiProposalFeedbackRating::NotHelpful => "NOT_HELPFUL"@,
    }
}

pub fn feedback_rating_str(value: AiProposalFeedbackRating) -> (r: &'static str)
    ensures
        r@ == rating_key(value),
{
    match value {
        AiProposalFeedbackRating::Helpful => "HELPFUL",
        AiProposalFeedbackRating::NotHelpful => "NOT_HELPFUL",
    }
}

/// A stored rating read back; anything but `HELPFUL` is not helpful.
pub fn parse_feedback_rating(value: &str) -> (r: AiProposalFeedbackRating)
    ensures
        r == (if value@ == "HELPFUL"@ {
            AiProposalFeedbackRating::Helpful
        } else {
            AiProposalFeedbackRating::NotHelpful
        }),
{
    if str_eq(value, "HELPFUL") {
        AiProposalFeedbackRating::Helpful
    } else {
        AiProposalFeedbackRating::NotHelpful
    }
}

/// The stored name of a writing action.
pub open spec fn action_key(a: AiAction) -> Seq<char> {
    match a {
        AiAction::Draft => "DRAFT"@,
        AiAction::Continue => "CONTINUE"@,
        AiAction::Rewrite => "REWRITE"@,
        AiAction::Polish => "POLISH"@,
        AiAction::Summarize => "SUMMARIZE"@,
        AiAction::ConsistencyCheck => "CONSISTENCY_CHECK"@,
    }
}

pub fn action_str(value: AiAction) -> (r: &'static str)
    ensures
        r@ == action_key(value),
{
    match value {
        AiAction::Draft => "DRAFT",
        AiAction::Continue => "CONTINUE",
        AiAction::Rewrite => "REWRITE",
        AiAction::Polish => "POLISH",
        AiAction::Summarize => "SUMMARIZE",
        AiAction::ConsistencyCheck => "CONSISTENCY_CHECK",
    }
}

/// A stored action read back; unknown names continue the chapter.
pub open spec fn action_of(s: Seq<char>) -> AiAction {
    if s == "DRAFT"@ {
        AiAction::Draft
    } else if s == "REWRITE"@ {
        AiAction::Rewrite
    } else if s == "POLISH"@ {
        AiAction::Polish
    } else if s == "SUMMARIZE"@ {
        AiAction::Summarize
    } else if s == "CONSISTENCY_CHECK"@ {
        AiAction::ConsistencyCheck
    } else {
        AiAction::Continue
    }
}

pub fn parse_action(value: &str) -> (r: AiAction)
    ensures
        r == action_of(value@),
{
    if str_eq(value, "DRAFT") {
        AiAction::Draft
    } else if str_eq(value, "REWRITE") {
        AiAction::Rewrite
    } else if str_eq(value, "POLISH") {
        AiAction::Polish
    } else if str_eq(value, "SUMMARIZE") {
        AiAction::Summarize
    } else if str_eq(value, "CONSISTENCY_CHECK") {
        AiAction::ConsistencyCheck
    } else {
        AiAction::Continue
    }
}

/// Every action reads back as itself from its stored name.
pub proof fn action_names_round_trip(a: AiAction)
    ensures
        action_of(action_key(a)) == a,
{
    reveal_strlit("DRAFT");
    reveal_strlit("CONTINUE");
    reveal_strlit("REWRITE");
    reveal_strlit("POLISH");
    reveal_strlit("SUMMARIZE");
    reveal_strlit("CONSISTENCY_CHECK");
    assert("DRAFT"@.len() == 5);
    assert("CONTINUE"@.len() == 8);
    assert("REWRITE"@.len() == 7);
    assert("POLISH"@.len() == 6);
    assert("SUMMARIZE"@.len() == 9);
    assert("CONSISTENCY_CHECK"@.len() == 17);
}

/// Every provider reads back as itself from its stored name.
pub proof fn provider_names_round_trip(p: ModelProvider)
    ensures
        provider_of(provider_key(p)) == p,
{
    reveal_strlit("SILICON_FLOW");
    reveal_strlit("DEEPSEEK");
    reveal_strlit("OPEN_AI");
    reveal_strlit("OPEN_AI_COMPATIBLE");
    assert("SILICON_FLOW"@.len() == 12);
    assert("DEEPSEEK"@.len() == 8);
    assert("OPEN_AI"@.len() == 7);
    assert("OPEN_AI_COMPATIBLE"@.len() == 18);
}

/// The stored name of a task status.
pub open spec fn task_status_key(s: AiTaskStatus) -> Seq<char> {
    match s {
        AiTaskStatus::Running => "RUNNING"@,
        AiTaskStatus::Completed => "COMPLETED"@,
        AiTaskStatus::Failed => "FAILED"@,
        AiTaskStatus::Cancelled => "CANCELLED"@,
    }
}

pub fn task_status_str(value: AiTaskStatus) -> (r: &'static str)
    ensures
        r@ == task_status_key(value),
{
    match value {
        AiTaskStatus::Running => "RUNNING",
        AiTaskStatus::Completed => "COMPLETED",
        AiTaskStatus::Failed => "FAILED",
        AiTaskStatus::Cancelled => "CANCELLED",
    }
}

/// The stored name of a proposal status.
pub open spec fn proposal_status_key(s: AiProposalStatus) -> Seq<char> {
    match s {
        AiProposalStatus::Pending => "PENDING"@,
        AiProposalStatus::Accepted => "ACCEPTED"@,
        AiProposalStatus::PartiallyAccepted => "PARTIALLY_ACCEPTED"@,
        AiProposalStatus::Rejected => "REJECTED"@,
    }
}

pub fn proposal_status_str(value: AiProposalStatus) -> (r: &'static str)
    ensures
        r@ == proposal_status_key(value),
{
    match value {
        AiProposalStatus::Pending => "PENDING",
        AiProposalStatus::Accepted => "ACCEPTED",
        AiProposalStatus::PartiallyAccepted => "PARTIALLY_ACCEPTED",
        AiProposalStatus::Rejected => "REJECTED",
    }
}

/// A stored proposal status read back; unknown names are pending.
pub open spec fn proposal_status_of(s: Seq<char>) -> AiProposalStatus {
    if s == "ACCEPTED"@ {
        AiProposalStatus::Accepted
    } else if s == "PARTIALLY_ACCEPTED"@ {
        AiProposalStatus::PartiallyAccepted
    } else if s == "REJECTED"@ {
        AiProposalStatus::Rejected
    } else {
        AiProposalStatus::Pending
    }
}

pub fn parse_proposal_status(value: &str) -> (r: AiProposalStatus)
    ensures
        r == proposal_status_of(value@),
{
    if str_eq(value, "ACCEPTED") {
        AiProposalStatus::Accepted
    } else if str_eq(value, "PARTIALLY_ACCEPTED") {
        AiProposalStatus::PartiallyAccepted
    } else if str_eq(value, "REJECTED") {
        AiProposalStatus::Rejected
    } else {
        AiProposalStatus::Pending
    }
}

/// Every proposal status reads back as itself from its stored name.
pub proof fn proposal_status_names_round_trip(s: AiProposalStatus)
    ensures
        proposal_status_of(proposal_status_key(s)) == s,
{
    reveal_strlit("PENDING");
    reveal_strlit("ACCEPTED");
    reveal_strlit("PARTIALLY_ACCEPTED");
    reveal_strlit("REJECTED");
    assert("PENDING"@.len() == 7);
    assert("ACCEPTED"@.len() == 8);
    assert("PARTIALLY_ACCEPTED"@.len() == 18);
    assert("REJECTED"@.len() == 8);
    assert("ACCEPTED"@[0] != "REJECTED"@[0]);
}

/// A stored review purpose read back; anything but `MANUSCRIPT` is admission.
pub fn parse_review_purpose(value: &str) -> (r: ReviewPurpose)
    ensures
        r == (if value@ == "MANUSCRIPT"@ {
            ReviewPurpose::Manuscript
        } else {
            ReviewPurpose::Admission
        }),
{
    if str_eq(value, "MANUSCRIPT") {
        ReviewPurpose::Manuscript
    } else {
        ReviewPurpose::Admission
    }
}

/// Token usage reported by a provider.
#[derive(Debug, Clone, Copy, PartialEq, Eq, Structural)]
pub struct GenerationUsage {
    pub input_tokens: u32,
    pub output_tokens: u32,
    pub input_cache_hit_tokens: Option<u32>,
    pub input_cache_miss_tokens: Option<u32>,
}

/// The estimated cost of a run in micro units: tokens times the price per
/// million tokens, rounded down; `None` when no price is known or the cost
/// does not fit in `u64`.
pub open spec fn estimated_cost(input_tokens: u32, output_tokens: u32, input_price: u64, output_price: u64) -> Option<u64> {
    let cost = (input_tokens * input_price + output_tokens * output_price) / 1_000_000;
    if input_price == 0 && output_price == 0 {
        None
    } else if cost > u64::MAX {
        None
    } else {
        Some(cost as u64)
    }
}

pub fn estimate_run_cost_micros(
    input_tokens: u32,
    output_tokens: u32,
    input_price_micros_per_million: u64,
    output_price_micros_per_million: u64,
) -> (r: Option<u64>)
    ensures
        r == estimated_cost(
            input_tokens,
            output_tokens,
            input_price_micros_per_million,
            output_price_micros_per_million,
        ),
{
    if input_price_micros_per_million == 0 && output_price_micros_per_million == 0 {
        return None;
    }
    let a = input_tokens as u128;
    let b = input_price_micros_per_million as u128;
    let c = output_tokens as u128;
    let d = output_price_micros_per_million as u128;
    assert(a * b <= 0xffff_ffffu128 * 0xffff_ffff_ffff_ffffu128) by (nonlinear_arith)
        requires
            a <= 0xffff_ffffu128,
            b <= 0xffff_ffff_ffff_ffffu128,
    ;
    assert(c * d <= 0xffff_ffffu128 * 0xffff_ffff_ffff_ffffu128) by (nonlinear_arith)
        requires
            c <= 0xffff_ffffu128,
            d <= 0xffff_ffff_ffff_ffffu128,
    ;
    let cost = (a * b + c * d) / 1_000_000;
    if cost > u64::MAX as u128 {
        None
    } else {
        Some(cost as u64)
    }
}

/// The exact cost of a run from the provider's cache usage: cache hits,
/// cache misses and output at their prices per million tokens, rounded down.
/// `None` when the cache usage is not reported, when cache hits have no price,
/// or when the cost does not fit in `u64`.
pub open spec fn exact_cost(
    usage: GenerationUsage,
    cache_hit_price: u64,
    cache_miss_price: u64,
    output_price: u64,
) -> Option<u64> {
    match (usage.input_cache_hit_tokens, usage.input_cache_miss_tokens) {
        (Some(hit), Some(miss)) => {
            let cost = (hit * cache_hit_price + miss * cache_miss_price + usage.output_tokens
                * output_price) / 1_000_000;
            if cache_hit_price == 0 && hit > 0 {
                None
            } else if cost > u64::MAX {
                None
            } else {
                Some(cost as u64)
            }
        },
        _ => None,
    }
}

pub fn actual_run_cost_micros(
    usage: &GenerationUsage,
    cache_hit_price: u64,
    cache_miss_price: u64,
    output_price: u64,
) -> (r: Option<u64>)
    ensures
        r == exact_cost(*usage, cache_hit_price, cache_miss_price, output_price),
{
    let hit = match usage.input_cache_hit_tokens {
        Some(h) => h,
        None => return None,
    };
    let miss = match usage.input_cache_miss_tokens {
        Some(m) => m,
        None => return None,
    };
    if cache_hit_price == 0 && hit > 0 {
        return None;
    }
    let a = hit as u128;
    let b = cache_hit_price as u128;
    let c = miss as u128;
    let d = cache_miss_price as u128;
    let e = usage.output_tokens as u128;
    let f = output_price as u128;
    assert(a * b <= 0xffff_ffffu128 * 0xffff_ffff_ffff_ffffu128) by (nonlinear_arith)
        requires
            a <= 0xffff_ffffu128,
            b <= 0xffff_ffff_ffff_ffffu128,
    ;
    assert(c * d <= 0xffff_ffffu128 * 0xffff_ffff_ffff_ffffu128) by (nonlinear_arith)
        requires
            c <= 0xffff_ffffu128,
            d <= 0xffff_ffff_ffff_ffffu128,
    ;
    assert(e * f <= 0xffff_ffffu128 * 0xffff_ffff_ffff_ffffu128) by (nonlinear_arith)
        requires
            e <= 0xffff_ffffu128,
            f <= 0xffff_ffff_ffff_ffffu128,
    ;
    let cost = (a * b + c * d + e * f) / 1_000_000;
    if cost > u64::MAX as u128 {
        None
    } else {
        Some(cost as u64)
    }
}

} // verus!
