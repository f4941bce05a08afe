//! The decisions behind AI task, run and proposal records: which profile may
//! run, what prices a run is recorded with, how a finished run is counted, and
//! which proposal decisions are allowed.
use vstd::prelude::*;
use crate::ai::admission::{freshness_of, review_freshness};
use crate::ai::output::{output_status, validate_ai_output};
use crate::ai::parsing::{
    actual_run_cost_micros, estimate_run_cost_micros, estimated_cost, exact_cost, GenerationUsage,
};
use crate::ai::tasks::{AiError, AiTaskKind, ConsistencyReviewFreshness};
use crate::domain::{AiAction, AiContractError, AiProposal, AiProposalStatus};
use crate::ids::RecordId;
use crate::text::{chars_of, eq_str, is_blank_str, str_eq, trim};

verus! {

/// Whether a run falls in the peak hours of the discounted flash models:
/// Monday to Friday, 9:00-12:00 or 14:00-18:00 at UTC+8.
pub open spec fn peak_hour(now_unix_seconds: u64) -> bool {
    let seconds = if now_unix_seconds + 28_800 > u64::MAX {
        u64::MAX as int
    } else {
        now_unix_seconds + 28_800
    };
    let day = seconds / 86_400;
    let hour = (seconds % 86_400) / 3_600;
    let weekday = (day + 4) % 7;
    1 <= weekday <= 5 && ((9 <= hour < 12) || (14 <= hour < 18))
}

/// The prices a run is recorded with: cache-hit input, input and output
/// prices per million tokens and their currency. DeepSeek's flash models
/// have fixed CNY prices, lower off peak; other models keep the profile's
/// prices and have no cache-hit price.
pub open spec fn run_prices(
    provider: Seq<char>,
    model_id: Seq<char>,
    input_price: u64,
    output_price: u64,
    currency: Seq<char>,
    now_unix_seconds: u64,
) -> (u64, u64, u64, Seq<char>) {
    if provider != "DEEP_SEEK"@ || (model_id != "deepseek-flash"@ && model_id != "deepseek-v4-flash"@) {
        (0, input_price, output_price, currency)
    } else if peak_hour(now_unix_seconds) {
        (40_000, 2_000_000, 8_000_000, "CNY"@)
    } else {
        (20_000, 1_000_000, 4_000_000, "CNY"@)
    }
}

pub fn snapshot_run_prices(
    provider: &str,
    model_id: &str,
    input_price: u64,
    output_price: u64,
    currency: String,
    now_unix_seconds: u64,
) -> (r: (u64, u64, u64, String))
    ensures
        (r.0, r.1, r.2, r.3@) == run_prices(provider@, model_id@, input_price, output_price, currency@, now_unix_seconds),
{
    let flash = str_eq(model_id, "deepseek-flash") || str_eq(model_id, "deepseek-v4-flash");
    if !str_eq(provider, "DEEP_SEEK") || !flash {
        return (0, input_price, output_price, currency);
    }
    let seconds = now_unix_seconds.saturating_add(28_800);
    let day = seconds / 86_400;
    let hour = (seconds % 86_400) / 3_600;
    let weekday = (day + 4) % 7;
    let peak = 1 <= weekday && weekday <= 5 && ((9 <= hour && hour < 12) || (14 <= hour && hour < 18));
    if peak {
        (40_000, 2_000_000, 8_000_000, String::from_str("CNY"))
    } else {
        (20_000, 1_000_000, 4_000_000, String::from_str("CNY"))
    }
}

/// A profile may run a chat task when it exists (its stored capability is
/// known) and is a chat profile.
pub open spec fn chat_check(profile_id: RecordId, capability: Option<Seq<char>>) -> Result<(), AiError> {
    match capability {
        None => Err(AiError::MissingProfile(profile_id)),
        Some(c) => if c == "CHAT"@ {
            Ok(())
        } else {
            Err(AiError::Contract(AiContractError::InvalidProviderCapability))
        },
    }
}

pub fn check_chat_profile(profile_id: RecordId, capability: Option<&str>) -> (r: Result<(), AiError>)
    ensures
        r == chat_check(
            profile_id,
            match capability {
                Some(c) => Some(c@),
                None => None,
            },
        ),
{
    match capability {
        None => Err(AiError::MissingProfile(profile_id)),
        Some(c) => if str_eq(c, "CHAT") {
            Ok(())
        } else {
            Err(AiError::Contract(AiContractError::InvalidProviderCapability))
        },
    }
}

/// The task a writing action is recorded under.
pub fn writing_task_kind(action: AiAction) -> (r: AiTaskKind)
    ensures
        r == if action == AiAction::ConsistencyCheck {
            AiTaskKind::ConsistencyReview
        } else {
            AiTaskKind::Writing
        },
{
    if action == AiAction::ConsistencyCheck {
        AiTaskKind::ConsistencyReview
    } else {
        AiTaskKind::Writing
    }
}

/// The status a failed run is recorded with.
pub fn failure_status(error: &AiError) -> (r: &'static str)
    ensures
        r@ == if *error == AiError::Cancelled {
            "CANCELLED"@
        } else {
            "FAILED"@
        },
{
    match error {
        AiError::Cancelled => "CANCELLED",
        _ => "FAILED",
    }
}

/// A stored price read back: negative values count as zero.
pub open spec fn stored_price(value: i64) -> u64 {
    if value < 0 {
        0
    } else {
        value as u64
    }
}

pub fn stored_price_of(value: i64) -> (r: u64)
    ensures
        r == stored_price(value),
{
    if value < 0 {
        0
    } else {
        value as u64
    }
}

/// `ceil(n / 4)`, saturated at `u32::MAX`.
pub open spec fn quarter_tokens(n: nat) -> u32 {
    if (n + 3) / 4 > u32::MAX {
        u32::MAX
    } else {
        ((n + 3) / 4) as u32
    }
}

/// The counts of a finished run: the reported input tokens (none without a
/// usage report), the reported output tokens or the fallback, and the exact
/// cost from the recorded prices.
pub open spec fn run_counts(
    usage: Option<GenerationUsage>,
    fallback_output_tokens: u32,
    cache_hit_price: i64,
    cache_miss_price: i64,
    output_price: i64,
) -> (Option<u32>, u32, Option<u64>) {
    match usage {
        None => (None, fallback_output_tokens, None),
        Some(u) => (
            Some(u.input_tokens),
            u.output_tokens,
            exact_cost(u, stored_price(cache_hit_price), stored_price(cache_miss_price), stored_price(output_price)),
        ),
    }
}

pub fn run_completion(
    usage: Option<&GenerationUsage>,
    fallback_output_tokens: u32,
    cache_hit_price: i64,
    cache_miss_price: i64,
    output_price: i64,
) -> (r: (Option<u32>, u32, Option<u64>))
    ensures
        r == run_counts(
            match usage {
                Some(u) => Some(*u),
                None => None,
            },
            fallback_output_tokens,
            cache_hit_price,
            cache_miss_price,
            output_price,
        ),
{
    match usage {
        None => (None, fallback_output_tokens, None),
        Some(u) => (
            Some(u.input_tokens),
            u.output_tokens,
            actual_run_cost_micros(
                u,
                stored_price_of(cache_hit_price),
                stored_price_of(cache_miss_price),
                stored_price_of(output_price),
            ),
        ),
    }
}

/// A task's output must hold text; its output tokens fall back to a quarter
/// of the trimmed text's characters when the provider reports no usage.
pub fn task_completion(
    output_text: &str,
    usage: Option<&GenerationUsage>,
    cache_hit_price: i64,
    cache_miss_price: i64,
    output_price: i64,
) -> (r: Result<(Option<u32>, u32, Option<u64>), AiError>)
    ensures
        match r {
            Ok(c) => trim(output_text@).len() > 0 && c == run_counts(
                match usage {
                    Some(u) => Some(*u),
                    None => None,
                },
                quarter_tokens(trim(output_text@).len()),
                cache_hit_price,
                cache_miss_price,
                output_price,
            ),
            Err(e) => e == AiError::InvalidResponse && trim(output_text@).len() == 0,
        },
{
    let trimmed = crate::text::trim_chars(&chars_of(output_text));
    if trimmed.len() == 0 {
        return Err(AiError::InvalidResponse);
    }
    let q: u128 = (trimmed.len() as u128 + 3) / 4;
    let fallback: u32 = if q > 0xffff_ffff {
        0xffff_ffff
    } else {
        q as u32
    };
    Ok(run_completion(usage, fallback, cache_hit_price, cache_miss_price, output_price))
}

/// The row limit of a run listing: the requested count clamped to one to
/// 100, or no limit (`-1`).
pub fn run_list_limit(limit: Option<u32>) -> (r: i64)
    ensures
        r == match limit {
            Some(l) => if l < 1 {
                1
            } else if l > 100 {
                100
            } else {
                l as i64
            },
            None => -1i64,
        },
{
    match limit {
        Some(l) => if l < 1 {
            1
        } else if l > 100 {
            100
        } else {
            l as i64
        },
        None => -1,
    }
}

/// The cost shown for a listed run: its exact cost when recorded (negative
/// values as zero), otherwise the estimate from its tokens and prices.
pub fn listed_run_cost(
    actual_cost_micros: Option<i64>,
    input_tokens: u32,
    output_tokens: u32,
    input_price: i64,
    output_price: i64,
) -> (r: Option<u64>)
    ensures
        r == match actual_cost_micros {
            Some(c) => Some(stored_price(c)),
            None => estimated_cost(input_tokens, output_tokens, stored_price(input_price), stored_price(output_price)),
        },
{
    match actual_cost_micros {
        Some(c) => Some(stored_price_of(c)),
        None => estimate_run_cost_micros(
            input_tokens,
            output_tokens,
            stored_price_of(input_price),
            stored_price_of(output_price),
        ),
    }
}

/// What deciding a proposal gives: only a pending proposal may be decided,
/// to a decided status; a consistency check may only be rejected; an output
/// that asks for more input may only be rejected; a partial acceptance needs
/// non-blank text. Accepting keeps the whole output, rejecting keeps none.
pub open spec fn decision(
    current: AiProposal,
    status: AiProposalStatus,
    accepted_text: Option<Seq<char>>,
) -> Result<Option<Seq<char>>, AiContractError> {
    if current.status != AiProposalStatus::Pending || status == AiProposalStatus::Pending {
        Err(AiContractError::InvalidProposalTransition)
    } else if current.action == AiAction::ConsistencyCheck && status != AiProposalStatus::Rejected {
        Err(AiContractError::InvalidProposalTransition)
    } else if status != AiProposalStatus::Rejected && output_status(current.action, trim(current.output_text@))
        == "NEEDS_INPUT"@ {
        Err(AiContractError::InvalidProposalTransition)
    } else {
        match status {
            AiProposalStatus::Accepted => Ok(Some(current.output_text@)),
            AiProposalStatus::PartiallyAccepted => match accepted_text {
                Some(t) => if trim(t).len() == 0 {
                    Err(AiContractError::EmptyAcceptedText)
                } else {
                    Ok(Some(t))
                },
                None => Err(AiContractError::EmptyAcceptedText),
            },
            _ => Ok(None),
        }
    }
}

/// Checks a decision on a proposal and gives the accepted text to store.
pub fn check_proposal_decision(
    current: &AiProposal,
    status: AiProposalStatus,
    accepted_text: Option<String>,
) -> (r: Result<Option<String>, AiError>)
    ensures
        match decision(
            *current,
            status,
            match accepted_text {
                Some(t) => Some(t@),
                None => None,
            },
        ) {
            Ok(Some(t)) => r matches Ok(Some(s)) && s@ == t,
            Ok(None) => r matches Ok(None),
            Err(e) => r == Err::<Option<String>, AiError>(AiError::Contract(e)),
        },
{
    if current.status != AiProposalStatus::Pending || status == AiProposalStatus::Pending {
        return Err(AiError::Contract(AiContractError::InvalidProposalTransition));
    }
    if current.action == AiAction::ConsistencyCheck && status != AiProposalStatus::Rejected {
        return Err(AiError::Contract(AiContractError::InvalidProposalTransition));
    }
    if status != AiProposalStatus::Rejected {
        let check = validate_ai_output(current.action, current.output_text.as_str());
        if eq_str(&chars_of(check.status.as_str()), "NEEDS_INPUT") {
            return Err(AiError::Contract(AiContractError::InvalidProposalTransition));
        }
    }
    match status {
        AiProposalStatus::Accepted => Ok(Some(String::from_str(current.output_text.as_str()))),
        AiProposalStatus::PartiallyAccepted => match accepted_text {
            Some(t) => if is_blank_str(t.as_str()) {
                Err(AiError::Contract(AiContractError::EmptyAcceptedText))
            } else {
                Ok(Some(t))
            },
            None => Err(AiError::Contract(AiContractError::EmptyAcceptedText)),
        },
        _ => Ok(None),
    }
}

/// A feedback note: blank notes are dropped, notes over 2000 characters are
/// refused.
pub fn check_feedback_note(note: Option<String>) -> (r: Result<Option<String>, AiError>)
    ensures
        match note {
            None => r == Ok::<Option<String>, AiError>(None),
            Some(n) => if trim(n@).len() == 0 {
                r == Ok::<Option<String>, AiError>(None)
            } else if n@.len() > 2000 {
                r == Err::<Option<String>, AiError>(AiError::Contract(AiContractError::InvalidGenerationOptions))
            } else {
                r == Ok::<Option<String>, AiError>(Some(n))
            },
        },
{
    match note {
        None => Ok(None),
        Some(n) => {
            if is_blank_str(n.as_str()) {
                Ok(None)
            } else if chars_of(n.as_str()).len() > 2000 {
                Err(AiError::Contract(AiContractError::InvalidGenerationOptions))
            } else {
                Ok(Some(n))
            }
        },
    }
}

/// The freshness marked on a listed proposal: pending consistency checks get
/// the freshness of their context version; other proposals get none.
pub fn consistency_freshness_mark(proposal: &AiProposal, current_context_version: Option<&str>) -> (r: Option<
    ConsistencyReviewFreshness,
>)
    ensures
        r == if proposal.action == AiAction::ConsistencyCheck && proposal.status == AiProposalStatus::Pending {
            Some(
                freshness_of(
                    match current_context_version {
                        Some(v) => Some(v@),
                        None => None,
                    },
                    proposal.context_version@,
                ),
            )
        } else {
            None
        },
{
    if proposal.action == AiAction::ConsistencyCheck && proposal.status == AiProposalStatus::Pending {
        Some(review_freshness(current_context_version, proposal.context_version.as_str()))
    } else {
        None
    }
}

} // verus!
