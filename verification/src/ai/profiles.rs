//! The form in which a model profile is written to the store.
use vstd::prelude::*;
use crate::ai::exchange::{trim_end_slashes, trim_end_slashes_of};
use crate::domain::ModelProfileInput;
use crate::text::{string_of, trim, trim_str};

verus! {

/// A price as its signed column holds it: saturated at `i64::MAX`.
pub open spec fn price_column(value: u64) -> i64 {
    if value > i64::MAX as u64 {
        i64::MAX
    } else {
        value as i64
    }
}

/// `i64::try_from(value).unwrap_or(i64::MAX)`.
pub fn price_column_of(value: u64) -> (r: i64)
    ensures
        r == price_column(value),
{
    if value > 9223372036854775807u64 {
        i64::MAX
    } else {
        value as i64
    }
}

/// A profile input as it is written: the name, the model and the currency
/// trimmed, the base URL without its trailing slashes, the rest unchanged.
pub fn stored_profile_input(input: &ModelProfileInput) -> (r: ModelProfileInput)
    ensures
        r.id == input.id,
        r.name@ == trim(input.name@),
        r.provider == input.provider,
        r.capability == input.capability,
        r.base_url@ == trim_end_slashes(input.base_url@),
        r.model_id@ == trim(input.model_id@),
        r.context_window == input.context_window,
        r.max_output_tokens == input.max_output_tokens,
        r.privacy_level == input.privacy_level,
        r.timeout_seconds == input.timeout_seconds,
        r.retry_limit == input.retry_limit,
        r.input_price_micros_per_million == input.input_price_micros_per_million,
        r.output_price_micros_per_million == input.output_price_micros_per_million,
        r.price_currency@ == trim(input.price_currency@),
{
    let base = trim_end_slashes_of(input.base_url.as_str());
    ModelProfileInput {
        id: input.id,
        name: trim_str(input.name.as_str()),
        provider: input.provider,
        capability: input.capability,
        base_url: string_of(&base),
        model_id: trim_str(input.model_id.as_str()),
        context_window: input.context_window,
        max_output_tokens: input.max_output_tokens,
        privacy_level: input.privacy_level,
        timeout_seconds: input.timeout_seconds,
        retry_limit: input.retry_limit,
        input_price_micros_per_million: input.input_price_micros_per_million,
        output_price_micros_per_million: input.output_price_micros_per_million,
        price_currency: trim_str(input.price_currency.as_str()),
    }
}

} // verus!
