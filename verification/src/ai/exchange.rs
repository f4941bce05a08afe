//! The decisions of a provider exchange: the request's shape, when a failed
//! attempt is retried, and where the items of an embedding batch belong. The
//! caller performs the HTTP exchange and hands each outcome back.
use vstd::prelude::*;
use crate::ai::tasks::AiError;
use crate::domain::{AiContractError, ModelCapability, ModelProfile, ModelProvider};
use crate::json::{json_array_len_at, json_len_at, json_number_at, json_u64_at};
use crate::text::{chars_of, decimal, extend_str, is_blank_str, push_decimal, slice_chars, string_of, trim};

verus! {

/// The text without its trailing slashes (`str::trim_end_matches('/')`).
pub open spec fn trim_end_slashes(s: Seq<char>) -> Seq<char>
    decreases s.len(),
{
    if s.len() > 0 && s.last() == '/' {
        trim_end_slashes(s.drop_last())
    } else {
        s
    }
}

pub(crate) fn trim_end_slashes_of(s: &str) -> (r: Vec<char>)
    ensures
        r@ == trim_end_slashes(s@),
{
    let v = chars_of(s);
    let mut n: usize = v.len();
    assert(v@.subrange(0, v.len() as int) =~= v@);
    while n > 0 && v[n - 1] == '/'
        invariant
            n <= v.len(),
            trim_end_slashes(v@) == trim_end_slashes(v@.subrange(0, n as int)),
        decreases n,
    {
        assert(v@.subrange(0, n as int).drop_last() =~= v@.subrange(0, n - 1));
        n = n - 1;
    }
    assert(v@.subrange(0, n as int) == trim_end_slashes(v@.subrange(0, n as int)));
    slice_chars(&v, 0, n)
}

/// The shape of a chat request: endpoint, the field that carries the output
/// limit, the limit, the thinking mode (DeepSeek only) and whether a stream
/// reports usage (DeepSeek streams only).
#[derive(Debug, Clone, PartialEq, Eq)]
pub struct ChatRequestShape {
    pub endpoint: String,
    pub token_field: String,
    pub max_output_tokens: u32,
    pub thinking: Option<String>,
    pub include_usage: bool,
}

/// The output limit sent: the requested limit or the profile's, within one
/// and the profile's limit.
pub open spec fn output_limit(requested: Option<u32>, profile_max: u32) -> u32 {
    let v = match requested {
        Some(m) => m,
        None => profile_max,
    };
    let hi = if profile_max < 1 {
        1
    } else {
        profile_max
    };
    if v < 1 {
        1
    } else if v > hi {
        hi
    } else {
        v
    }
}

/// Builds the shape of a chat request for a profile.
pub fn chat_request_shape(
    profile: &ModelProfile,
    stream: bool,
    disable_thinking: bool,
    max_output_tokens: Option<u32>,
) -> (r: ChatRequestShape)
    ensures
        r.endpoint@ == trim_end_slashes(profile.base_url@) + "/chat/completions"@,
        r.token_field@ == if profile.provider == ModelProvider::OpenAi {
            "max_completion_tokens"@
        } else {
            "max_tokens"@
        },
        r.max_output_tokens == output_limit(max_output_tokens, profile.max_output_tokens),
        match r.thinking {
            Some(t) => profile.provider == ModelProvider::DeepSeek && t@ == if disable_thinking {
                "disabled"@
            } else {
                "enabled"@
            },
            None => profile.provider != ModelProvider::DeepSeek,
        },
        r.include_usage == (profile.provider == ModelProvider::DeepSeek && stream),
{
    let mut endpoint = trim_end_slashes_of(profile.base_url.as_str());
    extend_str(&mut endpoint, "/chat/completions");
    let token_field = if profile.provider == ModelProvider::OpenAi {
        "max_completion_tokens"
    } else {
        "max_tokens"
    };
    let requested = match max_output_tokens {
        Some(m) => m,
        None => profile.max_output_tokens,
    };
    let hi = if profile.max_output_tokens < 1 {
        1
    } else {
        profile.max_output_tokens
    };
    let limit = if requested < 1 {
        1
    } else if requested > hi {
        hi
    } else {
        requested
    };
    let deepseek = profile.provider == ModelProvider::DeepSeek;
    let thinking = if deepseek {
        Some(String::from_str(if disable_thinking { "disabled" } else { "enabled" }))
    } else {
        None
    };
    ChatRequestShape {
        endpoint: string_of(&endpoint),
        token_field: String::from_str(token_field),
        max_output_tokens: limit,
        thinking,
        include_usage: deepseek && stream,
    }
}

/// The embeddings endpoint of a profile.
pub fn embedding_endpoint(profile: &ModelProfile) -> (r: String)
    ensures
        r@ == trim_end_slashes(profile.base_url@) + "/embeddings"@,
{
    let mut endpoint = trim_end_slashes_of(profile.base_url.as_str());
    extend_str(&mut endpoint, "/embeddings");
    string_of(&endpoint)
}

/// A chat exchange needs a chat profile.
pub fn check_chat_exchange(profile: &ModelProfile) -> (r: Result<(), AiError>)
    ensures
        r == if profile.capability == ModelCapability::Chat {
            Ok::<(), AiError>(())
        } else {
            Err(AiError::Contract(AiContractError::InvalidProviderCapability))
        },
{
    if profile.capability == ModelCapability::Chat {
        Ok(())
    } else {
        Err(AiError::Contract(AiContractError::InvalidProviderCapability))
    }
}

/// What an embedding request for some inputs needs: an embedding profile, a
/// secret, and no blank input. `Ok(false)` means there is nothing to send.
pub open spec fn embedding_check(capability: ModelCapability, secret: Seq<char>, inputs: Seq<Seq<char>>) -> Result<bool, AiError> {
    if capability != ModelCapability::Embedding {
        Err(AiError::Contract(AiContractError::InvalidProviderCapability))
    } else if trim(secret).len() == 0 {
        Err(AiError::MissingSecret)
    } else if inputs.len() == 0 {
        Ok(false)
    } else if exists|i: int| 0 <= i < inputs.len() && #[trigger] trim(inputs[i]).len() == 0 {
        Err(AiError::Contract(AiContractError::EmptyAcceptedText))
    } else {
        Ok(true)
    }
}

pub fn check_embedding_request(profile: &ModelProfile, secret: &str, inputs: &Vec<String>) -> (r: Result<bool, AiError>)
    ensures
        r == embedding_check(profile.capability, secret@, inputs@.map_values(|s: String| s@)),
{
    let ghost views = inputs@.map_values(|s: String| s@);
    if profile.capability != ModelCapability::Embedding {
        return Err(AiError::Contract(AiContractError::InvalidProviderCapability));
    }
    if is_blank_str(secret) {
        return Err(AiError::MissingSecret);
    }
    if inputs.len() == 0 {
        return Ok(false);
    }
    let mut i: usize = 0;
    while i < inputs.len()
        invariant
            i <= inputs.len(),
            views == inputs@.map_values(|s: String| s@),
            profile.capability == ModelCapability::Embedding,
            trim(secret@).len() > 0,
            inputs.len() > 0,
            forall|j: int| 0 <= j < i ==> trim(#[trigger] views[j]).len() > 0,
        decreases inputs.len() - i,
    {
        if is_blank_str(inputs[i].as_str()) {
            assert(trim(views[i as int]).len() == 0);
            return Err(AiError::Contract(AiContractError::EmptyAcceptedText));
        }
        i = i + 1;
    }
    Ok(true)
}

/// The number of attempts a profile allows: its retry limit plus one.
pub fn attempt_count(retry_limit: u8) -> (r: usize)
    ensures
        r == retry_limit + 1,
{
    retry_limit as usize + 1
}

/// The error of an exchange that did not complete: a timeout or another
/// network failure.
pub fn transport_error(is_timeout: bool) -> (r: AiError)
    ensures
        r == if is_timeout {
            AiError::Timeout
        } else {
            AiError::Network
        },
{
    if is_timeout {
        AiError::Timeout
    } else {
        AiError::Network
    }
}

/// What follows a failed attempt.
#[derive(Debug, Clone, PartialEq, Eq)]
pub enum RetryStep {
    Retry { delay_millis: u64 },
    Stop(AiError),
}

/// A failed attempt is retried, after 250 ms per attempt made, while
/// attempts remain and the failure is transient: a transport failure, or a
/// rate limit or unavailable provider reported by status.
pub open spec fn retry_step(attempt: usize, attempts: usize, error: AiError, from_status: bool) -> RetryStep {
    if attempt + 1 < attempts && (!from_status || error == AiError::RateLimited || error == AiError::ProviderUnavailable) {
        RetryStep::Retry { delay_millis: (250 * (attempt + 1)) as u64 }
    } else {
        RetryStep::Stop(error)
    }
}

pub fn after_failed_attempt(attempt: usize, attempts: usize, error: AiError, from_status: bool) -> (r: RetryStep)
    requires
        attempts <= 256,
    ensures
        r == retry_step(attempt, attempts, error, from_status),
{
    let transient = !from_status || match error {
        AiError::RateLimited | AiError::ProviderUnavailable => true,
        _ => false,
    };
    if attempts > 0 && attempt < attempts - 1 && transient {
        RetryStep::Retry { delay_millis: 250 * (attempt as u64 + 1) }
    } else {
        RetryStep::Stop(error)
    }
}

/// Where each item of an embedding batch belongs: its `index` when it has
/// one, else its position. The batch must have one item per input and fill
/// every slot once.
pub open spec fn slot_of(indices: Seq<Option<u64>>, p: int) -> int {
    match indices[p] {
        Some(i) => i as int,
        None => p,
    }
}

pub open spec fn slots_valid(expected: nat, indices: Seq<Option<u64>>) -> bool {
    &&& indices.len() == expected
    &&& forall|p: int| 0 <= p < indices.len() ==> 0 <= #[trigger] slot_of(indices, p) < expected
    &&& forall|p: int, q: int|
        0 <= p < q < indices.len() ==> #[trigger] slot_of(indices, p) != #[trigger] slot_of(indices, q)
}

/// The slot of each batch item, or `InvalidResponse` when the batch does not
/// fit its inputs.
pub fn embedding_slots(expected: usize, indices: &Vec<Option<u64>>) -> (r: Result<Vec<usize>, AiError>)
    ensures
        match r {
            Ok(slots) => slots_valid(expected as nat, indices@) && slots.len() == indices.len() && forall|p: int|
                0 <= p < slots.len() ==> #[trigger] slots@[p] as int == slot_of(indices@, p),
            Err(e) => e == AiError::InvalidResponse && !slots_valid(expected as nat, indices@),
        },
{
    if indices.len() != expected {
        return Err(AiError::InvalidResponse);
    }
    let mut taken: Vec<bool> = Vec::new();
    let mut k: usize = 0;
    while k < expected
        invariant
            k <= expected,
            taken.len() == k,
            forall|j: int| 0 <= j < k ==> !taken@[j],
        decreases expected - k,
    {
        taken.push(false);
        k = k + 1;
    }
    let mut slots: Vec<usize> = Vec::new();
    let mut p: usize = 0;
    while p < indices.len()
        invariant
            p <= indices.len(),
            indices.len() == expected,
            taken.len() == expected,
            slots.len() == p,
            forall|j: int| 0 <= j < p ==> #[trigger] slots@[j] as int == slot_of(indices@, j),
            forall|j: int| 0 <= j < p ==> 0 <= #[trigger] slot_of(indices@, j) < expected,
            forall|j: int, l: int| 0 <= j < l < p ==> #[trigger] slot_of(indices@, j) != #[trigger] slot_of(indices@, l),
            forall|s: int| 0 <= s < expected ==> (taken@[s] <==> exists|j: int| 0 <= j < p && #[trigger] slot_of(indices@, j) == s),
        decreases indices.len() - p,
    {
        let slot: usize = match indices[p] {
            Some(i) => if i >= expected as u64 {
                assert(slot_of(indices@, p as int) >= expected);
                return Err(AiError::InvalidResponse);
            } else {
                i as usize
            },
            None => p,
        };
        assert(slot as int == slot_of(indices@, p as int));
        if taken[slot] {
            proof {
                let j = choose|j: int| 0 <= j < p && #[trigger] slot_of(indices@, j) == slot as int;
                assert(slot_of(indices@, j) == slot_of(indices@, p as int));
            }
            return Err(AiError::InvalidResponse);
        }
        taken.set(slot, true);
        slots.push(slot);
        p = p + 1;
    }
    Ok(slots)
}

/// The `index` of each item of an embedding reply's `data` array, as
/// `serde_json` reads them; `None` when the reply has no such array.
pub open spec fn reply_indices(reply: Seq<char>) -> Option<Seq<Option<u64>>> {
    match json_array_len_at(reply, "/data"@) {
        None => None,
        Some(n) => Some(Seq::new(n as nat, |p: int| json_u64_at(reply, "/data/"@ + decimal(p as nat) + "/index"@))),
    }
}

/// The slot of each item of an embedding reply (see `embedding_slots`), read
/// from the reply's text; `InvalidResponse` when the reply has no `data`
/// array or the batch does not fit its inputs.
pub fn embedding_reply_slots(expected: usize, reply: &str) -> (r: Result<Vec<usize>, AiError>)
    ensures
        match reply_indices(reply@) {
            None => r == Err::<Vec<usize>, AiError>(AiError::InvalidResponse),
            Some(indices) => match r {
                Ok(slots) => slots_valid(expected as nat, indices) && slots.len() == indices.len() && forall|p: int|
                    0 <= p < slots.len() ==> #[trigger] slots@[p] as int == slot_of(indices, p),
                Err(e) => e == AiError::InvalidResponse && !slots_valid(expected as nat, indices),
            },
        },
{
    let n = match json_len_at(reply, "/data") {
        None => {
            return Err(AiError::InvalidResponse);
        },
        Some(n) => n,
    };
    let ghost all = reply_indices(reply@).unwrap();
    let mut indices: Vec<Option<u64>> = Vec::new();
    let mut p: usize = 0;
    while p < n
        invariant
            p <= n,
            all.len() == n,
            all == reply_indices(reply@).unwrap(),
            json_array_len_at(reply@, "/data"@) == Some(n),
            indices@ == all.take(p as int),
        decreases n - p,
    {
        let mut pointer = chars_of("/data/");
        push_decimal(&mut pointer, p as u128);
        extend_str(&mut pointer, "/index");
        let index = json_number_at(reply, string_of(&pointer).as_str());
        assert(index == all[p as int]);
        indices.push(index);
        assert(all.take(p + 1) =~= all.take(p as int).push(all[p as int]));
        p = p + 1;
    }
    assert(all.take(n as int) =~= all);
    embedding_slots(expected, &indices)
}

} // verus!
