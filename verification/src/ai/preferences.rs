//! Task preferences: checking them against the model profiles, and applying
//! custom prompts to an assembled context.
use vstd::prelude::*;
use crate::ai::tasks::{render_prompt_template, render_template, vars_view, AiError, AiTaskPromptPreference};
use crate::application::assembly::ContextPackage;
use crate::domain::{AiContractError, ModelCapability, ModelProfile};
use crate::ids::RecordId;
use crate::json::{sha256_hex, sha256_hex_of};
use crate::text::{chars_of, extend_str, slice_chars, string_of, trim, trim_chars};

verus! {

/// The index of the first profile with the given id.
pub open spec fn profile_index(profiles: Seq<ModelProfile>, id: RecordId) -> Option<int>
    decreases profiles.len(),
{
    if profiles.len() == 0 {
        None
    } else {
        match profile_index(profiles.drop_last(), id) {
            Some(i) => Some(i),
            None => if profiles.last().id == id {
                Some(profiles.len() - 1)
            } else {
                None
            },
        }
    }
}

proof fn lemma_profile_index(profiles: Seq<ModelProfile>, id: RecordId)
    ensures
        profile_index(profiles, id) matches Some(i) ==> 0 <= i < profiles.len() && profiles[i].id == id,
    decreases profiles.len(),
{
    if profiles.len() > 0 {
        lemma_profile_index(profiles.drop_last(), id);
    }
}

/// A referenced profile must exist and be a chat profile.
pub open spec fn chat_profile_check(profiles: Seq<ModelProfile>, id: RecordId) -> Result<(), AiError> {
    match profile_index(profiles, id) {
        None => Err(AiError::MissingProfile(id)),
        Some(i) => if profiles[i].capability != ModelCapability::Chat {
            Err(AiError::Contract(AiContractError::InvalidProviderCapability))
        } else {
            Ok(())
        },
    }
}

fn check_chat_profile_in(profiles: &Vec<ModelProfile>, id: RecordId) -> (r: Result<(), AiError>)
    ensures
        r == chat_profile_check(profiles@, id),
{
    let mut i: usize = 0;
    while i < profiles.len()
        invariant
            i <= profiles.len(),
            profile_index(profiles@.take(i as int), id) is None,
        decreases profiles.len() - i,
    {
        assert(profiles@.take(i + 1).drop_last() =~= profiles@.take(i as int));
        if profiles[i].id == id {
            proof {
                lemma_first_profile(profiles@, id, i as int);
            }
            if profiles[i].capability != ModelCapability::Chat {
                return Err(AiError::Contract(AiContractError::InvalidProviderCapability));
            }
            return Ok(());
        }
        i = i + 1;
    }
    assert(profiles@.take(profiles.len() as int) =~= profiles@);
    Err(AiError::MissingProfile(id))
}

proof fn lemma_first_profile(profiles: Seq<ModelProfile>, id: RecordId, i: int)
    requires
        0 <= i < profiles.len(),
        profiles[i].id == id,
        profile_index(profiles.take(i), id) is None,
    ensures
        profile_index(profiles, id) == Some(i),
    decreases profiles.len(),
{
    if i < profiles.len() - 1 {
        assert(profiles.drop_last().take(i) =~= profiles.take(i));
        lemma_first_profile(profiles.drop_last(), id, i);
    } else {
        assert(profiles.drop_last() =~= profiles.take(i));
    }
}

/// Whether a task's tuning is in range: the temperature check (made by the
/// caller on the floating-point value), a non-zero output limit, an input
/// budget of 256 to 1,000,000 tokens, and custom prompts of at most 20,000
/// characters.
pub open spec fn options_valid(
    temperature_valid: bool,
    max_output_tokens: Option<u32>,
    prompt: AiTaskPromptPreference,
) -> bool {
    &&& temperature_valid
    &&& max_output_tokens != Some(0u32)
    &&& match prompt.context.input_token_budget {
        Some(b) => 256 <= b <= 1_000_000,
        None => true,
    }
    &&& match prompt.system_prompt {
        Some(s) => s@.len() <= 20_000,
        None => true,
    }
    &&& match prompt.instruction_template {
        Some(t) => t@.len() <= 20_000,
        None => true,
    }
}

/// What checking a task preference gives: tuning out of range first, then
/// the main profile, then the fallback profile (which must differ from the
/// main one).
pub open spec fn preference_check(
    profile_id: Option<RecordId>,
    fallback_profile_id: Option<RecordId>,
    max_output_tokens: Option<u32>,
    prompt: AiTaskPromptPreference,
    temperature_valid: bool,
    profiles: Seq<ModelProfile>,
) -> Result<(), AiError> {
    if !options_valid(temperature_valid, max_output_tokens, prompt) {
        Err(AiError::Contract(AiContractError::InvalidGenerationOptions))
    } else {
        match (
            match profile_id {
                Some(p) => chat_profile_check(profiles, p),
                None => Ok(()),
            },
            fallback_profile_id,
        ) {
            (Err(e), _) => Err(e),
            (Ok(_), None) => Ok(()),
            (Ok(_), Some(f)) => if profile_id == Some(f) {
                Err(AiError::Contract(AiContractError::InvalidGenerationOptions))
            } else {
                chat_profile_check(profiles, f)
            },
        }
    }
}

fn char_count(s: &Option<String>) -> (r: usize)
    ensures
        match s {
            Some(t) => r == t@.len(),
            None => r == 0,
        },
{
    match s {
        Some(t) => chars_of(t.as_str()).len(),
        None => 0,
    }
}

/// Checks a task preference against the model profiles. The temperature is
/// a floating-point value checked by the caller (finite, between 0 and 2);
/// `temperature_valid` is that verdict.
pub fn validate_ai_task_preference(
    profile_id: Option<RecordId>,
    fallback_profile_id: Option<RecordId>,
    max_output_tokens: Option<u32>,
    prompt: &AiTaskPromptPreference,
    temperature_valid: bool,
    profiles: &Vec<ModelProfile>,
) -> (r: Result<(), AiError>)
    ensures
        r == preference_check(profile_id, fallback_profile_id, max_output_tokens, *prompt, temperature_valid, profiles@),
{
    let budget_ok = match prompt.context.input_token_budget {
        Some(b) => 256 <= b && b <= 1_000_000,
        None => true,
    };
    let prompts_ok = char_count(&prompt.system_prompt) <= 20_000 && char_count(&prompt.instruction_template)
        <= 20_000;
    let limit_ok = match max_output_tokens {
        Some(m) => m != 0,
        None => true,
    };
    if !(temperature_valid && limit_ok && budget_ok && prompts_ok) {
        return Err(AiError::Contract(AiContractError::InvalidGenerationOptions));
    }
    match profile_id {
        Some(p) => {
            let c = check_chat_profile_in(profiles, p);
            if c.is_err() {
                return c;
            }
        },
        None => {},
    }
    match fallback_profile_id {
        None => Ok(()),
        Some(f) => {
            if profile_id == Some(f) {
                return Err(AiError::Contract(AiContractError::InvalidGenerationOptions));
            }
            check_chat_profile_in(profiles, f)
        },
    }
}

/// A custom prompt that is set and not blank, trimmed.
pub open spec fn custom_text(o: Option<String>) -> Option<Seq<char>> {
    match o {
        Some(s) => if trim(s@).len() > 0 {
            Some(trim(s@))
        } else {
            None
        },
        None => None,
    }
}

/// The prompts after custom ones are applied: a custom system prompt
/// replaces the system prompt; a custom instruction template is rendered and
/// appended to the user prompt as a P0 section.
pub open spec fn custom_prompts(
    system: Seq<char>,
    user: Seq<char>,
    prompt: AiTaskPromptPreference,
    vars: Seq<(Seq<char>, Seq<char>)>,
) -> (Seq<char>, Seq<char>) {
    (
        match custom_text(prompt.system_prompt) {
            Some(s) => s,
            None => system,
        },
        match custom_text(prompt.instruction_template) {
            Some(t) => user + "\n\n[P0 自定义任务模板]\n"@ + render_template(t, vars),
            None => user,
        },
    )
}

/// The version suffix of customized prompts: `+task-` and the first eight
/// hex digits of the SHA-256 of `system\nuser`.
pub open spec fn task_suffix(system: Seq<char>, user: Seq<char>) -> Seq<char> {
    "+task-"@ + sha256_hex_of(system + "\n"@ + user).subrange(0, 8)
}

fn custom_of(o: &Option<String>) -> (r: Option<Vec<char>>)
    ensures
        match r {
            Some(v) => custom_text(*o) == Some(v@),
            None => custom_text(*o) is None,
        },
{
    match o {
        Some(s) => {
            let t = trim_chars(&chars_of(s.as_str()));
            if t.len() > 0 {
                Some(t)
            } else {
                None
            }
        },
        None => None,
    }
}

/// Applies a task's custom prompts to an assembled context; when anything
/// changes, the prompt and context versions gain a suffix from the new
/// prompts' digest. Everything else stays as it was.
pub fn apply_task_prompt_preferences(
    context: &mut ContextPackage,
    prompt: &AiTaskPromptPreference,
    variables: &[(&str, &str)],
)
    ensures
        (final(context).system_prompt@, final(context).user_prompt@) == custom_prompts(
            old(context).system_prompt@,
            old(context).user_prompt@,
            *prompt,
            vars_view(variables@),
        ),
        if custom_text(prompt.system_prompt) is Some || custom_text(prompt.instruction_template) is Some {
            &&& final(context).prompt_version@ == old(context).prompt_version@ + task_suffix(
                final(context).system_prompt@,
                final(context).user_prompt@,
            )
            &&& final(context).context_version@ == old(context).context_version@ + task_suffix(
                final(context).system_prompt@,
                final(context).user_prompt@,
            )
        } else {
            &&& final(context).prompt_version == old(context).prompt_version
            &&& final(context).context_version == old(context).context_version
        },
        final(context).chapter_id == old(context).chapter_id,
        final(context).target_revision_id == old(context).target_revision_id,
        final(context).action == old(context).action,
        final(context).estimated_input_tokens == old(context).estimated_input_tokens,
        final(context).truncated == old(context).truncated,
        final(context).entity_source_status == old(context).entity_source_status,
        final(context).retrieval_evidence == old(context).retrieval_evidence,
        final(context).task_contract == old(context).task_contract,
        final(context).section_audit == old(context).section_audit,
{
    let mut changed = false;
    match custom_of(&prompt.system_prompt) {
        Some(s) => {
            context.system_prompt = string_of(&s);
            changed = true;
        },
        None => {},
    }
    match custom_of(&prompt.instruction_template) {
        Some(t) => {
            let rendered = render_prompt_template(string_of(&t).as_str(), variables);
            let mut user = chars_of(context.user_prompt.as_str());
            extend_str(&mut user, "\n\n[P0 自定义任务模板]\n");
            extend_str(&mut user, rendered.as_str());
            context.user_prompt = string_of(&user);
            changed = true;
        },
        None => {},
    }
    if changed {
        let mut both = chars_of(context.system_prompt.as_str());
        extend_str(&mut both, "\n");
        extend_str(&mut both, context.user_prompt.as_str());
        let digest = chars_of(sha256_hex(string_of(&both).as_str()).as_str());
        let mut suffix = chars_of("+task-");
        crate::text::extend_chars(&mut suffix, &slice_chars(&digest, 0, 8));
        let mut pv = chars_of(context.prompt_version.as_str());
        crate::text::extend_chars(&mut pv, &suffix);
        let mut cv = chars_of(context.context_version.as_str());
        crate::text::extend_chars(&mut cv, &suffix);
        context.prompt_version = string_of(&pv);
        context.context_version = string_of(&cv);
    }
}

} // verus!
