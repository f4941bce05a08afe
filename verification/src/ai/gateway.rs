//! Reading chat completion responses: finish reasons, usage, streamed text.
use vstd::prelude::*;
use crate::ai::parsing::GenerationUsage;
use crate::ai::tasks::AiError;
use crate::json::{json_is_valid, json_string_at, json_u64_at, json_texts_at, json_parses, json_str_at, json_number_at, json_text_items_at};
use crate::text::{
    chars_of, extend_str, is_blank, lines, lines_of, slice_chars, starts_with, starts_with_str,
    string_of, trim, trim_chars, views_of,
};

verus! {

/// How a generation ended.
#[derive(Debug, Clone, Copy, PartialEq, Eq, Structural)]
pub enum GenerationCompletion {
    Complete,
    LengthLimit,
    ContentFiltered,
    Interrupted,
    LikelyTruncated,
}

impl GenerationCompletion {
    /// Only a completed generation counts as complete.
    pub fn is_complete(self) -> (r: bool)
        ensures
            r == (self == GenerationCompletion::Complete),
    {
        match self {
            GenerationCompletion::Complete => true,
            _ => false,
        }
    }
}

/// A generated text with how it ended.
#[derive(Debug, Clone, PartialEq, Eq)]
pub struct GenerationOutput {
    pub output: String,
    pub completion: GenerationCompletion,
    pub finish_reason: Option<String>,
    pub usage: Option<GenerationUsage>,
}

/// The texts of the items that have one, concatenated.
pub open spec fn concat_texts(items: Seq<Option<Seq<char>>>) -> Seq<char>
    decreases items.len(),
{
    if items.len() == 0 {
        seq![]
    } else {
        concat_texts(items.drop_last()) + match items.last() {
            Some(t) => t,
            None => seq![],
        }
    }
}

/// `content_text`: a non-blank string, or the non-blank concatenation of the
/// text items of an array.
pub open spec fn content_at(data: Seq<char>, pointer: Seq<char>) -> Option<Seq<char>> {
    match json_string_at(data, pointer) {
        Some(t) => if trim(t).len() == 0 {
            None
        } else {
            Some(t)
        },
        None => match json_texts_at(data, pointer) {
            Some(items) => if trim(concat_texts(items)).len() == 0 {
                None
            } else {
                Some(concat_texts(items))
            },
            None => None,
        },
    }
}

fn content_text(data: &str, pointer: &str) -> (r: Option<String>)
    ensures
        match r {
            Some(s) => content_at(data@, pointer@) == Some(s@),
            None => content_at(data@, pointer@) is None,
        },
{
    match json_str_at(data, pointer) {
        Some(t) => {
            if crate::text::is_blank_str(t.as_str()) {
                None
            } else {
                Some(t)
            }
        },
        None => match json_text_items_at(data, pointer) {
            Some(items) => {
                let ghost iv = items@.map_values(|o: Option<String>| match o {
                    Some(s) => Some(s@),
                    None => None,
                });
                let mut joined: Vec<char> = Vec::new();
                let mut i: usize = 0;
                assert(iv.take(0) =~= Seq::<Option<Seq<char>>>::empty());
                while i < items.len()
                    invariant
                        i <= items.len(),
                        iv == items@.map_values(|o: Option<String>| match o {
                            Some(s) => Some(s@),
                            None => None,
                        }),
                        joined@ == concat_texts(iv.take(i as int)),
                    decreases items.len() - i,
                {
                    assert(iv.take(i + 1).drop_last() =~= iv.take(i as int));
                    match &items[i] {
                        Some(s) => {
                            extend_str(&mut joined, s.as_str());
                        },
                        None => {
                            assert(joined@ =~= joined@ + Seq::<char>::empty());
                        },
                    }
                    i = i + 1;
                }
                assert(iv.take(items.len() as int) =~= iv);
                if is_blank(&joined) {
                    None
                } else {
                    Some(string_of(&joined))
                }
            },
            None => None,
        },
    }
}

/// `response_finish_reason`: the finish reason of the first choice, unless blank.
pub open spec fn finish_reason_of(data: Seq<char>) -> Option<Seq<char>> {
    match json_string_at(data, "/choices/0/finish_reason"@) {
        Some(r) => if trim(r).len() == 0 {
            None
        } else {
            Some(r)
        },
        None => None,
    }
}

fn finish_reason_in(data: &str) -> (r: Option<String>)
    ensures
        match r {
            Some(s) => finish_reason_of(data@) == Some(s@),
            None => finish_reason_of(data@) is None,
        },
{
    match json_str_at(data, "/choices/0/finish_reason") {
        Some(r) => if crate::text::is_blank_str(r.as_str()) {
            None
        } else {
            Some(r)
        },
        None => None,
    }
}

/// A count that fits in `u32`.
pub open spec fn as_u32(v: Option<u64>) -> Option<u32> {
    match v {
        Some(n) => if n <= u32::MAX {
            Some(n as u32)
        } else {
            None
        },
        None => None,
    }
}

fn to_u32(v: Option<u64>) -> (r: Option<u32>)
    ensures
        r == as_u32(v),
{
    match v {
        Some(n) => if n <= 0xffff_ffff {
            Some(n as u32)
        } else {
            None
        },
        None => None,
    }
}

/// `response_usage`: prompt and completion tokens (both required), cache hits
/// and misses when reported, each a count that fits in `u32`.
pub open spec fn usage_of(data: Seq<char>) -> Option<GenerationUsage> {
    match (
        as_u32(json_u64_at(data, "/usage/prompt_tokens"@)),
        as_u32(json_u64_at(data, "/usage/completion_tokens"@)),
    ) {
        (Some(i), Some(o)) => Some(
            GenerationUsage {
                input_tokens: i,
                output_tokens: o,
                input_cache_hit_tokens: as_u32(json_u64_at(data, "/usage/prompt_cache_hit_tokens"@)),
                input_cache_miss_tokens: as_u32(
                    json_u64_at(data, "/usage/prompt_cache_miss_tokens"@),
                ),
            },
        ),
        _ => None,
    }
}

/// Reads the token usage reported in a response.
pub fn response_usage(data: &str) -> (r: Option<GenerationUsage>)
    ensures
        r == usage_of(data@),
{
    let i = match to_u32(json_number_at(data, "/usage/prompt_tokens")) {
        Some(i) => i,
        None => return None,
    };
    let o = match to_u32(json_number_at(data, "/usage/completion_tokens")) {
        Some(o) => o,
        None => return None,
    };
    Some(
        GenerationUsage {
            input_tokens: i,
            output_tokens: o,
            input_cache_hit_tokens: to_u32(json_number_at(data, "/usage/prompt_cache_hit_tokens")),
            input_cache_miss_tokens: to_u32(json_number_at(data, "/usage/prompt_cache_miss_tokens")),
        },
    )
}

/// How a finish reason ends a generation.
pub open spec fn completion_of(reason: Option<Seq<char>>) -> Option<GenerationCompletion> {
    match reason {
        Some(r) => if r == "stop"@ {
            Some(GenerationCompletion::Complete)
        } else if r == "length"@ || r == "max_tokens"@ {
            Some(GenerationCompletion::LengthLimit)
        } else if r == "content_filter"@ || r == "content_filtered"@ {
            Some(GenerationCompletion::ContentFiltered)
        } else {
            Some(GenerationCompletion::Interrupted)
        },
        None => None,
    }
}

/// `classify_finish_reason`.
pub fn classify_finish_reason(finish_reason: Option<&str>) -> (r: Option<GenerationCompletion>)
    ensures
        r == completion_of(
            match finish_reason {
                Some(s) => Some(s@),
                None => None,
            },
        ),
{
    match finish_reason {
        Some(r) => {
            if crate::text::str_eq(r, "stop") {
                Some(GenerationCompletion::Complete)
            } else if crate::text::str_eq(r, "length") || crate::text::str_eq(r, "max_tokens") {
                Some(GenerationCompletion::LengthLimit)
            } else if crate::text::str_eq(r, "content_filter") || crate::text::str_eq(
                r,
                "content_filtered",
            ) {
                Some(GenerationCompletion::ContentFiltered)
            } else {
                Some(GenerationCompletion::Interrupted)
            }
        },
        None => None,
    }
}

/// The error for an unsuccessful HTTP status.
pub open spec fn status_error(status: u16) -> AiError {
    if status == 401 || status == 403 {
        AiError::Authentication
    } else if status == 429 {
        AiError::RateLimited
    } else if status == 408 || status == 504 {
        AiError::Timeout
    } else if 500 <= status < 600 {
        AiError::ProviderUnavailable
    } else {
        AiError::InvalidResponse
    }
}

/// `map_status`: authentication, rate limit, timeout, server errors; anything
/// else is an invalid response.
pub fn map_status(status: u16) -> (r: AiError)
    ensures
        r == status_error(status),
{
    if status == 401 || status == 403 {
        AiError::Authentication
    } else if status == 429 {
        AiError::RateLimited
    } else if status == 408 || status == 504 {
        AiError::Timeout
    } else if 500 <= status && status < 600 {
        AiError::ProviderUnavailable
    } else {
        AiError::InvalidResponse
    }
}

/// A generation as values: text, ending, finish reason, usage.
pub type OutputView = (Seq<char>, GenerationCompletion, Option<Seq<char>>, Option<GenerationUsage>);

pub open spec fn output_view(o: GenerationOutput) -> OutputView {
    (
        o.output@,
        o.completion,
        match o.finish_reason {
            Some(s) => Some(s@),
            None => None,
        },
        o.usage,
    )
}

/// A complete JSON response: the message content of the first choice (which
/// must be there), its finish reason and usage.
pub open spec fn json_response(t: Seq<char>) -> Result<(OutputView, Seq<Seq<char>>), AiError> {
    if !json_is_valid(t) {
        Err(AiError::InvalidResponse)
    } else {
        match content_at(t, "/choices/0/message/content"@) {
            None => Err(AiError::InvalidResponse),
            Some(out) => {
                let reason = finish_reason_of(t);
                let completion = match completion_of(reason) {
                    Some(c) => c,
                    None => GenerationCompletion::Complete,
                };
                Ok(((out, completion, reason, usage_of(t)), seq![out]))
            },
        }
    }
}

/// The data of a server-sent event line.
pub open spec fn event_data(line: Seq<char>) -> Option<Seq<char>> {
    if starts_with(line, "data:"@) {
        Some(trim(line.skip(5)))
    } else {
        None
    }
}

/// The state of a stream read event by event: text so far, finish reason,
/// usage, whether `[DONE]` was seen, the text pieces, and a decoding failure.
pub type StreamState = (Seq<char>, Option<Seq<char>>, Option<GenerationUsage>, bool, Seq<Seq<char>>, bool);

pub open spec fn stream_step(st: StreamState, line: Seq<char>) -> StreamState {
    if st.5 {
        st
    } else {
        match event_data(line) {
            None => st,
            Some(d) => if d.len() == 0 {
                st
            } else if d == "[DONE]"@ {
                (st.0, st.1, st.2, true, st.4, st.5)
            } else if !json_is_valid(d) {
                (st.0, st.1, st.2, st.3, st.4, true)
            } else {
                let reason = if st.1 is None {
                    finish_reason_of(d)
                } else {
                    st.1
                };
                let usage = if st.2 is None {
                    usage_of(d)
                } else {
                    st.2
                };
                match content_at(d, "/choices/0/delta/content"@) {
                    Some(t) => (st.0 + t, reason, usage, st.3, st.4.push(t), st.5),
                    None => (st.0, reason, usage, st.3, st.4, st.5),
                }
            },
        }
    }
}

pub open spec fn stream_fold(ls: Seq<Seq<char>>) -> StreamState
    decreases ls.len(),
{
    if ls.len() == 0 {
        (seq![], None, None, false, seq![], false)
    } else {
        stream_step(stream_fold(ls.drop_last()), ls.last())
    }
}

/// A response body as read by `read_stream`: a JSON object is a complete
/// response; otherwise server-sent events whose text pieces are joined. The
/// ending comes from the finish reason, else from whether `[DONE]` was seen;
/// an empty text that claims to be complete is invalid.
pub open spec fn stream_response(body: Seq<char>) -> Result<(OutputView, Seq<Seq<char>>), AiError> {
    let t = trim(body);
    if t.len() > 0 && t[0] == '{' {
        json_response(t)
    } else {
        let st = stream_fold(lines(body));
        if st.5 {
            Err(AiError::InvalidResponse)
        } else {
            let completion = match completion_of(st.1) {
                Some(c) => c,
                None => if st.3 {
                    GenerationCompletion::Complete
                } else {
                    GenerationCompletion::Interrupted
                },
            };
            if trim(st.0).len() == 0 && completion == GenerationCompletion::Complete {
                Err(AiError::InvalidResponse)
            } else {
                Ok(((st.0, completion, st.1, st.2), st.4))
            }
        }
    }
}

proof fn lemma_failure_sticks(ls: Seq<Seq<char>>, k: int)
    requires
        0 <= k <= ls.len(),
        stream_fold(ls.take(k)).5,
    ensures
        stream_fold(ls).5,
    decreases ls.len() - k,
{
    if k == ls.len() {
        assert(ls.take(k) =~= ls);
    } else {
        assert(ls.take(k + 1).drop_last() =~= ls.take(k));
        lemma_failure_sticks(ls, k + 1);
    }
}

/// A read response: the generation and the text pieces in the order they came.
pub struct ResponseReading {
    pub output: GenerationOutput,
    pub chunks: Vec<String>,
}

/// The view of a reading.
pub open spec fn reading_view(r: ResponseReading) -> (OutputView, Seq<Seq<char>>) {
    (output_view(r.output), r.chunks@.map_values(|s: String| s@))
}

/// Reads a complete (non-streamed) JSON response body.
pub fn read_json_response(body: &str) -> (r: Result<ResponseReading, AiError>)
    ensures
        match r {
            Ok(reading) => json_response(body@) == Ok::<(OutputView, Seq<Seq<char>>), AiError>(reading_view(reading)),
            Err(e) => json_response(body@) == Err::<(OutputView, Seq<Seq<char>>), AiError>(e),
        },
{
    if !json_parses(body) {
        return Err(AiError::InvalidResponse);
    }
    let output = match content_text(body, "/choices/0/message/content") {
        Some(o) => o,
        None => return Err(AiError::InvalidResponse),
    };
    let reason = finish_reason_in(body);
    let completion = match classify_finish_reason(match &reason {
        Some(s) => Some(s.as_str()),
        None => None,
    }) {
        Some(c) => c,
        None => GenerationCompletion::Complete,
    };
    let usage = response_usage(body);
    let mut chunks: Vec<String> = Vec::new();
    let piece = string_of(&chars_of(output.as_str()));
    chunks.push(piece);
    let reading = ResponseReading {
        output: GenerationOutput { output, completion, finish_reason: reason, usage },
        chunks,
    };
    assert(reading_view(reading).1 =~= seq![reading.output.output@]);
    Ok(reading)
}

/// Reads a response body that may be streamed as server-sent events.
pub fn read_stream_response(body: &str) -> (r: Result<ResponseReading, AiError>)
    ensures
        match r {
            Ok(reading) => stream_response(body@) == Ok::<(OutputView, Seq<Seq<char>>), AiError>(reading_view(reading)),
            Err(e) => stream_response(body@) == Err::<(OutputView, Seq<Seq<char>>), AiError>(e),
        },
{
    let all = chars_of(body);
    let t = trim_chars(&all);
    if t.len() > 0 && t[0] == '{' {
        let ts = string_of(&t);
        return read_json_response(ts.as_str());
    }
    let ls = lines_of(&all);
    let mut output: Vec<char> = Vec::new();
    let mut reason: Option<String> = None;
    let mut usage: Option<GenerationUsage> = None;
    let mut saw_done = false;
    let mut chunks: Vec<String> = Vec::new();
    let mut i: usize = 0;
    assert(views_of(ls@).take(0) =~= Seq::<Seq<char>>::empty());
    assert(chunks@.map_values(|s: String| s@) =~= Seq::<Seq<char>>::empty());
    while i < ls.len()
        invariant
            i <= ls.len(),
            views_of(ls@) == lines(body@),
            !(trim(body@).len() > 0 && trim(body@)[0] == '{'),
            (
                output@,
                match reason {
                    Some(s) => Some(s@),
                    None => None,
                },
                usage,
                saw_done,
                chunks@.map_values(|s: String| s@),
                false,
            ) == stream_fold(views_of(ls@).take(i as int)),
        decreases ls.len() - i,
    {
        let ghost pre = views_of(ls@).take(i + 1);
        assert(pre.drop_last() =~= views_of(ls@).take(i as int));
        assert(pre.last() == ls@[i as int]@);
        let line = &ls[i];
        if starts_with_str(line, "data:") {
            proof {
                reveal_strlit("data:");
            }
            assert(line@.len() >= 5);
            let rest = slice_chars(line, 5, line.len());
            assert(rest@ =~= line@.skip(5));
            let d = trim_chars(&rest);
            if d.len() == 0 {
            } else if crate::text::eq_str(&d, "[DONE]") {
                saw_done = true;
            } else {
                let ds = string_of(&d);
                if !json_parses(ds.as_str()) {
                    proof {
                        lemma_failure_sticks(views_of(ls@), i as int + 1);
                        assert(views_of(ls@).take(ls.len() as int) =~= views_of(ls@));
                    }
                    return Err(AiError::InvalidResponse);
                }
                if reason.is_none() {
                    reason = finish_reason_in(ds.as_str());
                }
                if usage.is_none() {
                    usage = response_usage(ds.as_str());
                }
                match content_text(ds.as_str(), "/choices/0/delta/content") {
                    Some(piece) => {
                        extend_str(&mut output, piece.as_str());
                        let ghost before = chunks@.map_values(|s: String| s@);
                        chunks.push(piece);
                        assert(chunks@.map_values(|s: String| s@) =~= before.push(chunks@.last()@));
                    },
                    None => {},
                }
            }
        }
        i = i + 1;
    }
    assert(views_of(ls@).take(ls.len() as int) =~= views_of(ls@));
    let completion = match classify_finish_reason(match &reason {
        Some(s) => Some(s.as_str()),
        None => None,
    }) {
        Some(c) => c,
        None => if saw_done {
            GenerationCompletion::Complete
        } else {
            GenerationCompletion::Interrupted
        },
    };
    if is_blank(&output) && completion.is_complete() {
        return Err(AiError::InvalidResponse);
    }
    Ok(
        ResponseReading {
            output: GenerationOutput { output: string_of(&output), completion, finish_reason: reason, usage },
            chunks,
        },
    )
}

} // verus!
