//! Scoring model outputs against the evaluation baseline.
use vstd::prelude::*;
use crate::text::{chars_of, contains, contains_chars, lowercase_str, str_lowercase};

verus! {

/// The tasks covered by the evaluation baseline.
#[derive(Debug, Clone, Copy, PartialEq, Eq, Structural)]
pub enum AiEvaluationTask {
    WorkDesign,
    Outline,
    VolumePlanning,
    ChapterSplit,
    Writing,
    KnowledgeExtraction,
}

/// The input of an evaluation sample.
#[derive(Debug, Clone, PartialEq, Eq)]
pub struct AiEvaluationInput {
    pub instruction: String,
    pub context: String,
}

/// An evaluation sample: what a good answer must contain, must not contain,
/// and how long it may be.
#[derive(Debug, Clone, PartialEq, Eq)]
pub struct AiEvaluationSample {
    pub id: String,
    pub task_key: AiEvaluationTask,
    pub purpose: String,
    pub input: AiEvaluationInput,
    pub expected_all: Vec<String>,
    pub forbidden_any: Vec<String>,
    pub min_characters: usize,
    pub max_characters: usize,
}

/// The score of a candidate answer.
#[derive(Debug, Clone, PartialEq, Eq)]
pub struct AiEvaluationScore {
    pub sample_id: String,
    pub passed: bool,
    pub required_hits: usize,
    pub required_total: usize,
    pub forbidden_hits: usize,
    pub character_count: usize,
    pub length_ok: bool,
}

/// How many of the phrases occur in the text, both lowercased.
pub open spec fn hits(phrases: Seq<String>, text: Seq<char>) -> nat
    decreases phrases.len(),
{
    if phrases.len() == 0 {
        0
    } else {
        hits(phrases.drop_last(), text) + if contains(text, str_lowercase(phrases.last()@)) {
            1nat
        } else {
            0nat
        }
    }
}

fn count_hits(phrases: &Vec<String>, text: &Vec<char>) -> (r: usize)
    ensures
        r == hits(phrases@, text@),
        r <= phrases.len(),
{
    let mut c: usize = 0;
    let mut i: usize = 0;
    assert(phrases@.take(0) =~= Seq::<String>::empty());
    while i < phrases.len()
        invariant
            i <= phrases.len(),
            c == hits(phrases@.take(i as int), text@),
            c <= i,
        decreases phrases.len() - i,
    {
        assert(phrases@.take(i + 1).drop_last() =~= phrases@.take(i as int));
        let p = lowercase_str(phrases[i].as_str());
        let pv = chars_of(p.as_str());
        if contains_chars(text, &pv) {
            c = c + 1;
        }
        i = i + 1;
    }
    assert(phrases@.take(phrases.len() as int) =~= phrases@);
    c
}

/// Scores a candidate: every expected phrase present and no forbidden one
/// (case-insensitively), and a length within the sample's bounds.
pub fn score_ai_evaluation_sample(sample: &AiEvaluationSample, candidate: &str) -> (r: AiEvaluationScore)
    ensures
        r.sample_id@ == sample.id@,
        r.required_hits == hits(sample.expected_all@, str_lowercase(candidate@)),
        r.required_total == sample.expected_all.len(),
        r.forbidden_hits == hits(sample.forbidden_any@, str_lowercase(candidate@)),
        r.character_count == candidate@.len(),
        r.length_ok == (sample.min_characters <= candidate@.len() <= sample.max_characters),
        r.passed == (r.required_hits == r.required_total && r.forbidden_hits == 0 && r.length_ok),
{
    let normalized = chars_of(lowercase_str(candidate).as_str());
    let required_hits = count_hits(&sample.expected_all, &normalized);
    let forbidden_hits = count_hits(&sample.forbidden_any, &normalized);
    let character_count = chars_of(candidate).len();
    let length_ok = character_count >= sample.min_characters && character_count
        <= sample.max_characters;
    AiEvaluationScore {
        sample_id: crate::text::string_of(&chars_of(sample.id.as_str())),
        passed: required_hits == sample.expected_all.len() && forbidden_hits == 0 && length_ok,
        required_hits,
        required_total: sample.expected_all.len(),
        forbidden_hits,
        character_count,
        length_ok,
    }
}

} // verus!
