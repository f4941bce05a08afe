//! All context candidates for a writing request.
use vstd::prelude::*;
use crate::application::assembly::AssembleContextInput;
use crate::candidates::candidate::{
    all_built, build_candidate, built, lemma_all_built_append, CandidateSpec, ContextCandidate,
    ContextCandidateKind,
};
use crate::candidates::filtered::{contains_id, event_candidates, event_part, summary_candidates, summary_part, thread_candidates, thread_part};
use crate::candidates::knowledge::{ProjectKnowledge, SearchResult};
use crate::candidates::sections::{entity_candidates, entity_part, fact_candidates, fact_order, fact_part, state_candidates, state_part};
use crate::domain::{ContextAuthority, RetrievalMethod};
use crate::ids::RecordId;
use crate::planning::select::pick_order;
use crate::text::{chars_of, eq_str, join, join_chars, match_form, match_form_chars, string_of, trim, trim_chars, views_of};

verus! {

/// The text of an optional string; empty when there is none.
pub open spec fn opt_text(o: Option<String>) -> Seq<char> {
    match o {
        Some(s) => s@,
        None => seq![],
    }
}

/// What knowledge is matched against: the chapter title, plan, instruction,
/// selection and document joined by line breaks, in match form.
pub open spec fn request_query(input: AssembleContextInput) -> Seq<char> {
    match_form(
        join(
            seq![
                input.chapter_title@,
                input.chapter_plan@,
                opt_text(input.instruction),
                opt_text(input.selection),
                input.document_json@,
            ],
            "\n"@,
        ),
    )
}

fn opt_chars(o: &Option<String>) -> (r: Vec<char>)
    ensures
        r@ == opt_text(*o),
{
    match o {
        Some(s) => chars_of(s.as_str()),
        None => Vec::new(),
    }
}

fn request_query_of(input: &AssembleContextInput) -> (r: Vec<char>)
    ensures
        r@ == request_query(*input),
{
    let mut parts: Vec<Vec<char>> = Vec::new();
    parts.push(chars_of(input.chapter_title.as_str()));
    parts.push(chars_of(input.chapter_plan.as_str()));
    parts.push(opt_chars(&input.instruction));
    parts.push(opt_chars(&input.selection));
    parts.push(chars_of(input.document_json.as_str()));
    assert(views_of(parts@) =~= seq![
        input.chapter_title@,
        input.chapter_plan@,
        opt_text(input.instruction),
        opt_text(input.selection),
        input.document_json@,
    ]);
    let joined = join_chars(&parts, "\n");
    match_form_chars(&joined)
}

/// The full-text search query of a request: its instruction, or else the
/// chapter title, trimmed.
pub open spec fn search_query(input: AssembleContextInput) -> Seq<char> {
    trim(
        match input.instruction {
            Some(i) => i@,
            None => input.chapter_title@,
        },
    )
}

pub fn input_search_query(input: &AssembleContextInput) -> (r: String)
    ensures
        r@ == search_query(*input),
{
    let source = match &input.instruction {
        Some(i) => chars_of(i.as_str()),
        None => chars_of(input.chapter_title.as_str()),
    };
    string_of(&trim_chars(&source))
}

/// Entities, plans and manuscript text are task material; any other hit is
/// reference.
pub open spec fn hit_authority(object_type: Seq<char>) -> ContextAuthority {
    if object_type == "ENTITY"@ || object_type == "PLAN"@ || object_type == "MANUSCRIPT"@ {
        ContextAuthority::TaskMaterial
    } else {
        ContextAuthority::Reference
    }
}

/// A search hit as a keyword candidate: its snippet, its object, and its
/// source version or `search:current`.
pub open spec fn hit_spec(h: SearchResult, relevance: u16, method: RetrievalMethod) -> CandidateSpec {
    (
        ContextCandidateKind::Keyword,
        h.snippet@,
        h.object_id,
        match h.source_version {
            Some(v) => v@,
            None => "search:current"@,
        },
        method,
        hit_authority(h.object_type@),
        relevance,
    )
}

pub fn search_result_candidate(result: &SearchResult, relevance: u16, method: RetrievalMethod) -> (c: ContextCandidate)
    ensures
        built(c, hit_spec(*result, relevance, method)),
{
    let kind = chars_of(result.object_type.as_str());
    let authority = if eq_str(&kind, "ENTITY") || eq_str(&kind, "PLAN") || eq_str(&kind, "MANUSCRIPT") {
        ContextAuthority::TaskMaterial
    } else {
        ContextAuthority::Reference
    };
    let revision = match &result.source_version {
        Some(v) => chars_of(v.as_str()),
        None => chars_of("search:current"),
    };
    build_candidate(
        ContextCandidateKind::Keyword,
        chars_of(result.snippet.as_str()),
        result.object_id,
        revision,
        method,
        authority,
        relevance,
    )
}

/// The hits whose object is not already a structured candidate, in order,
/// as keyword candidates of relevance 5000.
pub open spec fn keyword_part(hits: Seq<SearchResult>, taken: Seq<RecordId>) -> Seq<CandidateSpec>
    decreases hits.len(),
{
    if hits.len() == 0 {
        seq![]
    } else {
        let rest = keyword_part(hits.drop_last(), taken);
        if taken.contains(hits.last().object_id) {
            rest
        } else {
            rest.push(hit_spec(hits.last(), 5000, RetrievalMethod::Keyword))
        }
    }
}

/// The structured candidates in section order: facts, current state,
/// entities, plot threads, summaries and events (events gain from the facts
/// chosen above them).
pub open spec fn structured_part(input: AssembleContextInput, k: ProjectKnowledge) -> Seq<CandidateSpec> {
    let q = request_query(input);
    let chosen = fact_order(q, k.facts@).map_values(|i: int| k.facts@[i].knowledge_id);
    fact_part(q, k.facts@) + state_part(q, k.world_state) + entity_part(q, k.entities@) + thread_part(
        q,
        input.chapter_id,
        k.foreshadowings@,
    ) + summary_part(q, input.chapter_id, k.summaries@) + event_part(q, chosen, k.events@)
}

/// Every candidate for a request: the structured ones, then the linked-object
/// hits and the query hits whose object none of them already covers.
pub open spec fn expected_candidates(input: AssembleContextInput, k: ProjectKnowledge) -> Seq<CandidateSpec> {
    let s = structured_part(input, k);
    s + keyword_part(k.object_hits@ + k.search_hits@, s.map_values(|c: CandidateSpec| c.2))
}

fn append_keyword_hits(
    out: &mut Vec<ContextCandidate>,
    taken: &Vec<RecordId>,
    hits: &Vec<SearchResult>,
    Ghost(done): Ghost<Seq<SearchResult>>,
    Ghost(expected): Ghost<Seq<CandidateSpec>>,
)
    requires
        all_built(old(out)@, expected + keyword_part(done, taken@)),
    ensures
        all_built(final(out)@, expected + keyword_part(done + hits@, taken@)),
{
    let mut i: usize = 0;
    assert(done + hits@.take(0) =~= done);
    while i < hits.len()
        invariant
            i <= hits.len(),
            all_built(out@, expected + keyword_part(done + hits@.take(i as int), taken@)),
        decreases hits.len() - i,
    {
        let ghost seen = done + hits@.take(i + 1);
        assert(seen.drop_last() =~= done + hits@.take(i as int));
        assert(seen.last() == hits@[i as int]);
        let h = &hits[i];
        if !contains_id(taken, h.object_id) {
            let c = search_result_candidate(h, 5000, RetrievalMethod::Keyword);
            let ghost before = out@;
            out.push(c);
            let ghost prior = expected + keyword_part(done + hits@.take(i as int), taken@);
            assert(expected + keyword_part(seen, taken@) =~= prior.push(hit_spec(*h, 5000, RetrievalMethod::Keyword)));
            assert(out@ == before.push(c));
            assert forall|j: int| 0 <= j < out@.len() implies #[trigger] built(
                out@[j],
                (expected + keyword_part(seen, taken@))[j],
            ) by {
                if j < before.len() {
                    assert(built(before[j], prior[j]));
                }
            }
        }
        i = i + 1;
    }
    assert(hits@.take(hits.len() as int) =~= hits@);
}

/// Gathers the context candidates for a writing request from a project's
/// knowledge: per section the most relevant items (earlier first on ties),
/// each with a relevance floor, then the search hits not already covered.
pub fn collect_context_candidates(input: &AssembleContextInput, knowledge: &ProjectKnowledge) -> (r: Vec<ContextCandidate>)
    ensures
        all_built(r@, expected_candidates(*input, *knowledge)),
{
    let query = request_query_of(input);
    let ghost q = query@;
    let (mut out, chosen) = fact_candidates(&query, &knowledge.facts);
    let ghost s1 = fact_part(q, knowledge.facts@);
    let mut part = state_candidates(&query, &knowledge.world_state);
    proof {
        lemma_all_built_append(out@, s1, part@, state_part(q, knowledge.world_state));
    }
    out.append(&mut part);
    let ghost s2 = s1 + state_part(q, knowledge.world_state);
    let mut part = entity_candidates(&query, &knowledge.entities);
    proof {
        lemma_all_built_append(out@, s2, part@, entity_part(q, knowledge.entities@));
    }
    out.append(&mut part);
    let ghost s3 = s2 + entity_part(q, knowledge.entities@);
    let mut part = thread_candidates(&query, input.chapter_id, &knowledge.foreshadowings);
    proof {
        lemma_all_built_append(out@, s3, part@, thread_part(q, input.chapter_id, knowledge.foreshadowings@));
    }
    out.append(&mut part);
    let ghost s4 = s3 + thread_part(q, input.chapter_id, knowledge.foreshadowings@);
    let mut part = summary_candidates(&query, input.chapter_id, &knowledge.summaries);
    proof {
        lemma_all_built_append(out@, s4, part@, summary_part(q, input.chapter_id, knowledge.summaries@));
    }
    out.append(&mut part);
    let ghost s5 = s4 + summary_part(q, input.chapter_id, knowledge.summaries@);
    let mut part = event_candidates(&query, &chosen, &knowledge.events);
    proof {
        lemma_all_built_append(out@, s5, part@, event_part(q, chosen@, knowledge.events@));
    }
    out.append(&mut part);
    let ghost structured = s5 + event_part(q, chosen@, knowledge.events@);
    assert(structured == structured_part(*input, *knowledge));
    let mut taken: Vec<RecordId> = Vec::new();
    let mut i: usize = 0;
    while i < out.len()
        invariant
            i <= out.len(),
            all_built(out@, structured),
            taken.len() == i,
            forall|j: int| 0 <= j < i ==> #[trigger] taken@[j] == structured[j].2,
        decreases out.len() - i,
    {
        assert(built(out@[i as int], structured[i as int]));
        taken.push(out[i].evidence.chunk.source_id);
        i = i + 1;
    }
    assert(taken@ =~= structured.map_values(|c: CandidateSpec| c.2));
    assert(structured + keyword_part(Seq::<SearchResult>::empty(), taken@) =~= structured);
    append_keyword_hits(&mut out, &taken, &knowledge.object_hits, Ghost(Seq::empty()), Ghost(structured));
    assert(Seq::<SearchResult>::empty() + knowledge.object_hits@ =~= knowledge.object_hits@);
    append_keyword_hits(&mut out, &taken, &knowledge.search_hits, Ghost(knowledge.object_hits@), Ghost(structured));
    out
}

proof fn lemma_keyword_fresh(hits: Seq<SearchResult>, taken: Seq<RecordId>)
    ensures
        forall|k: int| 0 <= k < keyword_part(hits, taken).len() ==> !taken.contains(#[trigger] keyword_part(hits, taken)[k].2),
        keyword_part(hits, taken).len() <= hits.len(),
    decreases hits.len(),
{
    if hits.len() > 0 {
        lemma_keyword_fresh(hits.drop_last(), taken);
    }
}

/// A search hit never repeats a source that a structured candidate already
/// covers.
pub proof fn hits_skip_covered_sources(input: AssembleContextInput, k: ProjectKnowledge)
    ensures
        forall|i: int, j: int|
            0 <= i < structured_part(input, k).len() && structured_part(input, k).len() <= j < expected_candidates(
                input,
                k,
            ).len() ==> (#[trigger] structured_part(input, k)[i]).2 != (#[trigger] expected_candidates(input, k)[j]).2,
{
    let s = structured_part(input, k);
    let taken = s.map_values(|c: CandidateSpec| c.2);
    let hits = k.object_hits@ + k.search_hits@;
    lemma_keyword_fresh(hits, taken);
    let all = expected_candidates(input, k);
    assert forall|i: int, j: int| 0 <= i < s.len() && s.len() <= j < all.len() implies (#[trigger] s[i]).2
        != (#[trigger] all[j]).2 by {
        assert(all[j] == keyword_part(hits, taken)[j - s.len()]);
        assert(taken[i] == s[i].2);
        if s[i].2 == all[j].2 {
            assert(taken.contains(s[i].2));
        }
    }
}

proof fn lemma_pick_order_len(scores: Seq<u32>, mask: Seq<bool>, k: nat)
    ensures
        pick_order(scores, mask, k).len() <= k,
    decreases k,
{
    if k > 0 {
        match crate::planning::select::best_among(scores, mask, crate::planning::select::full_mask(scores.len()), scores.len() as int) {
            None => {},
            Some(b) => {
                lemma_pick_order_len(scores, mask.update(b, true), (k - 1) as nat);
            },
        }
    }
}

/// Each section is capped: at most twelve facts, twelve state entries,
/// eight entities and six each of plot threads, summaries and events.
pub proof fn sections_are_capped(input: AssembleContextInput, k: ProjectKnowledge)
    ensures
        structured_part(input, k).len() <= 50,
{
    let q = request_query(input);
    let facts = k.facts@;
    lemma_pick_order_len(crate::candidates::sections::fact_scores(q, facts), crate::planning::select::empty_mask(facts.len()), 12);
    match k.world_state {
        Some(w) => {
            let sc = crate::candidates::sections::entry_scores(q, w.entries@);
            lemma_pick_order_len(sc, crate::planning::select::empty_mask(sc.len()), 12);
        },
        None => {},
    }
    let es = crate::candidates::sections::entity_scores(q, k.entities@);
    lemma_pick_order_len(es, crate::planning::select::empty_mask(es.len()), 8);
    let ts = k.foreshadowings@;
    let tk = crate::planning::select::set_indices(ts.map_values(|f: crate::candidates::knowledge::Foreshadowing| crate::candidates::filtered::thread_open(f)));
    let tsc = tk.map_values(|j: int| ts.map_values(|f: crate::candidates::knowledge::Foreshadowing| crate::candidates::filtered::thread_score(q, input.chapter_id, f) as u32)[j]);
    lemma_pick_order_len(tsc, crate::planning::select::empty_mask(tsc.len()), 6);
    let ss = k.summaries@;
    let sk = crate::planning::select::set_indices(ss.map_values(|x: crate::materials::SummaryMaterial| crate::candidates::filtered::summary_active(x)));
    let ssc = sk.map_values(|j: int| ss.map_values(|x: crate::materials::SummaryMaterial| crate::candidates::filtered::summary_score(q, input.chapter_id, x) as u32)[j]);
    lemma_pick_order_len(ssc, crate::planning::select::empty_mask(ssc.len()), 6);
    let chosen = crate::candidates::sections::fact_order(q, facts).map_values(|i: int| facts[i].knowledge_id);
    let vs = k.events@;
    let vk = crate::planning::select::set_indices(vs.map_values(|e: crate::candidates::knowledge::StoryEvent| e.lifecycle_status == crate::domain::KnowledgeLifecycleStatus::Active));
    let vsc = vk.map_values(|j: int| vs.map_values(|e: crate::candidates::knowledge::StoryEvent| crate::candidates::filtered::event_score(q, chosen, e) as u32)[j]);
    lemma_pick_order_len(vsc, crate::planning::select::empty_mask(vsc.len()), 6);
}

/// A section of at most `cap` candidates, each of the given kind, found by
/// structured retrieval, with relevance at least `min`.
pub open spec fn section_bounded(p: Seq<CandidateSpec>, kind: ContextCandidateKind, cap: nat, min: u16) -> bool {
    &&& p.len() <= cap
    &&& forall|i: int| 0 <= i < p.len() ==> (#[trigger] p[i]).0 == kind && p[i].4 == RetrievalMethod::Structured && p[i].6 >= min
}

proof fn lemma_keyword_kind(hits: Seq<SearchResult>, taken: Seq<RecordId>)
    ensures
        forall|j: int| 0 <= j < keyword_part(hits, taken).len() ==> (#[trigger] keyword_part(hits, taken)[j]).0
            == ContextCandidateKind::Keyword && keyword_part(hits, taken)[j].4 == RetrievalMethod::Keyword
            && keyword_part(hits, taken)[j].6 == 5000,
    decreases hits.len(),
{
    if hits.len() > 0 {
        lemma_keyword_kind(hits.drop_last(), taken);
    }
}

proof fn lemma_top_kept_len(keep: Seq<bool>, scores: Seq<u32>, k: nat)
    ensures
        crate::candidates::filtered::top_kept(keep, scores, k).len() <= k,
{
    let idx = crate::planning::select::set_indices(keep);
    let sc = idx.map_values(|j: int| scores[j]);
    lemma_pick_order_len(sc, crate::planning::select::empty_mask(sc.len()), k);
}

/// Each section keeps to its cap and its relevance floor: at most twelve
/// facts (relevance at least 7000), twelve current-state entries (6500),
/// eight entities (6000), six plot threads (5500), six summaries (4000) and
/// six events (3500), all found by structured retrieval; the sections come
/// in that order; and every candidate after them is a keyword candidate of
/// relevance 5000.
pub proof fn sections_keep_caps_and_floors(input: AssembleContextInput, k: ProjectKnowledge)
    ensures
        structured_part(input, k) == fact_part(request_query(input), k.facts@) + state_part(request_query(input), k.world_state)
            + entity_part(request_query(input), k.entities@) + thread_part(request_query(input), input.chapter_id, k.foreshadowings@)
            + summary_part(request_query(input), input.chapter_id, k.summaries@) + event_part(
            request_query(input),
            fact_order(request_query(input), k.facts@).map_values(|i: int| k.facts@[i].knowledge_id),
            k.events@,
        ),
        section_bounded(fact_part(request_query(input), k.facts@), ContextCandidateKind::AuthoritativeFact, 12, 7000),
        section_bounded(state_part(request_query(input), k.world_state), ContextCandidateKind::CurrentState, 12, 6500),
        section_bounded(entity_part(request_query(input), k.entities@), ContextCandidateKind::Entity, 8, 6000),
        section_bounded(
            thread_part(request_query(input), input.chapter_id, k.foreshadowings@),
            ContextCandidateKind::Foreshadowing,
            6,
            5500,
        ),
        section_bounded(summary_part(request_query(input), input.chapter_id, k.summaries@), ContextCandidateKind::Summary, 6, 4000),
        section_bounded(
            event_part(
                request_query(input),
                fact_order(request_query(input), k.facts@).map_values(|i: int| k.facts@[i].knowledge_id),
                k.events@,
            ),
            ContextCandidateKind::Event,
            6,
            3500,
        ),
        forall|j: int|
            structured_part(input, k).len() <= j < expected_candidates(input, k).len() ==> (#[trigger] expected_candidates(
                input,
                k,
            )[j]).0 == ContextCandidateKind::Keyword && expected_candidates(input, k)[j].4 == RetrievalMethod::Keyword
                && expected_candidates(input, k)[j].6 == 5000,
{
    let q = request_query(input);
    let facts = k.facts@;
    lemma_pick_order_len(crate::candidates::sections::fact_scores(q, facts), crate::planning::select::empty_mask(facts.len()), 12);
    match k.world_state {
        Some(w) => {
            let sc = crate::candidates::sections::entry_scores(q, w.entries@);
            lemma_pick_order_len(sc, crate::planning::select::empty_mask(sc.len()), 12);
        },
        None => {},
    }
    let es = crate::candidates::sections::entity_scores(q, k.entities@);
    lemma_pick_order_len(es, crate::planning::select::empty_mask(es.len()), 8);
    let ts = k.foreshadowings@;
    lemma_top_kept_len(
        ts.map_values(|f: crate::candidates::knowledge::Foreshadowing| crate::candidates::filtered::thread_open(f)),
        ts.map_values(|f: crate::candidates::knowledge::Foreshadowing| crate::candidates::filtered::thread_score(q, input.chapter_id, f) as u32),
        6,
    );
    let ss = k.summaries@;
    lemma_top_kept_len(
        ss.map_values(|x: crate::materials::SummaryMaterial| crate::candidates::filtered::summary_active(x)),
        ss.map_values(|x: crate::materials::SummaryMaterial| crate::candidates::filtered::summary_score(q, input.chapter_id, x) as u32),
        6,
    );
    let chosen = fact_order(q, facts).map_values(|i: int| facts[i].knowledge_id);
    let vs = k.events@;
    lemma_top_kept_len(
        vs.map_values(|e: crate::candidates::knowledge::StoryEvent| e.lifecycle_status == crate::domain::KnowledgeLifecycleStatus::Active),
        vs.map_values(|e: crate::candidates::knowledge::StoryEvent| crate::candidates::filtered::event_score(q, chosen, e) as u32),
        6,
    );
    let s = structured_part(input, k);
    let hits = k.object_hits@ + k.search_hits@;
    let taken = s.map_values(|c: CandidateSpec| c.2);
    lemma_keyword_kind(hits, taken);
    let all = expected_candidates(input, k);
    assert forall|j: int| s.len() <= j < all.len() implies (#[trigger] all[j]).0 == ContextCandidateKind::Keyword
        && all[j].4 == RetrievalMethod::Keyword && all[j].6 == 5000 by {
        assert(all[j] == keyword_part(hits, taken)[j - s.len()]);
    }
}

} // verus!
