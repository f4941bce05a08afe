//! Candidates from plot threads, summaries and events: the items still in
//! play, ranked by relevance plus their bonuses and cut to six.
use vstd::prelude::*;
use crate::application::assembly::sat16;
use crate::candidates::candidate::{
    all_built, build_candidate, built, floor, precision_text, summary_kind_label,
    summary_kind_text, summary_precision_label, versioned, versioned_of, CandidateSpec,
    ContextCandidate, ContextCandidateKind,
};
use crate::candidates::knowledge::{Foreshadowing, StoryEvent};
use crate::candidates::scoring::{lemma_best_score_bounds, relevance_of, score_values};
use crate::candidates::sections::top_k;
use crate::domain::{ContextAuthority, KnowledgeLifecycleStatus, RetrievalMethod};
use crate::ids::{uuid_hyphenated, RecordId};
use crate::materials::{SummaryKind, SummaryMaterial};
use crate::planning::select::{lemma_set_indices_range, pick_order_of, set_indices, set_indices_of};
use crate::text::{chars_of, eq_ignore_ascii_case, eq_ignore_ascii_case_str, eq_str, extend_chars, extend_str, trim, trim_chars};

verus! {

/// Of the items a mask keeps, the indices of the `k` best scores, best first,
/// earlier first on ties.
pub open spec fn top_kept(keep: Seq<bool>, scores: Seq<u32>, k: nat) -> Seq<int> {
    let idx = set_indices(keep);
    top_k(idx.map_values(|j: int| scores[j]), k).map_values(|t: int| idx[t])
}

/// The relevance of a single text.
pub open spec fn text_score(q: Seq<char>, text: Seq<char>) -> int {
    relevance_of(q, seq![text])
}

fn text_score_of(query: &Vec<char>, text: &String) -> (r: u16)
    ensures
        r == text_score(query@, text@),
        r <= 9000,
{
    let mut values: Vec<Vec<char>> = Vec::new();
    values.push(chars_of(text.as_str()));
    assert(values@.map_values(|v: Vec<char>| v@) =~= seq![text@]);
    proof {
        lemma_best_score_bounds(query@, seq![text@]);
    }
    score_values(query, &values)
}

/// The kept indices, their scores, and the best `k` of them.
fn rank_kept(keep: &Vec<bool>, scores: &Vec<u32>, k: usize) -> (r: Vec<usize>)
    requires
        keep.len() == scores.len(),
    ensures
        r@.map_values(|x: usize| x as int) == top_kept(keep@, scores@, k as nat),
        forall|j: int| 0 <= j < r.len() ==> #[trigger] r@[j] < scores.len(),
{
    let idx = set_indices_of(keep);
    let ghost ids = idx@.map_values(|x: usize| x as int);
    let mut kept_scores: Vec<u32> = Vec::new();
    let mut i: usize = 0;
    while i < idx.len()
        invariant
            i <= idx.len(),
            ids == idx@.map_values(|x: usize| x as int),
            ids == set_indices(keep@),
            forall|j: int| 0 <= j < idx.len() ==> #[trigger] idx@[j] < keep.len(),
            keep.len() == scores.len(),
            kept_scores.len() == i,
            forall|j: int| 0 <= j < i ==> #[trigger] kept_scores@[j] == scores@[ids[j]],
        decreases idx.len() - i,
    {
        kept_scores.push(scores[idx[i]]);
        i = i + 1;
    }
    assert(kept_scores@ =~= ids.map_values(|j: int| scores@[j]));
    let order = pick_order_of(&kept_scores, k);
    let mut r: Vec<usize> = Vec::new();
    let mut t: usize = 0;
    while t < order.len()
        invariant
            t <= order.len(),
            forall|j: int| 0 <= j < order.len() ==> #[trigger] order@[j] < idx.len(),
            forall|j: int| 0 <= j < idx.len() ==> #[trigger] idx@[j] < scores.len(),
            order@.map_values(|x: usize| x as int) == top_k(ids.map_values(|j: int| scores@[j]), k as nat),
            ids == idx@.map_values(|x: usize| x as int),
            r.len() == t,
            forall|j: int| 0 <= j < t ==> #[trigger] r@[j] == idx@[order@[j] as int],
        decreases order.len() - t,
    {
        r.push(idx[order[t]]);
        t = t + 1;
    }
    assert(r@.map_values(|x: usize| x as int) =~= top_kept(keep@, scores@, k as nat));
    r
}

// ---- plot threads ----

/// A plot thread is offered while active and not marked resolved.
pub open spec fn thread_open(f: Foreshadowing) -> bool {
    f.lifecycle_status == KnowledgeLifecycleStatus::Active && !eq_ignore_ascii_case(f.status@, "RESOLVED"@)
}

/// Title relevance, plus 3000 when the thread targets this chapter.
pub open spec fn thread_score(q: Seq<char>, chapter: RecordId, f: Foreshadowing) -> u16 {
    (text_score(q, f.title@) + if f.target_chapter_id == Some(chapter) {
        3000int
    } else {
        0int
    }) as u16
}

pub open spec fn thread_spec(q: Seq<char>, chapter: RecordId, f: Foreshadowing) -> CandidateSpec {
    (
        ContextCandidateKind::Foreshadowing,
        "未回收伏笔："@ + f.title@ + "（"@ + f.status@ + "）"@,
        f.id,
        versioned("foreshadowing:"@, f.id, f.foreshadowing_version as nat),
        RetrievalMethod::Structured,
        ContextAuthority::TaskMaterial,
        floor(thread_score(q, chapter, f), 5500),
    )
}

/// Plot-thread candidates: the six most relevant open threads, relevance at
/// least 5500.
pub open spec fn thread_part(q: Seq<char>, chapter: RecordId, items: Seq<Foreshadowing>) -> Seq<CandidateSpec> {
    top_kept(
        items.map_values(|f: Foreshadowing| thread_open(f)),
        items.map_values(|f: Foreshadowing| thread_score(q, chapter, f) as u32),
        6,
    ).map_values(|i: int| thread_spec(q, chapter, items[i]))
}

fn thread_score_of(query: &Vec<char>, chapter: RecordId, f: &Foreshadowing) -> (r: u16)
    ensures
        r == thread_score(query@, chapter, *f),
{
    let s = text_score_of(query, &f.title);
    let bonus: u16 = match f.target_chapter_id {
        Some(t) => if t == chapter {
            3000
        } else {
            0
        },
        None => 0,
    };
    s + bonus
}

pub fn thread_candidates(query: &Vec<char>, chapter: RecordId, items: &Vec<Foreshadowing>) -> (r: Vec<ContextCandidate>)
    ensures
        all_built(r@, thread_part(query@, chapter, items@)),
{
    let mut keep: Vec<bool> = Vec::new();
    let mut scores: Vec<u32> = Vec::new();
    let mut i: usize = 0;
    while i < items.len()
        invariant
            i <= items.len(),
            keep.len() == i,
            scores.len() == i,
            forall|j: int| 0 <= j < i ==> #[trigger] keep@[j] == thread_open(items@[j]),
            forall|j: int| 0 <= j < i ==> #[trigger] scores@[j] == thread_score(query@, chapter, items@[j]) as u32,
        decreases items.len() - i,
    {
        let f = &items[i];
        let open = f.lifecycle_status == KnowledgeLifecycleStatus::Active && !eq_ignore_ascii_case_str(
            f.status.as_str(),
            "RESOLVED",
        );
        keep.push(open);
        scores.push(thread_score_of(query, chapter, f) as u32);
        i = i + 1;
    }
    assert(keep@ =~= items@.map_values(|f: Foreshadowing| thread_open(f)));
    assert(scores@ =~= items@.map_values(|f: Foreshadowing| thread_score(query@, chapter, f) as u32));
    let order = rank_kept(&keep, &scores, 6);
    let mut out: Vec<ContextCandidate> = Vec::new();
    let mut t: usize = 0;
    while t < order.len()
        invariant
            t <= order.len(),
            forall|j: int| 0 <= j < order.len() ==> #[trigger] order@[j] < items.len(),
            out.len() == t,
            forall|j: int| 0 <= j < t ==> #[trigger] built(out@[j], thread_spec(query@, chapter, items@[order@[j] as int])),
        decreases order.len() - t,
    {
        let f = &items[order[t]];
        let s = thread_score_of(query, chapter, f);
        let relevance: u16 = if s > 5500 {
            s
        } else {
            5500
        };
        let mut content = chars_of("未回收伏笔：");
        extend_str(&mut content, f.title.as_str());
        extend_str(&mut content, "（");
        extend_str(&mut content, f.status.as_str());
        extend_str(&mut content, "）");
        let c = build_candidate(
            ContextCandidateKind::Foreshadowing,
            content,
            f.id,
            versioned_of("foreshadowing:", f.id, f.foreshadowing_version),
            RetrievalMethod::Structured,
            ContextAuthority::TaskMaterial,
            relevance,
        );
        out.push(c);
        t = t + 1;
    }
    out
}

// ---- summaries ----

/// A summary is offered while its lifecycle status is `ACTIVE`.
pub open spec fn summary_active(s: SummaryMaterial) -> bool {
    s.lifecycle_status@ == "ACTIVE"@
}

/// Content relevance, plus 5000 for a summary of this chapter and 2000 for a
/// setting summary.
pub open spec fn summary_score(q: Seq<char>, chapter: RecordId, s: SummaryMaterial) -> u16 {
    (text_score(q, s.content@) + (if s.source_id == Some(chapter) {
        5000int
    } else {
        0int
    }) + (if s.kind == SummaryKind::Setting {
        2000int
    } else {
        0int
    })) as u16
}

/// The summary's source version, or `summary:<id>`.
pub open spec fn summary_revision(s: SummaryMaterial) -> Seq<char> {
    match s.source_version {
        Some(v) => v@,
        None => "summary:"@ + uuid_hyphenated(s.id.value),
    }
}

pub open spec fn summary_spec(q: Seq<char>, chapter: RecordId, s: SummaryMaterial) -> CandidateSpec {
    (
        ContextCandidateKind::Summary,
        precision_text(s.precision) + " "@ + summary_kind_text(s.kind) + "摘要："@ + trim(s.content@),
        s.id,
        summary_revision(s),
        RetrievalMethod::Structured,
        ContextAuthority::Reference,
        floor(summary_score(q, chapter, s), 4000),
    )
}

/// Summary candidates: the six most relevant active summaries, relevance at
/// least 4000.
pub open spec fn summary_part(q: Seq<char>, chapter: RecordId, items: Seq<SummaryMaterial>) -> Seq<CandidateSpec> {
    top_kept(
        items.map_values(|s: SummaryMaterial| summary_active(s)),
        items.map_values(|s: SummaryMaterial| summary_score(q, chapter, s) as u32),
        6,
    ).map_values(|i: int| summary_spec(q, chapter, items[i]))
}

fn summary_score_of(query: &Vec<char>, chapter: RecordId, s: &SummaryMaterial) -> (r: u16)
    ensures
        r == summary_score(query@, chapter, *s),
{
    let base = text_score_of(query, &s.content);
    let own: u16 = match s.source_id {
        Some(id) => if id == chapter {
            5000
        } else {
            0
        },
        None => 0,
    };
    let setting: u16 = if s.kind == SummaryKind::Setting {
        2000
    } else {
        0
    };
    base + own + setting
}

pub fn summary_candidates(query: &Vec<char>, chapter: RecordId, items: &Vec<SummaryMaterial>) -> (r: Vec<ContextCandidate>)
    ensures
        all_built(r@, summary_part(query@, chapter, items@)),
{
    let mut keep: Vec<bool> = Vec::new();
    let mut scores: Vec<u32> = Vec::new();
    let mut i: usize = 0;
    while i < items.len()
        invariant
            i <= items.len(),
            keep.len() == i,
            scores.len() == i,
            forall|j: int| 0 <= j < i ==> #[trigger] keep@[j] == summary_active(items@[j]),
            forall|j: int| 0 <= j < i ==> #[trigger] scores@[j] == summary_score(query@, chapter, items@[j]) as u32,
        decreases items.len() - i,
    {
        let s = &items[i];
        keep.push(eq_str(&chars_of(s.lifecycle_status.as_str()), "ACTIVE"));
        scores.push(summary_score_of(query, chapter, s) as u32);
        i = i + 1;
    }
    assert(keep@ =~= items@.map_values(|s: SummaryMaterial| summary_active(s)));
    assert(scores@ =~= items@.map_values(|s: SummaryMaterial| summary_score(query@, chapter, s) as u32));
    let order = rank_kept(&keep, &scores, 6);
    let mut out: Vec<ContextCandidate> = Vec::new();
    let mut t: usize = 0;
    while t < order.len()
        invariant
            t <= order.len(),
            forall|j: int| 0 <= j < order.len() ==> #[trigger] order@[j] < items.len(),
            out.len() == t,
            forall|j: int| 0 <= j < t ==> #[trigger] built(out@[j], summary_spec(query@, chapter, items@[order@[j] as int])),
        decreases order.len() - t,
    {
        let s = &items[order[t]];
        let score = summary_score_of(query, chapter, s);
        let relevance: u16 = if score > 4000 {
            score
        } else {
            4000
        };
        let mut content = chars_of(summary_precision_label(s.precision));
        extend_str(&mut content, " ");
        extend_str(&mut content, summary_kind_label(s.kind));
        extend_str(&mut content, "摘要：");
        extend_chars(&mut content, &trim_chars(&chars_of(s.content.as_str())));
        let revision = match &s.source_version {
            Some(v) => chars_of(v.as_str()),
            None => {
                let mut r = chars_of("summary:");
                extend_str(&mut r, s.id.to_text().as_str());
                r
            },
        };
        let c = build_candidate(
            ContextCandidateKind::Summary,
            content,
            s.id,
            revision,
            RetrievalMethod::Structured,
            ContextAuthority::Reference,
            relevance,
        );
        out.push(c);
        t = t + 1;
    }
    out
}

// ---- events ----

/// How many of an event's participant facts were chosen as fact candidates
/// (each listed participant counted).
pub open spec fn participant_hits(selected: Seq<RecordId>, ids: Seq<RecordId>) -> nat
    decreases ids.len(),
{
    if ids.len() == 0 {
        0
    } else {
        participant_hits(selected, ids.drop_last()) + if selected.contains(ids.last()) {
            1nat
        } else {
            0nat
        }
    }
}

/// Name relevance plus 1500 per chosen participant fact, saturating.
pub open spec fn event_score(q: Seq<char>, selected: Seq<RecordId>, e: StoryEvent) -> u16 {
    sat16(text_score(q, e.name@) + sat16((participant_hits(selected, e.participant_fact_ids@) * 1500) as int) as int)
}

pub open spec fn event_spec(q: Seq<char>, selected: Seq<RecordId>, e: StoryEvent) -> CandidateSpec {
    (
        ContextCandidateKind::Event,
        "事件（"@ + e.occurred_at@ + "）："@ + e.name@,
        e.id,
        versioned("event:"@, e.id, e.event_version as nat),
        RetrievalMethod::Structured,
        ContextAuthority::Reference,
        floor(event_score(q, selected, e), 3500),
    )
}

/// Event candidates: the six most relevant active events, relevance at least
/// 3500.
pub open spec fn event_part(q: Seq<char>, selected: Seq<RecordId>, items: Seq<StoryEvent>) -> Seq<CandidateSpec> {
    top_kept(
        items.map_values(|e: StoryEvent| e.lifecycle_status == KnowledgeLifecycleStatus::Active),
        items.map_values(|e: StoryEvent| event_score(q, selected, e) as u32),
        6,
    ).map_values(|i: int| event_spec(q, selected, items[i]))
}

/// Whether an identifier is in a list.
pub fn contains_id(ids: &Vec<RecordId>, id: RecordId) -> (r: bool)
    ensures
        r == ids@.contains(id),
{
    let mut i: usize = 0;
    while i < ids.len()
        invariant
            i <= ids.len(),
            forall|j: int| 0 <= j < i ==> ids@[j] != id,
        decreases ids.len() - i,
    {
        if ids[i] == id {
            assert(ids@[i as int] == id);
            return true;
        }
        i = i + 1;
    }
    false
}

fn event_score_of(query: &Vec<char>, selected: &Vec<RecordId>, e: &StoryEvent) -> (r: u16)
    ensures
        r == event_score(query@, selected@, *e),
{
    let ids = &e.participant_fact_ids;
    let mut hits: usize = 0;
    let mut i: usize = 0;
    while i < ids.len()
        invariant
            i <= ids.len(),
            hits == participant_hits(selected@, ids@.take(i as int)),
            hits <= i,
        decreases ids.len() - i,
    {
        assert(ids@.take(i + 1).drop_last() =~= ids@.take(i as int));
        if contains_id(selected, ids[i]) {
            hits = hits + 1;
        }
        i = i + 1;
    }
    assert(ids@.take(ids.len() as int) =~= ids@);
    let bonus: u16 = if hits > 43 {
        65535
    } else {
        (hits * 1500) as u16
    };
    let base = text_score_of(query, &e.name);
    let total: u32 = base as u32 + bonus as u32;
    if total > 65535 {
        65535
    } else {
        total as u16
    }
}

pub fn event_candidates(query: &Vec<char>, selected: &Vec<RecordId>, items: &Vec<StoryEvent>) -> (r: Vec<ContextCandidate>)
    ensures
        all_built(r@, event_part(query@, selected@, items@)),
{
    let mut keep: Vec<bool> = Vec::new();
    let mut scores: Vec<u32> = Vec::new();
    let mut i: usize = 0;
    while i < items.len()
        invariant
            i <= items.len(),
            keep.len() == i,
            scores.len() == i,
            forall|j: int| 0 <= j < i ==> #[trigger] keep@[j] == (items@[j].lifecycle_status == KnowledgeLifecycleStatus::Active),
            forall|j: int| 0 <= j < i ==> #[trigger] scores@[j] == event_score(query@, selected@, items@[j]) as u32,
        decreases items.len() - i,
    {
        let e = &items[i];
        keep.push(e.lifecycle_status == KnowledgeLifecycleStatus::Active);
        scores.push(event_score_of(query, selected, e) as u32);
        i = i + 1;
    }
    assert(keep@ =~= items@.map_values(|e: StoryEvent| e.lifecycle_status == KnowledgeLifecycleStatus::Active));
    assert(scores@ =~= items@.map_values(|e: StoryEvent| event_score(query@, selected@, e) as u32));
    let order = rank_kept(&keep, &scores, 6);
    let mut out: Vec<ContextCandidate> = Vec::new();
    let mut t: usize = 0;
    while t < order.len()
        invariant
            t <= order.len(),
            forall|j: int| 0 <= j < order.len() ==> #[trigger] order@[j] < items.len(),
            out.len() == t,
            forall|j: int| 0 <= j < t ==> #[trigger] built(out@[j], event_spec(query@, selected@, items@[order@[j] as int])),
        decreases order.len() - t,
    {
        let e = &items[order[t]];
        let score = event_score_of(query, selected, e);
        let relevance: u16 = if score > 3500 {
            score
        } else {
            3500
        };
        let mut content = chars_of("事件（");
        extend_str(&mut content, e.occurred_at.as_str());
        extend_str(&mut content, "）：");
        extend_str(&mut content, e.name.as_str());
        let c = build_candidate(
            ContextCandidateKind::Event,
            content,
            e.id,
            versioned_of("event:", e.id, e.event_version),
            RetrievalMethod::Structured,
            ContextAuthority::Reference,
            relevance,
        );
        out.push(c);
        t = t + 1;
    }
    out
}

} // verus!
