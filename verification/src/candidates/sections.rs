//! Candidates from facts, the world state and entities: each ranked by
//! relevance (earlier items first on ties) and cut to a fixed count.
use vstd::prelude::*;
use crate::candidates::candidate::{all_built, build_candidate, built, entity_type_label, entity_type_text, floor, versioned, versioned_of, CandidateSpec, ContextCandidate, ContextCandidateKind};
use crate::candidates::knowledge::{EntitySnapshot, WorldState, WorldStateEntry};
use crate::candidates::scoring::{lemma_best_score_bounds, relevance_of, score_values};
use crate::domain::{ContextAuthority, Fact, RetrievalMethod};
use crate::ids::uuid_hyphenated;
use crate::planning::select::{empty_mask, pick_order, pick_order_of};
use crate::text::{chars_of, eq_str, extend_chars, extend_str, join, join_chars, push_signed_decimal, signed_decimal, trim, trim_chars, views_of};

verus! {

/// The indices of the `k` best scores, best first, earlier first on ties.
pub open spec fn top_k(scores: Seq<u32>, k: nat) -> Seq<int> {
    pick_order(scores, empty_mask(scores.len()), k)
}

/// `subject predicate object`.
pub open spec fn triple(a: Seq<char>, b: Seq<char>, c: Seq<char>) -> Seq<char> {
    a + " "@ + b + " "@ + c
}

fn triple_of(a: &String, b: &String, c: &String) -> (r: Vec<char>)
    ensures
        r@ == triple(a@, b@, c@),
{
    let mut r = chars_of(a.as_str());
    extend_str(&mut r, " ");
    extend_str(&mut r, b.as_str());
    extend_str(&mut r, " ");
    extend_str(&mut r, c.as_str());
    r
}

/// The relevance of a subject-predicate-object triple.
pub open spec fn triple_score(q: Seq<char>, a: Seq<char>, b: Seq<char>, c: Seq<char>) -> u16 {
    relevance_of(q, seq![a, b, c]) as u16
}

fn triple_score_of(query: &Vec<char>, a: &String, b: &String, c: &String) -> (r: u16)
    ensures
        r == triple_score(query@, a@, b@, c@),
{
    let mut values: Vec<Vec<char>> = Vec::new();
    values.push(chars_of(a.as_str()));
    values.push(chars_of(b.as_str()));
    values.push(chars_of(c.as_str()));
    assert(values@.map_values(|v: Vec<char>| v@) =~= seq![a@, b@, c@]);
    proof {
        lemma_best_score_bounds(query@, seq![a@, b@, c@]);
    }
    score_values(query, &values)
}

// ---- facts ----

pub open spec fn fact_score(q: Seq<char>, f: Fact) -> u16 {
    triple_score(q, f.subject@, f.predicate@, f.object@)
}

pub open spec fn fact_scores(q: Seq<char>, facts: Seq<Fact>) -> Seq<u32> {
    facts.map_values(|f: Fact| fact_score(q, f) as u32)
}

/// The twelve most relevant facts.
pub open spec fn fact_order(q: Seq<char>, facts: Seq<Fact>) -> Seq<int> {
    top_k(fact_scores(q, facts), 12)
}

pub open spec fn fact_spec(q: Seq<char>, f: Fact) -> CandidateSpec {
    (
        ContextCandidateKind::AuthoritativeFact,
        triple(f.subject@, f.predicate@, f.object@),
        f.knowledge_id,
        versioned("fact:"@, f.knowledge_id, f.knowledge_version as nat),
        RetrievalMethod::Structured,
        ContextAuthority::AuthoritativeFact,
        floor(fact_score(q, f), 7000),
    )
}

/// Fact candidates: the twelve most relevant facts, relevance at least 7000.
pub open spec fn fact_part(q: Seq<char>, facts: Seq<Fact>) -> Seq<CandidateSpec> {
    fact_order(q, facts).map_values(|i: int| fact_spec(q, facts[i]))
}

/// The fact candidates and the ids of the facts chosen.
pub fn fact_candidates(query: &Vec<char>, facts: &Vec<Fact>) -> (r: (Vec<ContextCandidate>, Vec<crate::ids::RecordId>))
    ensures
        all_built(r.0@, fact_part(query@, facts@)),
        r.1@ == fact_order(query@, facts@).map_values(|i: int| facts@[i].knowledge_id),
{
    let mut scores: Vec<u32> = Vec::new();
    let mut i: usize = 0;
    while i < facts.len()
        invariant
            i <= facts.len(),
            scores.len() == i,
            forall|j: int| 0 <= j < i ==> #[trigger] scores@[j] == fact_score(query@, facts@[j]) as u32,
        decreases facts.len() - i,
    {
        let f = &facts[i];
        let s = triple_score_of(query, &f.subject, &f.predicate, &f.object);
        scores.push(s as u32);
        i = i + 1;
    }
    assert(scores@ =~= fact_scores(query@, facts@));
    let order = pick_order_of(&scores, 12);
    let ghost ord = order@.map_values(|x: usize| x as int);
    let mut out: Vec<ContextCandidate> = Vec::new();
    let mut ids: Vec<crate::ids::RecordId> = Vec::new();
    let mut t: usize = 0;
    while t < order.len()
        invariant
            t <= order.len(),
            ord == order@.map_values(|x: usize| x as int),
            ord == fact_order(query@, facts@),
            forall|j: int| 0 <= j < order.len() ==> #[trigger] order@[j] < facts.len(),
            out.len() == t,
            ids.len() == t,
            forall|j: int| 0 <= j < t ==> #[trigger] built(out@[j], fact_spec(query@, facts@[ord[j]])),
            forall|j: int| 0 <= j < t ==> #[trigger] ids@[j] == facts@[ord[j]].knowledge_id,
        decreases order.len() - t,
    {
        let f = &facts[order[t]];
        let s = triple_score_of(query, &f.subject, &f.predicate, &f.object);
        let relevance: u16 = if s > 7000 {
            s
        } else {
            7000
        };
        let c = build_candidate(
            ContextCandidateKind::AuthoritativeFact,
            triple_of(&f.subject, &f.predicate, &f.object),
            f.knowledge_id,
            versioned_of("fact:", f.knowledge_id, f.knowledge_version),
            RetrievalMethod::Structured,
            ContextAuthority::AuthoritativeFact,
            relevance,
        );
        out.push(c);
        ids.push(f.knowledge_id);
        t = t + 1;
    }
    assert(ids@ =~= fact_order(query@, facts@).map_values(|i: int| facts@[i].knowledge_id));
    (out, ids)
}

// ---- world state ----

pub open spec fn entry_score(q: Seq<char>, e: WorldStateEntry) -> u16 {
    triple_score(q, e.subject@, e.predicate@, e.object@)
}

pub open spec fn entry_scores(q: Seq<char>, entries: Seq<WorldStateEntry>) -> Seq<u32> {
    entries.map_values(|e: WorldStateEntry| entry_score(q, e) as u32)
}

/// `world-state:<snapshot>:fact:<fact>:v<version>`.
pub open spec fn state_revision(ws: crate::ids::RecordId, e: WorldStateEntry) -> Seq<char> {
    "world-state:"@ + uuid_hyphenated(ws.value) + versioned(":fact:"@, e.fact_knowledge_id, e.fact_version as nat)
}

pub open spec fn entry_spec(q: Seq<char>, ws: crate::ids::RecordId, e: WorldStateEntry) -> CandidateSpec {
    (
        ContextCandidateKind::CurrentState,
        triple(e.subject@, e.predicate@, e.object@),
        e.fact_knowledge_id,
        state_revision(ws, e),
        RetrievalMethod::Structured,
        ContextAuthority::TaskMaterial,
        floor(entry_score(q, e), 6500),
    )
}

/// Current-state candidates: the twelve most relevant entries of the latest
/// world state, relevance at least 6500.
pub open spec fn state_part(q: Seq<char>, ws: Option<WorldState>) -> Seq<CandidateSpec> {
    match ws {
        None => seq![],
        Some(w) => top_k(entry_scores(q, w.entries@), 12).map_values(|i: int| entry_spec(q, w.id, w.entries@[i])),
    }
}

pub fn state_candidates(query: &Vec<char>, ws: &Option<WorldState>) -> (r: Vec<ContextCandidate>)
    ensures
        all_built(r@, state_part(query@, *ws)),
{
    let mut out: Vec<ContextCandidate> = Vec::new();
    match ws {
        None => {
            return out;
        },
        Some(w) => {
            let entries = &w.entries;
            let mut scores: Vec<u32> = Vec::new();
            let mut i: usize = 0;
            while i < entries.len()
                invariant
                    i <= entries.len(),
                    scores.len() == i,
                    forall|j: int| 0 <= j < i ==> #[trigger] scores@[j] == entry_score(query@, entries@[j]) as u32,
                decreases entries.len() - i,
            {
                let e = &entries[i];
                let s = triple_score_of(query, &e.subject, &e.predicate, &e.object);
                scores.push(s as u32);
                i = i + 1;
            }
            assert(scores@ =~= entry_scores(query@, entries@));
            let order = pick_order_of(&scores, 12);
            let ghost ord = order@.map_values(|x: usize| x as int);
            let mut t: usize = 0;
            while t < order.len()
                invariant
                    t <= order.len(),
                    ord == order@.map_values(|x: usize| x as int),
                    ord == top_k(entry_scores(query@, entries@), 12),
                    forall|j: int| 0 <= j < order.len() ==> #[trigger] order@[j] < entries.len(),
                    out.len() == t,
                    forall|j: int| 0 <= j < t ==> #[trigger] built(out@[j], entry_spec(query@, w.id, entries@[ord[j]])),
                decreases order.len() - t,
            {
                let e = &entries[order[t]];
                let s = triple_score_of(query, &e.subject, &e.predicate, &e.object);
                let relevance: u16 = if s > 6500 {
                    s
                } else {
                    6500
                };
                let mut revision = chars_of("world-state:");
                extend_str(&mut revision, w.id.to_text().as_str());
                extend_chars(&mut revision, &versioned_of(":fact:", e.fact_knowledge_id, e.fact_version));
                let c = build_candidate(
                    ContextCandidateKind::CurrentState,
                    triple_of(&e.subject, &e.predicate, &e.object),
                    e.fact_knowledge_id,
                    revision,
                    RetrievalMethod::Structured,
                    ContextAuthority::TaskMaterial,
                    relevance,
                );
                out.push(c);
                t = t + 1;
            }
            out
        },
    }
}

// ---- entities ----

/// The views of a list of strings.
pub open spec fn strings_seq(v: Seq<String>) -> Seq<Seq<char>> {
    v.map_values(|s: String| s@)
}

/// The best relevance among an entity's name, its aliases and its description.
pub open spec fn entity_score(q: Seq<char>, e: EntitySnapshot) -> u16 {
    let a = relevance_of(q, seq![e.revision.name@]);
    let b = relevance_of(q, strings_seq(e.revision.aliases@));
    let c = relevance_of(q, seq![e.revision.description@]);
    let ab = if a > b {
        a
    } else {
        b
    };
    (if ab > c {
        ab
    } else {
        c
    }) as u16
}

pub open spec fn entity_scores(q: Seq<char>, items: Seq<EntitySnapshot>) -> Seq<u32> {
    items.map_values(|e: EntitySnapshot| entity_score(q, e) as u32)
}

/// `name（type）：description`, then the aliases and the fixed attributes when
/// there are any.
pub open spec fn entity_content(e: EntitySnapshot) -> Seq<char> {
    let r = e.revision;
    let fixed = trim(r.fixed_attributes_json@);
    r.name@ + "（"@ + entity_type_text(e.entity.entity_type) + "）："@ + trim(r.description@) + (if r.aliases.len() > 0 {
        "\n别名："@ + join(strings_seq(r.aliases@), "、"@)
    } else {
        seq![]
    }) + (if fixed != "{}"@ {
        "\n固定属性："@ + fixed
    } else {
        seq![]
    })
}

/// The revision's source version, or `entity:<id>:r<revision>`.
pub open spec fn entity_revision_text(e: EntitySnapshot) -> Seq<char> {
    match e.revision.source_version {
        Some(v) => v@,
        None => "entity:"@ + uuid_hyphenated(e.entity.id.value) + ":r"@ + signed_decimal(e.revision.revision as int),
    }
}

pub open spec fn entity_spec(q: Seq<char>, e: EntitySnapshot) -> CandidateSpec {
    (
        ContextCandidateKind::Entity,
        entity_content(e),
        e.entity.id,
        entity_revision_text(e),
        RetrievalMethod::Structured,
        ContextAuthority::TaskMaterial,
        floor(entity_score(q, e), 6000),
    )
}

/// Entity candidates: the eight most relevant entities, relevance at least
/// 6000.
pub open spec fn entity_part(q: Seq<char>, items: Seq<EntitySnapshot>) -> Seq<CandidateSpec> {
    top_k(entity_scores(q, items), 8).map_values(|i: int| entity_spec(q, items[i]))
}

fn string_chars(v: &Vec<String>) -> (r: Vec<Vec<char>>)
    ensures
        views_of(r@) == strings_seq(v@),
{
    let mut r: Vec<Vec<char>> = Vec::new();
    let mut i: usize = 0;
    while i < v.len()
        invariant
            i <= v.len(),
            views_of(r@) == strings_seq(v@.take(i as int)),
        decreases v.len() - i,
    {
        let c = chars_of(v[i].as_str());
        let ghost before = r@;
        r.push(c);
        assert(r@ == before.push(c));
        assert(views_of(r@) =~= views_of(before).push(v@[i as int]@));
        assert(v@.take(i + 1) =~= v@.take(i as int).push(v@[i as int]));
        i = i + 1;
        assert(views_of(r@) =~= strings_seq(v@.take(i as int)));
    }
    assert(v@.take(v.len() as int) =~= v@);
    r
}

fn entity_score_of(query: &Vec<char>, e: &EntitySnapshot) -> (r: u16)
    ensures
        r == entity_score(query@, *e),
{
    let mut name: Vec<Vec<char>> = Vec::new();
    name.push(chars_of(e.revision.name.as_str()));
    assert(name@.map_values(|v: Vec<char>| v@) =~= seq![e.revision.name@]);
    let aliases = string_chars(&e.revision.aliases);
    assert(aliases@.map_values(|v: Vec<char>| v@) =~= strings_seq(e.revision.aliases@));
    let mut description: Vec<Vec<char>> = Vec::new();
    description.push(chars_of(e.revision.description.as_str()));
    assert(description@.map_values(|v: Vec<char>| v@) =~= seq![e.revision.description@]);
    proof {
        lemma_best_score_bounds(query@, seq![e.revision.name@]);
        lemma_best_score_bounds(query@, strings_seq(e.revision.aliases@));
        lemma_best_score_bounds(query@, seq![e.revision.description@]);
    }
    let a = score_values(query, &name);
    let b = score_values(query, &aliases);
    let c = score_values(query, &description);
    let ab = if a > b {
        a
    } else {
        b
    };
    if ab > c {
        ab
    } else {
        c
    }
}

fn entity_content_of(e: &EntitySnapshot) -> (r: Vec<char>)
    ensures
        r@ == entity_content(*e),
{
    let rev = &e.revision;
    let mut out = chars_of(rev.name.as_str());
    extend_str(&mut out, "（");
    extend_str(&mut out, entity_type_label(e.entity.entity_type));
    extend_str(&mut out, "）：");
    extend_chars(&mut out, &trim_chars(&chars_of(rev.description.as_str())));
    let ghost head = out@;
    if rev.aliases.len() > 0 {
        extend_str(&mut out, "\n别名：");
        extend_chars(&mut out, &join_chars(&string_chars(&rev.aliases), "、"));
    }
    let ghost mid = out@;
    let fixed = trim_chars(&chars_of(rev.fixed_attributes_json.as_str()));
    if !eq_str(&fixed, "{}") {
        extend_str(&mut out, "\n固定属性：");
        extend_chars(&mut out, &fixed);
    }
    assert(out@ =~= entity_content(*e));
    out
}

fn entity_revision_of(e: &EntitySnapshot) -> (r: Vec<char>)
    ensures
        r@ == entity_revision_text(*e),
{
    match &e.revision.source_version {
        Some(v) => chars_of(v.as_str()),
        None => {
            let mut r = chars_of("entity:");
            extend_str(&mut r, e.entity.id.to_text().as_str());
            extend_str(&mut r, ":r");
            push_signed_decimal(&mut r, e.revision.revision);
            r
        },
    }
}

pub fn entity_candidates(query: &Vec<char>, items: &Vec<EntitySnapshot>) -> (r: Vec<ContextCandidate>)
    ensures
        all_built(r@, entity_part(query@, items@)),
{
    let mut scores: Vec<u32> = Vec::new();
    let mut i: usize = 0;
    while i < items.len()
        invariant
            i <= items.len(),
            scores.len() == i,
            forall|j: int| 0 <= j < i ==> #[trigger] scores@[j] == entity_score(query@, items@[j]) as u32,
        decreases items.len() - i,
    {
        let s = entity_score_of(query, &items[i]);
        scores.push(s as u32);
        i = i + 1;
    }
    assert(scores@ =~= entity_scores(query@, items@));
    let order = pick_order_of(&scores, 8);
    let ghost ord = order@.map_values(|x: usize| x as int);
    let mut out: Vec<ContextCandidate> = Vec::new();
    let mut t: usize = 0;
    while t < order.len()
        invariant
            t <= order.len(),
            ord == order@.map_values(|x: usize| x as int),
            ord == top_k(entity_scores(query@, items@), 8),
            forall|j: int| 0 <= j < order.len() ==> #[trigger] order@[j] < items.len(),
            out.len() == t,
            forall|j: int| 0 <= j < t ==> #[trigger] built(out@[j], entity_spec(query@, items@[ord[j]])),
        decreases order.len() - t,
    {
        let e = &items[order[t]];
        let s = entity_score_of(query, e);
        let relevance: u16 = if s > 6000 {
            s
        } else {
            6000
        };
        let c = build_candidate(
            ContextCandidateKind::Entity,
            entity_content_of(e),
            e.entity.id,
            entity_revision_of(e),
            RetrievalMethod::Structured,
            ContextAuthority::TaskMaterial,
            relevance,
        );
        out.push(c);
        t = t + 1;
    }
    out
}

} // verus!
