//! Selection after a ranking the caller computed from scores this library
//! does not hold (semantic similarities): sections, reference blocks and
//! evidence chunks are taken in the given rank order, then rendered within
//! the budget.
use vstd::prelude::*;
use crate::planning::blocks::{
    PlanningBlock, blocks_view, parse_project_context, parse_reference_context, project_blocks,
    reference_blocks, section_chunks, section_chunks_of,
};
use crate::text::{chars_of, decimal, extend_chars, extend_str, join, join_chars, push_decimal, string_of, views_of};
use crate::planning::planner::{
    MAX_REFERENCE_BLOCKS, MIN_BLOCK_BUDGET, PlanningContextMode, PlanningContextPlan,
    PlanningContextPlanner, block_relevance, core_prefix, core_prefix_of, plan_spec, plan_view,
    project_by_section,
    reference_selection, section_brief, select_project_context_by_section,
    select_reference_context,
};
use crate::planning::terms::{content_relevance_of, heading_relevance_of, query_terms, query_terms_of};
use crate::planning::render::{
    ints, min_int, render_reference, render_reference_blocks, sat_sub, sat_u16, truncate_block,
    truncate_block_of,
};
use crate::planning::select::{
    count_of, count_true, empty_mask, full_mask, lemma_count_bound, lemma_count_set,
    lemma_set_indices_range, new_mask, set_indices, set_indices_of,
};

verus! {

/// Whether entry `i` of `wanted` is set; nothing beyond its end is.
pub open spec fn wanted_at(wanted: Seq<bool>, i: int) -> bool {
    0 <= i < wanted.len() && wanted[i]
}

/// Choosing in rank order: the order is walked until `limit` entries are
/// chosen, and each wanted index in range is chosen on the way.
pub open spec fn take_ranked(mask: Seq<bool>, order: Seq<int>, wanted: Seq<bool>, limit: int) -> Seq<
    bool,
>
    decreases order.len(),
{
    if order.len() == 0 || count_true(mask) >= limit {
        mask
    } else {
        let i = order[0];
        let m = if 0 <= i < mask.len() && wanted_at(wanted, i) {
            mask.update(i, true)
        } else {
            mask
        };
        take_ranked(m, order.drop_first(), wanted, limit)
    }
}

/// `take_ranked` on a mask in place.
pub fn take_ranked_exec(mask: &mut Vec<bool>, order: &Vec<usize>, wanted: &Vec<bool>, limit: usize)
    ensures
        final(mask)@ == take_ranked(old(mask)@, ints(order@), wanted@, limit as int),
        final(mask).len() == old(mask).len(),
{
    let ghost m0 = mask@;
    let ghost ov = ints(order@);
    let mut count = count_of(mask);
    let mut k: usize = 0;
    assert(ov.skip(0) =~= ov);
    while k < order.len()
        invariant
            k <= order.len(),
            ov == ints(order@),
            mask.len() == m0.len(),
            count == count_true(mask@),
            take_ranked(m0, ov, wanted@, limit as int) == take_ranked(
                mask@,
                ov.skip(k as int),
                wanted@,
                limit as int,
            ),
        ensures
            take_ranked(m0, ov, wanted@, limit as int) == mask@,
            mask.len() == m0.len(),
        decreases order.len() - k,
    {
        if count >= limit {
            break;
        }
        let i = order[k];
        assert(ov.skip(k as int).drop_first() =~= ov.skip(k + 1));
        assert(ov.skip(k as int)[0] == i as int);
        if i < mask.len() && i < wanted.len() && wanted[i] {
            if !mask[i] {
                proof {
                    lemma_count_set(mask@, i as int);
                    lemma_count_bound(mask@.update(i as int, true));
                }
                mask.set(i, true);
                count = count + 1;
            } else {
                assert(mask@.update(i as int, true) =~= mask@);
            }
        }
        k = k + 1;
        if k == order.len() {
            assert(ov.skip(k as int).len() == 0);
        }
    }
    if order.len() == 0 {
        assert(ov.len() == 0);
    }
}

/// How many reference blocks may be chosen.
pub open spec fn reference_limit(n: int, max: int) -> int {
    let by_budget = if max / (MIN_BLOCK_BUDGET as int) < 1 {
        1
    } else {
        max / (MIN_BLOCK_BUDGET as int)
    };
    min_int(min_int(MAX_REFERENCE_BLOCKS as int, by_budget), n)
}

/// `select_reference_context` after a ranking: the first block, then the
/// relevant blocks in rank order up to the limit, rendered in document
/// order; when nothing fits, the first block cut to the budget.
pub open spec fn reference_ranked(
    bv: Seq<(Seq<char>, Seq<char>, Seq<char>)>,
    q: Seq<char>,
    max: int,
    order: Seq<int>,
    relevant: Seq<bool>,
) -> (Seq<char>, u16) {
    if bv.len() == 0 || max == 0 {
        (seq![], 0)
    } else {
        let m0 = empty_mask(bv.len()).update(0, true);
        let mask = take_ranked(m0, order, relevant, reference_limit(bv.len() as int, max));
        let r = render_reference(bv, set_indices(mask), q, max);
        if r.0.len() == 0 {
            (truncate_block(bv[0].2, q, max), 1)
        } else {
            r
        }
    }
}

/// Chooses and renders reference blocks in the given rank order;
/// `relevant` marks the blocks that may be chosen after the first.
pub fn select_reference_ranked(
    blocks: &Vec<PlanningBlock>,
    q: &Vec<char>,
    max: usize,
    order: &Vec<usize>,
    relevant: &Vec<bool>,
) -> (r: (Vec<char>, u16))
    ensures
        (r.0@, r.1) == reference_ranked(blocks_view(blocks@), q@, max as int, ints(order@), relevant@),
{
    let ghost bv = blocks_view(blocks@);
    if blocks.len() == 0 || max == 0 {
        return (Vec::new(), 0);
    }
    let n = blocks.len();
    let by_budget = if max / MIN_BLOCK_BUDGET < 1 {
        1
    } else {
        max / MIN_BLOCK_BUDGET
    };
    let a = if MAX_REFERENCE_BLOCKS < by_budget {
        MAX_REFERENCE_BLOCKS
    } else {
        by_budget
    };
    let limit = if a < n {
        a
    } else {
        n
    };
    let mut mask = new_mask(n, false);
    mask.set(0, true);
    assert(mask@ =~= empty_mask(n as nat).update(0, true));
    take_ranked_exec(&mut mask, order, relevant, limit);
    let idx = set_indices_of(&mask);
    proof {
        lemma_set_indices_range(mask@);
    }
    let (text, count) = render_reference_blocks(blocks, &idx, q, max);
    if text.len() == 0 {
        let fallback = truncate_block_of(&blocks[0].content, q, max);
        return (fallback, 1);
    }
    (text, count)
}

} // verus!

verus! {

/// Most project sections chosen when chunks are ranked.
pub const MAX_PROJECT_SEMANTIC_SECTIONS: usize = 8;

/// The longest navigation brief of a section.
pub const MAX_PROJECT_BRIEF_CHARS: usize = 240;

/// Most evidence chunks chosen.
pub const MAX_PROJECT_EVIDENCE_CHUNKS: usize = 10;

/// Most evidence chunks chosen from one section.
pub const MAX_PROJECT_CHUNKS_PER_SECTION: usize = 3;

/// The longest rendering of one section with its evidence.
pub const MAX_PROJECT_EVIDENCE_SECTION_CHARS: usize = 2000;

/// How many sections may be chosen when chunks are ranked.
pub open spec fn semantic_section_limit(n: int, max: int) -> int {
    let by_budget = max / ((MAX_PROJECT_BRIEF_CHARS + MIN_BLOCK_BUDGET) as int);
    let by_budget = if by_budget < 1 {
        1
    } else {
        by_budget
    };
    min_int(min_int(MAX_PROJECT_SEMANTIC_SECTIONS as int, by_budget), n)
}

/// The sections chosen from a ranking: the first core sections up to the
/// limit, then sections in rank order until the limit is reached.
pub open spec fn ranked_sections(
    bv: Seq<(Seq<char>, Seq<char>, Seq<char>)>,
    max: int,
    order: Seq<int>,
) -> Seq<bool> {
    let limit = semantic_section_limit(bv.len() as int, max);
    take_ranked(core_prefix(bv, limit), order, full_mask(bv.len()), limit)
}

/// Chooses sections in the given rank order (a mask over the sections).
pub fn select_ranked_sections(blocks: &Vec<PlanningBlock>, max: usize, order: &Vec<usize>) -> (r: Vec<
    bool,
>)
    ensures
        r@ == ranked_sections(blocks_view(blocks@), max as int, ints(order@)),
        r.len() == blocks.len(),
{
    let n = blocks.len();
    let by_budget = max / (MAX_PROJECT_BRIEF_CHARS + MIN_BLOCK_BUDGET);
    let by_budget = if by_budget < 1 {
        1
    } else {
        by_budget
    };
    let a = if MAX_PROJECT_SEMANTIC_SECTIONS < by_budget {
        MAX_PROJECT_SEMANTIC_SECTIONS
    } else {
        by_budget
    };
    let limit = if a < n {
        a
    } else {
        n
    };
    let (mut mask, _taken, _cores) = core_prefix_of(blocks, limit);
    let all = new_mask(n, true);
    assert(all@ =~= full_mask(n as nat));
    take_ranked_exec(&mut mask, order, &all, limit);
    mask
}

/// A chunk of a chosen section: the section's index, the chunk's index in
/// the section, and its text.
pub struct EvidenceChunk {
    pub section: usize,
    pub chunk: usize,
    pub content: Vec<char>,
}

/// The views of evidence chunks.
pub open spec fn evidence_view(cs: Seq<EvidenceChunk>) -> Seq<(int, int, Seq<char>)> {
    cs.map_values(|c: EvidenceChunk| (c.section as int, c.chunk as int, c.content@))
}

/// The chunks of one section, numbered.
pub open spec fn section_evidence(i: int, chunks: Seq<Seq<char>>) -> Seq<(int, int, Seq<char>)> {
    Seq::new(chunks.len(), |k: int| (i, k, chunks[k]))
}

/// The chunks of the chosen sections, section by section in document order.
pub open spec fn evidence_chunks(bv: Seq<(Seq<char>, Seq<char>, Seq<char>)>, mask: Seq<bool>) -> Seq<
    (int, int, Seq<char>),
>
    decreases bv.len(),
{
    if bv.len() == 0 {
        seq![]
    } else {
        let d = evidence_chunks(bv.drop_last(), mask);
        if wanted_at(mask, bv.len() - 1) {
            d + section_evidence(bv.len() - 1, section_chunks(bv.last().2))
        } else {
            d
        }
    }
}

/// The chunks of the chosen sections.
pub fn evidence_chunks_of(blocks: &Vec<PlanningBlock>, mask: &Vec<bool>) -> (r: Vec<EvidenceChunk>)
    ensures
        evidence_view(r@) == evidence_chunks(blocks_view(blocks@), mask@),
{
    let ghost bv = blocks_view(blocks@);
    let mut out: Vec<EvidenceChunk> = Vec::new();
    let mut i: usize = 0;
    assert(bv.take(0) =~= Seq::<(Seq<char>, Seq<char>, Seq<char>)>::empty());
    assert(evidence_view(out@) =~= Seq::<(int, int, Seq<char>)>::empty());
    while i < blocks.len()
        invariant
            i <= blocks.len(),
            bv == blocks_view(blocks@),
            evidence_view(out@) == evidence_chunks(bv.take(i as int), mask@),
        decreases blocks.len() - i,
    {
        assert(bv.take(i + 1).drop_last() =~= bv.take(i as int));
        assert(bv.take(i + 1).last() == bv[i as int]);
        if i < mask.len() && mask[i] {
            let cs = section_chunks_of(&blocks[i].content);
            let ghost start = evidence_view(out@);
            let ghost se = section_evidence(i as int, views_of(cs@));
            let mut k: usize = 0;
            assert(se.take(0) =~= Seq::<(int, int, Seq<char>)>::empty());
            assert(start + se.take(0) =~= start);
            while k < cs.len()
                invariant
                    k <= cs.len(),
                    se == section_evidence(i as int, views_of(cs@)),
                    evidence_view(out@) == start + se.take(k as int),
                decreases cs.len() - k,
            {
                let piece = crate::text::slice_chars(&cs[k], 0, cs[k].len());
                assert(piece@ =~= cs@[k as int]@);
                let ghost before = evidence_view(out@);
                out.push(EvidenceChunk { section: i, chunk: k, content: piece });
                assert(evidence_view(out@) =~= before.push((i as int, k as int, piece@)));
                assert(se.take(k + 1) =~= se.take(k as int).push(se[k as int]));
                k = k + 1;
            }
            assert(se.take(cs.len() as int) =~= se);
        }
        i = i + 1;
    }
    assert(bv.take(blocks.len() as int) =~= bv);
    out
}

/// How many of the marked chunks belong to section `s`.
pub open spec fn section_count(chunks: Seq<(int, int, Seq<char>)>, marked: Seq<bool>, s: int) -> nat
    decreases chunks.len(),
{
    if chunks.len() == 0 {
        0
    } else {
        section_count(chunks.drop_last(), marked, s) + if wanted_at(marked, chunks.len() - 1)
            && chunks.last().0 == s {
            1nat
        } else {
            0nat
        }
    }
}

fn section_count_of(chunks: &Vec<EvidenceChunk>, marked: &Vec<bool>, s: usize) -> (r: usize)
    ensures
        r == section_count(evidence_view(chunks@), marked@, s as int),
{
    let ghost cv = evidence_view(chunks@);
    let mut c: usize = 0;
    let mut i: usize = 0;
    assert(cv.take(0) =~= Seq::<(int, int, Seq<char>)>::empty());
    while i < chunks.len()
        invariant
            i <= chunks.len(),
            cv == evidence_view(chunks@),
            c == section_count(cv.take(i as int), marked@, s as int),
            c <= i,
        decreases chunks.len() - i,
    {
        assert(cv.take(i + 1).drop_last() =~= cv.take(i as int));
        assert(cv.take(i + 1).last() == cv[i as int]);
        if i < marked.len() && marked[i] && chunks[i].section == s {
            c = c + 1;
        }
        i = i + 1;
    }
    assert(cv.take(chunks.len() as int) =~= cv);
    c
}

/// How many evidence chunks may be picked.
pub open spec fn evidence_limit(max: int, n: int) -> int {
    let by_budget = if max / (MIN_BLOCK_BUDGET as int) < 1 {
        1
    } else {
        max / (MIN_BLOCK_BUDGET as int)
    };
    min_int(min_int(MAX_PROJECT_EVIDENCE_CHUNKS as int, by_budget), n)
}

/// Picking evidence in rank order: the rank is walked until `limit` chunks
/// are picked, and a chunk is picked unless its section already has the
/// most chunks allowed. A rank that lists every chunk leaves no section
/// without a chunk short of the limit (`evidence_reaches_every_section`).
pub open spec fn pick_evidence(
    chunks: Seq<(int, int, Seq<char>)>,
    rank: Seq<int>,
    picked: Seq<bool>,
    limit: int,
) -> Seq<bool>
    decreases rank.len(),
{
    if rank.len() == 0 || count_true(picked) >= limit {
        picked
    } else {
        let j = rank[0];
        let ok = 0 <= j < chunks.len() && j < picked.len() && !picked[j] && section_count(
            chunks,
            picked,
            chunks[j].0,
        ) < MAX_PROJECT_CHUNKS_PER_SECTION;
        pick_evidence(
            chunks,
            rank.drop_first(),
            if ok {
                picked.update(j, true)
            } else {
                picked
            },
            limit,
        )
    }
}

fn pick_evidence_of(chunks: &Vec<EvidenceChunk>, rank: &Vec<usize>, limit: usize) -> (r: Vec<bool>)
    ensures
        r@ == pick_evidence(evidence_view(chunks@), ints(rank@), empty_mask(chunks.len() as nat), limit as int),
        r.len() == chunks.len(),
{
    let ghost cv = evidence_view(chunks@);
    let ghost rv = ints(rank@);
    let mut picked = new_mask(chunks.len(), false);
    assert(picked@ =~= empty_mask(chunks.len() as nat));
    let ghost p0 = picked@;
    let mut count: usize = 0;
    proof {
        crate::planning::select::lemma_count_zero(chunks.len() as nat);
    }
    let mut k: usize = 0;
    assert(rv.skip(0) =~= rv);
    while k < rank.len()
        invariant
            k <= rank.len(),
            cv == evidence_view(chunks@),
            rv == ints(rank@),
            picked.len() == chunks.len(),
            count == count_true(picked@),
            pick_evidence(cv, rv, p0, limit as int) == pick_evidence(
                cv,
                rv.skip(k as int),
                picked@,
                limit as int,
            ),
        ensures
            pick_evidence(cv, rv, p0, limit as int) == picked@,
            picked.len() == chunks.len(),
        decreases rank.len() - k,
    {
        if count >= limit {
            break;
        }
        let j = rank[k];
        assert(rv.skip(k as int).drop_first() =~= rv.skip(k + 1));
        assert(rv.skip(k as int)[0] == j as int);
        if j < chunks.len() && !picked[j] {
            let c = section_count_of(chunks, &picked, chunks[j].section);
            if c < MAX_PROJECT_CHUNKS_PER_SECTION {
                proof {
                    lemma_count_set(picked@, j as int);
                    lemma_count_bound(picked@.update(j as int, true));
                }
                picked.set(j, true);
                count = count + 1;
            }
        }
        k = k + 1;
        if k == rank.len() {
            assert(rv.skip(k as int).len() == 0);
        }
    }
    if rank.len() == 0 {
        assert(rv.len() == 0);
    }
    picked
}

/// The sections below `n` with a marked chunk, in increasing order.
pub open spec fn marked_sections(chunks: Seq<(int, int, Seq<char>)>, marked: Seq<bool>, n: nat) -> Seq<
    int,
>
    decreases n,
{
    if n == 0 {
        seq![]
    } else {
        let d = marked_sections(chunks, marked, (n - 1) as nat);
        if section_count(chunks, marked, n - 1) > 0 {
            d.push(n - 1)
        } else {
            d
        }
    }
}

fn marked_sections_of(chunks: &Vec<EvidenceChunk>, marked: &Vec<bool>, n: usize) -> (r: Vec<usize>)
    ensures
        ints(r@) == marked_sections(evidence_view(chunks@), marked@, n as nat),
        forall|k: int| 0 <= k < r.len() ==> #[trigger] r@[k] < n,
{
    let mut r: Vec<usize> = Vec::new();
    let mut s: usize = 0;
    assert(ints(r@) =~= Seq::<int>::empty());
    while s < n
        invariant
            s <= n,
            ints(r@) == marked_sections(evidence_view(chunks@), marked@, s as nat),
            forall|k: int| 0 <= k < r.len() ==> #[trigger] r@[k] < s,
        decreases n - s,
    {
        let c = section_count_of(chunks, marked, s);
        if c > 0 {
            let ghost before = ints(r@);
            r.push(s);
            assert(ints(r@) =~= before.push(s as int));
        }
        s = s + 1;
    }
    r
}

} // verus!

verus! {

/// The navigation line of a section: its brief, marked, or nothing.
pub open spec fn navigation(content: Seq<char>) -> Seq<char> {
    let brief = section_brief(content, MAX_PROJECT_BRIEF_CHARS as int);
    if brief.len() == 0 {
        seq![]
    } else {
        "[节点导航] "@ + brief
    }
}

fn navigation_of(content: &Vec<char>) -> (r: Vec<char>)
    ensures
        r@ == navigation(content@),
{
    let text = string_of(content);
    let brief = PlanningContextPlanner::project_section_brief(text.as_str(), MAX_PROJECT_BRIEF_CHARS);
    let b = chars_of(brief.as_str());
    if b.len() == 0 {
        return Vec::new();
    }
    let mut out = chars_of("[节点导航] ");
    extend_chars(&mut out, &b);
    out
}

/// The heads of the evidence sections from position `p` on, with
/// `remaining` characters left: each section's identifier and navigation
/// line, cut to its share of what is left (at most the section limit);
/// rendering stops when a share cannot hold the identifier.
pub open spec fn bases_from(
    bv: Seq<(Seq<char>, Seq<char>, Seq<char>)>,
    secs: Seq<int>,
    remaining: int,
    p: int,
) -> Seq<(int, Seq<char>)>
    decreases secs.len() - p,
{
    if p < 0 || p >= secs.len() || remaining <= 0 {
        seq![]
    } else if !(0 <= secs[p] < bv.len()) {
        bases_from(bv, secs, remaining, p + 1)
    } else {
        let i = secs[p];
        let prefix = bv[i].0 + ": "@;
        let nav = navigation(bv[i].2);
        let allowance = min_int(
            remaining / (secs.len() - p),
            MAX_PROJECT_EVIDENCE_SECTION_CHARS as int,
        );
        if allowance <= prefix.len() {
            seq![]
        } else {
            let text = prefix + if nav.len() + prefix.len() > allowance {
                nav.take(allowance - prefix.len())
            } else {
                nav
            };
            seq![(i, text)] + bases_from(bv, secs, sat_sub(remaining, text.len() + 2int), p + 1)
        }
    }
}

/// The views of section heads.
pub open spec fn bases_view(bs: Seq<(usize, Vec<char>)>) -> Seq<(int, Seq<char>)> {
    bs.map_values(|b: (usize, Vec<char>)| (b.0 as int, b.1@))
}

fn bases_of(blocks: &Vec<PlanningBlock>, secs: &Vec<usize>, max: usize) -> (r: Vec<(usize, Vec<char>)>)
    ensures
        bases_view(r@) == bases_from(blocks_view(blocks@), ints(secs@), max as int, 0),
        forall|k: int| 0 <= k < r.len() ==> #[trigger] r@[k].0 < blocks.len(),
{
    let ghost bv = blocks_view(blocks@);
    let ghost sv = ints(secs@);
    let ghost all = bases_from(bv, sv, max as int, 0);
    let mut out: Vec<(usize, Vec<char>)> = Vec::new();
    let mut remaining = max;
    let mut p: usize = 0;
    assert(bases_view(out@) + all =~= all);
    while p < secs.len()
        invariant
            p <= secs.len(),
            bv == blocks_view(blocks@),
            sv == ints(secs@),
            all == bases_view(out@) + bases_from(bv, sv, remaining as int, p as int),
            forall|k: int| 0 <= k < out.len() ==> #[trigger] out@[k].0 < blocks.len(),
        ensures
            all == bases_view(out@),
            forall|k: int| 0 <= k < out.len() ==> #[trigger] out@[k].0 < blocks.len(),
        decreases secs.len() - p,
    {
        if remaining == 0 {
            assert(bases_view(out@) + Seq::<(int, Seq<char>)>::empty() =~= bases_view(out@));
            break;
        }
        let i = secs[p];
        if i >= blocks.len() {
            p = p + 1;
            if p == secs.len() {
                assert(bases_view(out@) + Seq::<(int, Seq<char>)>::empty() =~= bases_view(out@));
            }
            continue;
        }
        let mut text = crate::text::slice_chars(&blocks[i].id, 0, blocks[i].id.len());
        extend_str(&mut text, ": ");
        assert(text@ == bv[i as int].0 + ": "@);
        let prefix_len = text.len();
        let nav = navigation_of(&blocks[i].content);
        let share = remaining / (secs.len() - p);
        let allowance = if share < MAX_PROJECT_EVIDENCE_SECTION_CHARS {
            share
        } else {
            MAX_PROJECT_EVIDENCE_SECTION_CHARS
        };
        if allowance <= prefix_len {
            assert(bases_view(out@) + Seq::<(int, Seq<char>)>::empty() =~= bases_view(out@));
            break;
        }
        let room = allowance - prefix_len;
        if nav.len() > room {
            let cut = crate::text::slice_chars(&nav, 0, room);
            assert(cut@ =~= nav@.take(room as int));
            extend_chars(&mut text, &cut);
        } else {
            extend_chars(&mut text, &nav);
        }
        let used = if text.len() < usize::MAX - 2 {
            text.len() + 2
        } else {
            usize::MAX
        };
        let next = if remaining > used {
            remaining - used
        } else {
            0
        };
        assert(next as int == sat_sub(remaining as int, text@.len() + 2int));
        let ghost before = bases_view(out@);
        let ghost tv = text@;
        out.push((i, text));
        assert(bases_view(out@) =~= before.push((i as int, tv)));
        assert(before + bases_from(bv, sv, remaining as int, p as int) =~= bases_view(out@)
            + bases_from(bv, sv, next as int, p + 1));
        remaining = next;
        p = p + 1;
        if p == secs.len() {
            assert(bases_view(out@) + Seq::<(int, Seq<char>)>::empty() =~= bases_view(out@));
        }
    }
    if secs.len() == 0 {
        assert(bases_view(out@) + Seq::<(int, Seq<char>)>::empty() =~= bases_view(out@));
    }
    out
}

} // verus!

verus! {

/// The label put before an evidence chunk.
pub open spec fn marker_text(k: int) -> Seq<char> {
    "[原文片段 "@ + decimal((k + 1) as nat) + "] "@
}

fn marker_of(k: usize) -> (r: Vec<char>)
    ensures
        r@ == marker_text(k as int),
{
    let mut out = chars_of("[原文片段 ");
    push_decimal(&mut out, k as u128 + 1);
    extend_str(&mut out, "] ");
    out
}

/// Whether a section has a head.
pub open spec fn base_has(bases: Seq<(int, Seq<char>)>, s: int) -> bool
    decreases bases.len(),
{
    bases.len() > 0 && (bases.last().0 == s || base_has(bases.drop_last(), s))
}

/// The characters the heads take, with the blank lines after them.
pub open spec fn base_length(bases: Seq<(int, Seq<char>)>) -> int
    decreases bases.len(),
{
    if bases.len() == 0 {
        0
    } else {
        base_length(bases.drop_last()) + bases.last().1.len() + 2
    }
}

/// One step of choosing evidence text: a picked chunk of a section with a
/// head is chosen when its labelled line fits both what is left of the
/// evidence budget and its section's limit. The state is the chosen chunks,
/// the budget left and the characters each section has taken.
pub open spec fn choose_step(
    chunks: Seq<(int, int, Seq<char>)>,
    picked: Seq<bool>,
    bases: Seq<(int, Seq<char>)>,
    st: (Seq<bool>, int, Seq<int>),
    j: int,
) -> (Seq<bool>, int, Seq<int>) {
    if 0 <= j < chunks.len() && wanted_at(picked, j) && j < st.0.len() && !st.0[j] && 0
        <= chunks[j].0 < st.2.len() && base_has(bases, chunks[j].0) {
        let len = marker_text(chunks[j].1).len() + chunks[j].2.len() + 1;
        let sec = st.2[chunks[j].0];
        if len > st.1 || sec + len > MAX_PROJECT_EVIDENCE_SECTION_CHARS {
            st
        } else {
            (st.0.update(j, true), st.1 - len, st.2.update(chunks[j].0, sec + len))
        }
    } else {
        st
    }
}

/// Choosing evidence text along the rank.
pub open spec fn choose_evidence(
    chunks: Seq<(int, int, Seq<char>)>,
    picked: Seq<bool>,
    bases: Seq<(int, Seq<char>)>,
    rank: Seq<int>,
    st: (Seq<bool>, int, Seq<int>),
) -> (Seq<bool>, int, Seq<int>)
    decreases rank.len(),
{
    if rank.len() == 0 {
        st
    } else {
        choose_evidence(chunks, picked, bases, rank.drop_first(), choose_step(chunks, picked, bases, st, rank[0]))
    }
}

/// The sections with a head, as a mask over `n` sections.
fn base_mask_of(bases: &Vec<(usize, Vec<char>)>, n: usize) -> (r: Vec<bool>)
    ensures
        r.len() == n,
        forall|s: int| 0 <= s < n ==> #[trigger] r@[s] == base_has(bases_view(bases@), s),
{
    let ghost bv = bases_view(bases@);
    let mut m = new_mask(n, false);
    let mut p: usize = 0;
    assert(bv.take(0) =~= Seq::<(int, Seq<char>)>::empty());
    while p < bases.len()
        invariant
            p <= bases.len(),
            bv == bases_view(bases@),
            m.len() == n,
            forall|s: int| 0 <= s < n ==> #[trigger] m@[s] == base_has(bv.take(p as int), s),
        decreases bases.len() - p,
    {
        assert(bv.take(p + 1).drop_last() =~= bv.take(p as int));
        assert(bv.take(p + 1).last() == bv[p as int]);
        let s = bases[p].0;
        if s < n {
            m.set(s, true);
        }
        p = p + 1;
    }
    assert(bv.take(bases.len() as int) =~= bv);
    m
}

/// The characters the heads take, saturated.
fn base_length_of(bases: &Vec<(usize, Vec<char>)>) -> (r: usize)
    ensures
        r == if base_length(bases_view(bases@)) > usize::MAX {
            usize::MAX as int
        } else {
            base_length(bases_view(bases@))
        },
{
    let ghost bv = bases_view(bases@);
    let mut total: usize = 0;
    let mut p: usize = 0;
    assert(bv.take(0) =~= Seq::<(int, Seq<char>)>::empty());
    while p < bases.len()
        invariant
            p <= bases.len(),
            bv == bases_view(bases@),
            base_length(bv.take(p as int)) >= 0,
            total == if base_length(bv.take(p as int)) > usize::MAX {
                usize::MAX as int
            } else {
                base_length(bv.take(p as int))
            },
        decreases bases.len() - p,
    {
        assert(bv.take(p + 1).drop_last() =~= bv.take(p as int));
        assert(bv.take(p + 1).last() == bv[p as int]);
        total = total.saturating_add(bases[p].1.len()).saturating_add(2);
        p = p + 1;
    }
    assert(bv.take(bases.len() as int) =~= bv);
    total
}

/// `n` zeros.
fn zeros_of(n: usize) -> (r: Vec<usize>)
    ensures
        r.len() == n,
        forall|s: int| 0 <= s < n ==> #[trigger] r@[s] == 0,
{
    let mut r: Vec<usize> = Vec::new();
    let mut i: usize = 0;
    while i < n
        invariant
            i <= n,
            r.len() == i,
            forall|s: int| 0 <= s < i ==> #[trigger] r@[s] == 0,
        decreases n - i,
    {
        r.push(0);
        i = i + 1;
    }
    r
}

/// The views of per-section character counts.
pub open spec fn counts_view(v: Seq<usize>) -> Seq<int> {
    v.map_values(|c: usize| c as int)
}

fn choose_evidence_of(
    chunks: &Vec<EvidenceChunk>,
    picked: &Vec<bool>,
    bases: &Vec<(usize, Vec<char>)>,
    rank: &Vec<usize>,
    budget: usize,
    n: usize,
) -> (r: Vec<bool>)
    requires
        picked.len() == chunks.len(),
    ensures
        r@ == choose_evidence(
            evidence_view(chunks@),
            picked@,
            bases_view(bases@),
            ints(rank@),
            (empty_mask(chunks.len() as nat), budget as int, Seq::new(n as nat, |s: int| 0int)),
        ).0,
        r.len() == chunks.len(),
{
    let ghost cv = evidence_view(chunks@);
    let ghost bv = bases_view(bases@);
    let ghost rv = ints(rank@);
    let bmask = base_mask_of(bases, n);
    let mut chosen = new_mask(chunks.len(), false);
    let mut left = budget;
    let mut per = zeros_of(n);
    let ghost st0 = (chosen@, budget as int, counts_view(per@));
    assert(chosen@ =~= empty_mask(chunks.len() as nat));
    assert(counts_view(per@) =~= Seq::new(n as nat, |s: int| 0int));
    let mut k: usize = 0;
    assert(rv.skip(0) =~= rv);
    while k < rank.len()
        invariant
            k <= rank.len(),
            cv == evidence_view(chunks@),
            bv == bases_view(bases@),
            rv == ints(rank@),
            picked.len() == chunks.len(),
            chosen.len() == chunks.len(),
            per.len() == n,
            bmask.len() == n,
            forall|s: int| 0 <= s < n ==> #[trigger] bmask@[s] == base_has(bv, s),
            forall|s: int| 0 <= s < n ==> #[trigger] per@[s] <= MAX_PROJECT_EVIDENCE_SECTION_CHARS,
            choose_evidence(cv, picked@, bv, rv, st0) == choose_evidence(
                cv,
                picked@,
                bv,
                rv.skip(k as int),
                (chosen@, left as int, counts_view(per@)),
            ),
        decreases rank.len() - k,
    {
        let j = rank[k];
        assert(rv.skip(k as int).drop_first() =~= rv.skip(k + 1));
        assert(rv.skip(k as int)[0] == j as int);
        if j < chunks.len() && picked[j] && !chosen[j] && chunks[j].section < n
            && bmask[chunks[j].section] {
            let s = chunks[j].section;
            let marker = marker_of(chunks[j].chunk);
            let len: u128 = marker.len() as u128 + chunks[j].content.len() as u128 + 1;
            let sec = per[s];
            if len > left as u128 || sec as u128 + len > MAX_PROJECT_EVIDENCE_SECTION_CHARS as u128 {
            } else {
                let l = len as usize;
                let ghost before = per@;
                chosen.set(j, true);
                left = left - l;
                per.set(s, sec + l);
                assert(counts_view(per@) =~= counts_view(before).update(s as int, (sec + l) as int));
            }
        }
        k = k + 1;
    }
    assert(rv.skip(rank.len() as int).len() == 0);
    chosen
}

} // verus!

verus! {

/// The chosen evidence lines of section `s`, in chunk order.
pub open spec fn section_lines(chunks: Seq<(int, int, Seq<char>)>, chosen: Seq<bool>, s: int) -> Seq<
    char,
>
    decreases chunks.len(),
{
    if chunks.len() == 0 {
        seq![]
    } else {
        let d = section_lines(chunks.drop_last(), chosen, s);
        if wanted_at(chosen, chunks.len() - 1) && chunks.last().0 == s {
            d + "\n"@ + marker_text(chunks.last().1) + chunks.last().2
        } else {
            d
        }
    }
}

/// How many evidence lines the heads carry.
pub open spec fn evidence_count(
    bases: Seq<(int, Seq<char>)>,
    chunks: Seq<(int, int, Seq<char>)>,
    chosen: Seq<bool>,
) -> nat
    decreases bases.len(),
{
    if bases.len() == 0 {
        0
    } else {
        evidence_count(bases.drop_last(), chunks, chosen) + section_count(chunks, chosen, bases.last().0)
    }
}

/// Each head with its evidence lines.
pub open spec fn evidence_texts(
    bases: Seq<(int, Seq<char>)>,
    chunks: Seq<(int, int, Seq<char>)>,
    chosen: Seq<bool>,
) -> Seq<Seq<char>> {
    Seq::new(bases.len(), |p: int| bases[p].1 + section_lines(chunks, chosen, bases[p].0))
}

/// The rendered evidence: the sections joined by blank lines, how many
/// sections and how many evidence lines.
pub open spec fn render_evidence(
    bases: Seq<(int, Seq<char>)>,
    chunks: Seq<(int, int, Seq<char>)>,
    chosen: Seq<bool>,
) -> (Seq<char>, u16, u16) {
    (
        join(evidence_texts(bases, chunks, chosen), "\n\n"@),
        sat_u16(bases.len() as int),
        sat_u16(evidence_count(bases, chunks, chosen) as int),
    )
}

/// One section's text and the number of its evidence lines.
fn section_text_of(
    base: &Vec<char>,
    chunks: &Vec<EvidenceChunk>,
    chosen: &Vec<bool>,
    s: usize,
) -> (r: (Vec<char>, usize))
    ensures
        r.0@ == base@ + section_lines(evidence_view(chunks@), chosen@, s as int),
        r.1 == section_count(evidence_view(chunks@), chosen@, s as int),
{
    let ghost cv = evidence_view(chunks@);
    let mut text = crate::text::slice_chars(base, 0, base.len());
    let mut c: usize = 0;
    let mut i: usize = 0;
    assert(cv.take(0) =~= Seq::<(int, int, Seq<char>)>::empty());
    assert(text@ =~= base@ + section_lines(cv.take(0), chosen@, s as int));
    while i < chunks.len()
        invariant
            i <= chunks.len(),
            cv == evidence_view(chunks@),
            text@ == base@ + section_lines(cv.take(i as int), chosen@, s as int),
            c == section_count(cv.take(i as int), chosen@, s as int),
            c <= i,
        decreases chunks.len() - i,
    {
        assert(cv.take(i + 1).drop_last() =~= cv.take(i as int));
        assert(cv.take(i + 1).last() == cv[i as int]);
        if i < chosen.len() && chosen[i] && chunks[i].section == s {
            let ghost before = text@;
            text.push('\n');
            let marker = marker_of(chunks[i].chunk);
            extend_chars(&mut text, &marker);
            extend_chars(&mut text, &chunks[i].content);
            assert(text@ =~= before + "\n"@ + marker_text(chunks@[i as int].chunk as int)
                + chunks@[i as int].content@) by {
                reveal_strlit("\n");
            }
            c = c + 1;
        }
        i = i + 1;
    }
    assert(cv.take(chunks.len() as int) =~= cv);
    (text, c)
}

fn render_evidence_of(bases: &Vec<(usize, Vec<char>)>, chunks: &Vec<EvidenceChunk>, chosen: &Vec<bool>) -> (r:
    (Vec<char>, u16, u16))
    ensures
        (r.0@, r.1, r.2) == render_evidence(bases_view(bases@), evidence_view(chunks@), chosen@),
{
    let ghost bv = bases_view(bases@);
    let ghost cv = evidence_view(chunks@);
    let mut texts: Vec<Vec<char>> = Vec::new();
    let mut count: u16 = 0;
    let mut p: usize = 0;
    assert(bv.take(0) =~= Seq::<(int, Seq<char>)>::empty());
    while p < bases.len()
        invariant
            p <= bases.len(),
            bv == bases_view(bases@),
            cv == evidence_view(chunks@),
            texts.len() == p,
            forall|k: int| 0 <= k < p ==> #[trigger] texts@[k]@ == evidence_texts(bv, cv, chosen@)[k],
            count == sat_u16(evidence_count(bv.take(p as int), cv, chosen@) as int),
        decreases bases.len() - p,
    {
        assert(bv.take(p + 1).drop_last() =~= bv.take(p as int));
        assert(bv.take(p + 1).last() == bv[p as int]);
        let (text, c) = section_text_of(&bases[p].1, chunks, chosen, bases[p].0);
        texts.push(text);
        let add: u16 = if c > 65535 {
            65535
        } else {
            c as u16
        };
        count = count.saturating_add(add);
        p = p + 1;
    }
    assert(bv.take(bases.len() as int) =~= bv);
    assert(views_of(texts@) =~= evidence_texts(bv, cv, chosen@));
    let sections: u16 = if bases.len() > 65535 {
        65535
    } else {
        bases.len() as u16
    };
    (join_chars(&texts, "\n\n"), sections, count)
}

} // verus!

verus! {

/// The project context from ranked evidence: the chosen sections' chunks
/// are picked in rank order, each section with a picked chunk gets a head
/// within the budget, and the evidence text that fits is added under its
/// head; with no chunk or no head, the sections are chosen by keyword.
pub open spec fn project_evidence(
    bv: Seq<(Seq<char>, Seq<char>, Seq<char>)>,
    q: Seq<char>,
    max: int,
    mask: Seq<bool>,
    rank: Seq<int>,
) -> (Seq<char>, u16, u16) {
    let chunks = evidence_chunks(bv, mask);
    if chunks.len() == 0 {
        project_by_section(bv, q, max)
    } else {
        let picked = pick_evidence(
            chunks,
            rank,
            empty_mask(chunks.len()),
            evidence_limit(max, chunks.len() as int),
        );
        let bases = bases_from(bv, marked_sections(chunks, picked, bv.len()), max, 0);
        if bases.len() == 0 {
            project_by_section(bv, q, max)
        } else {
            let st = choose_evidence(
                chunks,
                picked,
                bases,
                rank,
                (empty_mask(chunks.len()), sat_sub(max, base_length(bases)), Seq::new(bv.len(), |s: int| 0int)),
            );
            render_evidence(bases, chunks, st.0)
        }
    }
}

/// `select_project_context` with ranked sections and chunks.
pub open spec fn project_ranked(
    bv: Seq<(Seq<char>, Seq<char>, Seq<char>)>,
    q: Seq<char>,
    max: int,
    order: Seq<int>,
    rank: Seq<int>,
) -> (Seq<char>, u16, u16) {
    if bv.len() == 0 || max == 0 {
        (seq![], 0, 0)
    } else {
        project_evidence(bv, q, max, ranked_sections(bv, max, order), rank)
    }
}

/// Chooses and renders the project context from a ranking of its sections
/// and of the chunks of the chosen sections (indices into
/// `evidence_chunks_of`).
pub fn select_project_ranked(
    blocks: &Vec<PlanningBlock>,
    terms: &Vec<Vec<char>>,
    q: &Vec<char>,
    max: usize,
    order: &Vec<usize>,
    rank: &Vec<usize>,
) -> (r: (Vec<char>, u16, u16))
    requires
        views_of(terms@) == query_terms(q@),
    ensures
        (r.0@, r.1, r.2) == project_ranked(blocks_view(blocks@), q@, max as int, ints(order@), ints(rank@)),
{
    if blocks.len() == 0 || max == 0 {
        return (Vec::new(), 0, 0);
    }
    let mask = select_ranked_sections(blocks, max, order);
    let chunks = evidence_chunks_of(blocks, &mask);
    if chunks.len() == 0 {
        return select_project_context_by_section(blocks, terms, q, max);
    }
    let by_budget = if max / MIN_BLOCK_BUDGET < 1 {
        1
    } else {
        max / MIN_BLOCK_BUDGET
    };
    let a = if MAX_PROJECT_EVIDENCE_CHUNKS < by_budget {
        MAX_PROJECT_EVIDENCE_CHUNKS
    } else {
        by_budget
    };
    let limit = if a < chunks.len() {
        a
    } else {
        chunks.len()
    };
    let picked = pick_evidence_of(&chunks, rank, limit);
    let secs = marked_sections_of(&chunks, &picked, blocks.len());
    let bases = bases_of(blocks, &secs, max);
    if bases.len() == 0 {
        return select_project_context_by_section(blocks, terms, q, max);
    }
    let used = base_length_of(&bases);
    let budget = if max > used {
        max - used
    } else {
        0
    };
    let chosen = choose_evidence_of(&chunks, &picked, &bases, rank, budget, blocks.len());
    render_evidence_of(&bases, &chunks, &chosen)
}

} // verus!

verus! {

/// A ranking of the project: its sections best first, and the chunks of the
/// chosen sections (indices into `evidence_chunks_of`) best first.
pub struct ProjectRanking {
    pub section_order: Vec<usize>,
    pub chunk_rank: Vec<usize>,
}

/// A ranking of the reference blocks, best first, and which of them may be
/// chosen.
pub struct ReferenceRanking {
    pub order: Vec<usize>,
    pub relevant: Vec<bool>,
}

pub open spec fn project_ranking_view(r: Option<ProjectRanking>) -> Option<(Seq<int>, Seq<int>)> {
    match r {
        Some(p) => Some((ints(p.section_order@), ints(p.chunk_rank@))),
        None => None,
    }
}

pub open spec fn reference_ranking_view(r: Option<ReferenceRanking>) -> Option<(Seq<int>, Seq<bool>)> {
    match r {
        Some(x) => Some((ints(x.order@), x.relevant@)),
        None => None,
    }
}

/// The plan with optional rankings: a part without a ranking is chosen by
/// keyword, as `plan_spec` chooses it.
pub open spec fn plan_ranked_spec(
    project: Seq<char>,
    reference: Seq<char>,
    q: Seq<char>,
    mode: PlanningContextMode,
    max_project: int,
    max_reference: int,
    pr: Option<(Seq<int>, Seq<int>)>,
    rr: Option<(Seq<int>, Seq<bool>)>,
) -> (Seq<char>, Seq<char>, u16, u16, u16, u16) {
    let pb = project_blocks(project);
    let rb = reference_blocks(reference);
    let p = match pr {
        None => project_by_section(pb, q, max_project),
        Some(r) => project_ranked(pb, q, max_project, r.0, r.1),
    };
    let limit = if mode == PlanningContextMode::Generate {
        min_int(max_reference, max_project / 4)
    } else {
        max_reference
    };
    let r = match rr {
        None => reference_selection(rb, q, limit),
        Some(x) => reference_ranked(rb, q, limit, x.0, x.1),
    };
    (p.0, r.0, p.1, p.2, r.1, sat_u16(sat_sub(rb.len() as int, r.1 as int)))
}

/// Without rankings, ranked planning is keyword planning.
pub proof fn unranked_plans_are_keyword_plans(
    project: Seq<char>,
    reference: Seq<char>,
    q: Seq<char>,
    mode: PlanningContextMode,
    max_project: int,
    max_reference: int,
)
    ensures
        plan_ranked_spec(project, reference, q, mode, max_project, max_reference, None, None)
            == plan_spec(project, reference, q, mode, max_project, max_reference),
{
}

impl PlanningContextPlanner {
    /// Plans the context from rankings the caller made from scores it holds
    /// (semantic similarities); a part without a ranking is chosen by
    /// keyword, as `plan` chooses it.
    pub fn plan_ranked(
        project_context: &str,
        reference_content: &str,
        query: &str,
        mode: PlanningContextMode,
        max_project_chars: usize,
        max_reference_chars: usize,
        project_ranking: &Option<ProjectRanking>,
        reference_ranking: &Option<ReferenceRanking>,
    ) -> (r: PlanningContextPlan)
        ensures
            plan_view(r) == plan_ranked_spec(
                project_context@,
                reference_content@,
                query@,
                mode,
                max_project_chars as int,
                max_reference_chars as int,
                project_ranking_view(*project_ranking),
                reference_ranking_view(*reference_ranking),
            ),
    {
        let pc = chars_of(project_context);
        let rc = chars_of(reference_content);
        let q = chars_of(query);
        let terms = query_terms_of(&q);
        let project_blocks = parse_project_context(&pc);
        let reference_blocks = parse_reference_context(&rc);
        let (project_text, sections, chunks) = match project_ranking {
            None => select_project_context_by_section(&project_blocks, &terms, &q, max_project_chars),
            Some(r) => select_project_ranked(
                &project_blocks,
                &terms,
                &q,
                max_project_chars,
                &r.section_order,
                &r.chunk_rank,
            ),
        };
        let limit = match mode {
            PlanningContextMode::Generate => {
                let quarter = max_project_chars / 4;
                if max_reference_chars < quarter {
                    max_reference_chars
                } else {
                    quarter
                }
            },
            _ => max_reference_chars,
        };
        let (reference_text, selected) = match reference_ranking {
            None => select_reference_context(&reference_blocks, &terms, &q, limit),
            Some(x) => select_reference_ranked(&reference_blocks, &q, limit, &x.order, &x.relevant),
        };
        let total = reference_blocks.len();
        let left = if total > selected as usize {
            total - selected as usize
        } else {
            0
        };
        let omitted: u16 = if left > 65535 {
            65535
        } else {
            left as u16
        };
        PlanningContextPlan {
            project_context: string_of(&project_text),
            reference_context: string_of(&reference_text),
            selected_project_sections: sections,
            selected_project_chunks: chunks,
            selected_reference_blocks: selected,
            omitted_reference_blocks: omitted,
        }
    }
}

} // verus!

verus! {

/// The keyword relevance of a block (heading and content), as rankings read it.
pub fn block_relevance_of(terms: &Vec<Vec<char>>, q: &Vec<char>, block: &PlanningBlock) -> (r: u32)
    requires
        views_of(terms@) == query_terms(q@),
    ensures
        r == block_relevance(q@, block@),
{
    let h = heading_relevance_of(terms, &block.heading);
    let c = content_relevance_of(terms, &block.content);
    h.saturating_add(c)
}

} // verus!

verus! {

/// The characters an evidence line takes: newline, label and text.
pub open spec fn line_len(c: (int, int, Seq<char>)) -> int {
    (marker_text(c.1).len() + c.2.len() + 1) as int
}

/// The characters all chosen evidence lines take.
pub open spec fn lines_total(chunks: Seq<(int, int, Seq<char>)>, chosen: Seq<bool>) -> int
    decreases chunks.len(),
{
    if chunks.len() == 0 {
        0
    } else {
        lines_total(chunks.drop_last(), chosen) + if wanted_at(chosen, chunks.len() - 1) {
            line_len(chunks.last())
        } else {
            0
        }
    }
}

/// The characters the chosen evidence lines of section `s` take.
pub open spec fn lines_in(chunks: Seq<(int, int, Seq<char>)>, chosen: Seq<bool>, s: int) -> int
    decreases chunks.len(),
{
    if chunks.len() == 0 {
        0
    } else {
        lines_in(chunks.drop_last(), chosen, s) + if wanted_at(chosen, chunks.len() - 1)
            && chunks.last().0 == s {
            line_len(chunks.last())
        } else {
            0
        }
    }
}

proof fn lemma_section_lines_len(chunks: Seq<(int, int, Seq<char>)>, chosen: Seq<bool>, s: int)
    ensures
        section_lines(chunks, chosen, s).len() == lines_in(chunks, chosen, s),
        lines_in(chunks, chosen, s) >= 0,
    decreases chunks.len(),
{
    reveal_strlit("\n");
    if chunks.len() > 0 {
        lemma_section_lines_len(chunks.drop_last(), chosen, s);
    }
}

proof fn lemma_lines_total_nonneg(chunks: Seq<(int, int, Seq<char>)>, chosen: Seq<bool>)
    ensures
        lines_total(chunks, chosen) >= 0,
    decreases chunks.len(),
{
    if chunks.len() > 0 {
        lemma_lines_total_nonneg(chunks.drop_last(), chosen);
    }
}

proof fn lemma_lines_total_set(chunks: Seq<(int, int, Seq<char>)>, chosen: Seq<bool>, j: int)
    requires
        0 <= j < chunks.len(),
        j < chosen.len(),
        !chosen[j],
    ensures
        lines_total(chunks, chosen.update(j, true)) == lines_total(chunks, chosen) + line_len(chunks[j]),
    decreases chunks.len(),
{
    let c2 = chosen.update(j, true);
    if j < chunks.len() - 1 {
        lemma_lines_total_set(chunks.drop_last(), chosen, j);
    } else {
        lemma_lines_total_same_prefix(chunks.drop_last(), chosen, c2);
    }
}

proof fn lemma_lines_total_same_prefix(chunks: Seq<(int, int, Seq<char>)>, a: Seq<bool>, b: Seq<bool>)
    requires
        forall|k: int| 0 <= k < chunks.len() ==> wanted_at(a, k) == wanted_at(b, k),
    ensures
        lines_total(chunks, a) == lines_total(chunks, b),
    decreases chunks.len(),
{
    if chunks.len() > 0 {
        lemma_lines_total_same_prefix(chunks.drop_last(), a, b);
    }
}

/// What choosing keeps: a budget that never goes below zero, and the lines
/// chosen plus the budget left stay what they were.
pub open spec fn choice_accounted(chunks: Seq<(int, int, Seq<char>)>, st: (Seq<bool>, int, Seq<int>), total: int) -> bool {
    st.1 >= 0 && st.0.len() == chunks.len() && lines_total(chunks, st.0) + st.1 == total
}

proof fn lemma_choose_accounted(
    chunks: Seq<(int, int, Seq<char>)>,
    picked: Seq<bool>,
    bases: Seq<(int, Seq<char>)>,
    rank: Seq<int>,
    st: (Seq<bool>, int, Seq<int>),
    total: int,
)
    requires
        choice_accounted(chunks, st, total),
    ensures
        choice_accounted(chunks, choose_evidence(chunks, picked, bases, rank, st), total),
    decreases rank.len(),
{
    if rank.len() > 0 {
        let j = rank[0];
        let next = choose_step(chunks, picked, bases, st, j);
        if next != st {
            lemma_lines_total_set(chunks, st.0, j);
        }
        lemma_choose_accounted(chunks, picked, bases, rank.drop_first(), next, total);
    }
}

proof fn lemma_base_length_prepend(x: (int, Seq<char>), b: Seq<(int, Seq<char>)>)
    ensures
        base_length(seq![x] + b) == x.1.len() + 2 + base_length(b),
    decreases b.len(),
{
    let xb = seq![x] + b;
    if b.len() > 0 {
        assert(xb.drop_last() =~= seq![x] + b.drop_last());
        assert(xb.last() == b.last());
        lemma_base_length_prepend(x, b.drop_last());
    } else {
        assert(xb.drop_last() =~= Seq::<(int, Seq<char>)>::empty());
        assert(xb.last() == x);
        assert(base_length(Seq::<(int, Seq<char>)>::empty()) == 0);
    }
}

/// Strictly increasing integers.
pub open spec fn increasing(s: Seq<int>) -> bool {
    forall|a: int, b: int| 0 <= a < b < s.len() ==> s[a] < s[b]
}

/// The sections of the heads.
pub open spec fn base_sections(b: Seq<(int, Seq<char>)>) -> Seq<int> {
    b.map_values(|x: (int, Seq<char>)| x.0)
}

/// The heads take at most the budget and their last separator, and they
/// follow the order of the sections, from the section at `p` on.
proof fn lemma_bases_fit(
    bv: Seq<(Seq<char>, Seq<char>, Seq<char>)>,
    secs: Seq<int>,
    remaining: int,
    p: int,
)
    requires
        remaining >= 0,
        0 <= p,
        increasing(secs),
    ensures
        bases_from(bv, secs, remaining, p).len() > 0 ==> base_length(bases_from(bv, secs, remaining, p))
            <= remaining + 2,
        base_length(bases_from(bv, secs, remaining, p)) >= 0,
        increasing(base_sections(bases_from(bv, secs, remaining, p))),
        forall|t: int|
            0 <= t < bases_from(bv, secs, remaining, p).len() ==> p < secs.len() && secs[p] <= (
            #[trigger] bases_from(bv, secs, remaining, p)[t]).0,
    decreases secs.len() - p,
{
    let b = bases_from(bv, secs, remaining, p);
    if p >= secs.len() || remaining <= 0 {
    } else if !(0 <= secs[p] < bv.len()) {
        lemma_bases_fit(bv, secs, remaining, p + 1);
    } else {
        let i = secs[p];
        let prefix = bv[i].0 + ": "@;
        let nav = navigation(bv[i].2);
        let k = secs.len() - p;
        let allowance = min_int(remaining / k, MAX_PROJECT_EVIDENCE_SECTION_CHARS as int);
        assert(remaining / k <= remaining) by (nonlinear_arith)
            requires
                remaining >= 0,
                k >= 1,
        ;
        if allowance > prefix.len() {
            let text = prefix + if nav.len() + prefix.len() > allowance {
                nav.take(allowance - prefix.len())
            } else {
                nav
            };
            assert(text.len() <= allowance);
            let next = sat_sub(remaining, text.len() + 2int);
            lemma_bases_fit(bv, secs, next, p + 1);
            let rest = bases_from(bv, secs, next, p + 1);
            assert(b == seq![(i, text)] + rest);
            lemma_base_length_prepend((i, text), rest);
            assert forall|t: int| 0 <= t < b.len() implies p < secs.len() && secs[p] <= (
            #[trigger] b[t]).0 by {
                if t > 0 {
                    assert(b[t] == rest[t - 1]);
                }
            }
            assert forall|x: int, y: int| 0 <= x < y < base_sections(b).len() implies base_sections(
                b,
            )[x] < base_sections(b)[y] by {
                assert(b[y] == rest[y - 1]);
                if x > 0 {
                    assert(b[x] == rest[x - 1]);
                    assert(base_sections(rest)[x - 1] < base_sections(rest)[y - 1]);
                } else {
                    assert(secs[p] < secs[p + 1]);
                }
            }
        }
    }
}

} // verus!

verus! {

proof fn lemma_marked_sections_increasing(chunks: Seq<(int, int, Seq<char>)>, marked: Seq<bool>, n: nat)
    ensures
        increasing(marked_sections(chunks, marked, n)),
        forall|t: int|
            0 <= t < marked_sections(chunks, marked, n).len() ==> #[trigger] marked_sections(
                chunks,
                marked,
                n,
            )[t] < n,
    decreases n,
{
    if n > 0 {
        lemma_marked_sections_increasing(chunks, marked, (n - 1) as nat);
    }
}

/// The total length of some texts.
pub open spec fn sum_lens(parts: Seq<Seq<char>>) -> int
    decreases parts.len(),
{
    if parts.len() == 0 {
        0
    } else {
        sum_lens(parts.drop_last()) + parts.last().len()
    }
}

proof fn lemma_join_len(parts: Seq<Seq<char>>, sep: Seq<char>)
    requires
        parts.len() > 0,
    ensures
        join(parts, sep).len() == sum_lens(parts) + sep.len() * (parts.len() - 1),
    decreases parts.len(),
{
    if parts.len() == 1 {
        assert(parts.drop_last().len() == 0);
        assert(parts.last() == parts[0]);
        assert(sum_lens(parts.drop_last()) == 0);
        assert(sum_lens(parts) == parts[0].len());
        let k = sep.len() as int;
        let m = parts.len() - 1;
        assert(m == 0);
        assert(k * m == 0) by (nonlinear_arith)
            requires
                m == 0,
        ;
    } else {
        let d = parts.drop_last();
        lemma_join_len(d, sep);
        let n = parts.len() as int;
        let k = sep.len() as int;
        assert(d.len() == n - 1);
        assert(join(parts, sep) == join(d, sep) + sep + parts.last());
        assert(join(d, sep).len() == sum_lens(d) + k * (n - 2));
        assert(sum_lens(parts) == sum_lens(d) + parts.last().len());
        assert(k * (n - 2) + k == k * (n - 1)) by (nonlinear_arith);
    }
}

/// The characters of the heads alone.
pub open spec fn heads_total(bases: Seq<(int, Seq<char>)>) -> int
    decreases bases.len(),
{
    if bases.len() == 0 {
        0
    } else {
        heads_total(bases.drop_last()) + bases.last().1.len()
    }
}

/// The characters of the evidence lines under the heads.
pub open spec fn lines_over(
    bases: Seq<(int, Seq<char>)>,
    chunks: Seq<(int, int, Seq<char>)>,
    chosen: Seq<bool>,
) -> int
    decreases bases.len(),
{
    if bases.len() == 0 {
        0
    } else {
        lines_over(bases.drop_last(), chunks, chosen) + lines_in(chunks, chosen, bases.last().0)
    }
}

proof fn lemma_texts_len(bases: Seq<(int, Seq<char>)>, chunks: Seq<(int, int, Seq<char>)>, chosen: Seq<bool>)
    ensures
        sum_lens(evidence_texts(bases, chunks, chosen)) == heads_total(bases) + lines_over(bases, chunks, chosen),
    decreases bases.len(),
{
    if bases.len() > 0 {
        lemma_texts_len(bases.drop_last(), chunks, chosen);
        assert(evidence_texts(bases, chunks, chosen).drop_last() =~= evidence_texts(
            bases.drop_last(),
            chunks,
            chosen,
        ));
        lemma_section_lines_len(chunks, chosen, bases.last().0);
    }
}

proof fn lemma_base_length_heads(bases: Seq<(int, Seq<char>)>)
    ensures
        base_length(bases) == heads_total(bases) + 2 * bases.len(),
    decreases bases.len(),
{
    if bases.len() > 0 {
        lemma_base_length_heads(bases.drop_last());
    }
}

/// How often a value occurs.
pub open spec fn occurrences(s: Seq<int>, v: int) -> nat
    decreases s.len(),
{
    if s.len() == 0 {
        0
    } else {
        occurrences(s.drop_last(), v) + if s.last() == v {
            1nat
        } else {
            0nat
        }
    }
}

proof fn lemma_occurrences_absent(s: Seq<int>, v: int)
    requires
        forall|t: int| 0 <= t < s.len() ==> s[t] != v,
    ensures
        occurrences(s, v) == 0,
    decreases s.len(),
{
    if s.len() > 0 {
        lemma_occurrences_absent(s.drop_last(), v);
    }
}

proof fn lemma_occurrences_increasing(s: Seq<int>, v: int)
    requires
        increasing(s),
    ensures
        occurrences(s, v) <= 1,
    decreases s.len(),
{
    if s.len() > 0 {
        let d = s.drop_last();
        lemma_occurrences_increasing(d, v);
        if s.last() == v {
            assert forall|t: int| 0 <= t < d.len() implies d[t] != v by {
                assert(s[t] < s[s.len() - 1]);
            }
            lemma_occurrences_absent(d, v);
        }
    }
}

proof fn lemma_lines_over_empty(bases: Seq<(int, Seq<char>)>, chunks: Seq<(int, int, Seq<char>)>, chosen: Seq<bool>)
    requires
        chunks.len() == 0,
    ensures
        lines_over(bases, chunks, chosen) == 0,
    decreases bases.len(),
{
    if bases.len() > 0 {
        lemma_lines_over_empty(bases.drop_last(), chunks, chosen);
    }
}

proof fn lemma_lines_over_step(bases: Seq<(int, Seq<char>)>, chunks: Seq<(int, int, Seq<char>)>, chosen: Seq<bool>)
    requires
        chunks.len() > 0,
    ensures
        lines_over(bases, chunks, chosen) == lines_over(bases, chunks.drop_last(), chosen) + occurrences(
            base_sections(bases),
            chunks.last().0,
        ) * (if wanted_at(chosen, chunks.len() - 1) {
            line_len(chunks.last())
        } else {
            0
        }),
    decreases bases.len(),
{
    let v = chunks.last().0;
    let l = if wanted_at(chosen, chunks.len() - 1) {
        line_len(chunks.last())
    } else {
        0
    };
    if bases.len() > 0 {
        let bd = bases.drop_last();
        lemma_lines_over_step(bd, chunks, chosen);
        assert(base_sections(bases).drop_last() =~= base_sections(bd));
        assert(base_sections(bases).last() == bases.last().0);
        let o = occurrences(base_sections(bd), v) as int;
        let s_last = bases.last().0;
        assert(lines_in(chunks, chosen, s_last) == lines_in(chunks.drop_last(), chosen, s_last) + if wanted_at(
            chosen,
            chunks.len() - 1,
        ) && v == s_last {
            line_len(chunks.last())
        } else {
            0
        });
        if s_last == v {
            assert(occurrences(base_sections(bases), v) == o + 1);
            assert((o + 1) * l == o * l + l) by (nonlinear_arith);
        } else {
            assert(occurrences(base_sections(bases), v) == o);
        }
    } else {
        assert(base_sections(bases).len() == 0);
        assert(occurrences(base_sections(bases), v) == 0);
        assert(0 * l == 0) by (nonlinear_arith);
    }
}

proof fn lemma_lines_over_bound(bases: Seq<(int, Seq<char>)>, chunks: Seq<(int, int, Seq<char>)>, chosen: Seq<bool>)
    requires
        increasing(base_sections(bases)),
    ensures
        lines_over(bases, chunks, chosen) <= lines_total(chunks, chosen),
    decreases chunks.len(),
{
    if chunks.len() == 0 {
        lemma_lines_over_empty(bases, chunks, chosen);
    } else {
        lemma_lines_over_bound(bases, chunks.drop_last(), chosen);
        lemma_lines_over_step(bases, chunks, chosen);
        lemma_occurrences_increasing(base_sections(bases), chunks.last().0);
        let o = occurrences(base_sections(bases), chunks.last().0) as int;
        let l = if wanted_at(chosen, chunks.len() - 1) {
            line_len(chunks.last())
        } else {
            0
        };
        assert(o * l <= l) by (nonlinear_arith)
            requires
                0 <= o <= 1,
                l >= 0,
        ;
    }
}

proof fn lemma_lines_total_none(chunks: Seq<(int, int, Seq<char>)>, n: nat)
    ensures
        lines_total(chunks, empty_mask(n)) == 0,
    decreases chunks.len(),
{
    if chunks.len() > 0 {
        lemma_lines_total_none(chunks.drop_last(), n);
    }
}

/// The heads of the evidence path.
pub open spec fn evidence_heads(
    bv: Seq<(Seq<char>, Seq<char>, Seq<char>)>,
    max: int,
    mask: Seq<bool>,
    rank: Seq<int>,
) -> Seq<(int, Seq<char>)> {
    let chunks = evidence_chunks(bv, mask);
    let picked = pick_evidence(chunks, rank, empty_mask(chunks.len()), evidence_limit(max, chunks.len() as int));
    bases_from(bv, marked_sections(chunks, picked, bv.len()), max, 0)
}

/// Ranked evidence stays within the project budget: whenever the project
/// context is rendered from evidence chunks (there are chunks and at least
/// one head), it holds at most `max` characters.
pub proof fn ranked_evidence_fits_the_budget(
    bv: Seq<(Seq<char>, Seq<char>, Seq<char>)>,
    q: Seq<char>,
    max: int,
    mask: Seq<bool>,
    rank: Seq<int>,
)
    requires
        max >= 0,
    ensures
        evidence_chunks(bv, mask).len() > 0 && evidence_heads(bv, max, mask, rank).len() > 0
            ==> project_evidence(bv, q, max, mask, rank).0.len() <= max,
{
    let chunks = evidence_chunks(bv, mask);
    if chunks.len() > 0 {
        let picked = pick_evidence(
            chunks,
            rank,
            empty_mask(chunks.len()),
            evidence_limit(max, chunks.len() as int),
        );
        let secs = marked_sections(chunks, picked, bv.len());
        lemma_marked_sections_increasing(chunks, picked, bv.len());
        let bases = bases_from(bv, secs, max, 0);
        lemma_bases_fit(bv, secs, max, 0);
        if bases.len() > 0 {
            let total = sat_sub(max, base_length(bases));
            let st0 = (empty_mask(chunks.len()), total, Seq::new(bv.len(), |s: int| 0int));
            lemma_lines_total_none(chunks, chunks.len());
            assert(choice_accounted(chunks, st0, total));
            lemma_choose_accounted(chunks, picked, bases, rank, st0, total);
            let st = choose_evidence(chunks, picked, bases, rank, st0);
            let texts = evidence_texts(bases, chunks, st.0);
            reveal_strlit("\n\n");
            lemma_join_len(texts, "\n\n"@);
            lemma_texts_len(bases, chunks, st.0);
            lemma_base_length_heads(bases);
            lemma_lines_over_bound(bases, chunks, st.0);
            assert(project_evidence(bv, q, max, mask, rank).0 == join(texts, "\n\n"@));
        }
    }
}

} // verus!

verus! {

proof fn lemma_section_count_set(chunks: Seq<(int, int, Seq<char>)>, marked: Seq<bool>, j: int, s: int)
    requires
        0 <= j < chunks.len(),
        j < marked.len(),
        !marked[j],
    ensures
        section_count(chunks, marked.update(j, true), s) == section_count(chunks, marked, s) + if chunks[j].0
            == s {
            1nat
        } else {
            0nat
        },
    decreases chunks.len(),
{
    if j < chunks.len() - 1 {
        lemma_section_count_set(chunks.drop_last(), marked, j, s);
    } else {
        lemma_section_count_same(chunks.drop_last(), marked, marked.update(j, true), s);
    }
}

proof fn lemma_section_count_same(chunks: Seq<(int, int, Seq<char>)>, a: Seq<bool>, b: Seq<bool>, s: int)
    requires
        forall|k: int| 0 <= k < chunks.len() ==> wanted_at(a, k) == wanted_at(b, k),
    ensures
        section_count(chunks, a, s) == section_count(chunks, b, s),
    decreases chunks.len(),
{
    if chunks.len() > 0 {
        lemma_section_count_same(chunks.drop_last(), a, b, s);
    }
}

/// What picking keeps: no section beyond its cap, no more picks than the limit.
pub open spec fn picks_capped(chunks: Seq<(int, int, Seq<char>)>, picked: Seq<bool>, limit: int) -> bool {
    &&& forall|s: int| #[trigger] section_count(chunks, picked, s) <= MAX_PROJECT_CHUNKS_PER_SECTION
    &&& count_true(picked) <= limit
}

proof fn lemma_picks_capped(chunks: Seq<(int, int, Seq<char>)>, rank: Seq<int>, picked: Seq<bool>, limit: int)
    requires
        picks_capped(chunks, picked, limit),
    ensures
        picks_capped(chunks, pick_evidence(chunks, rank, picked, limit), limit),
    decreases rank.len(),
{
    if rank.len() > 0 && count_true(picked) < limit {
        let j = rank[0];
        let ok = 0 <= j < chunks.len() && j < picked.len() && !picked[j] && section_count(
            chunks,
            picked,
            chunks[j].0,
        ) < MAX_PROJECT_CHUNKS_PER_SECTION;
        if ok {
            let p2 = picked.update(j, true);
            lemma_count_set(picked, j);
            assert forall|s: int| #[trigger] section_count(chunks, p2, s) <= MAX_PROJECT_CHUNKS_PER_SECTION by {
                lemma_section_count_set(chunks, picked, j, s);
            }
            lemma_picks_capped(chunks, rank.drop_first(), p2, limit);
        } else {
            lemma_picks_capped(chunks, rank.drop_first(), picked, limit);
        }
    }
}

proof fn lemma_section_count_none(chunks: Seq<(int, int, Seq<char>)>, n: nat, s: int)
    ensures
        section_count(chunks, empty_mask(n), s) == 0,
    decreases chunks.len(),
{
    if chunks.len() > 0 {
        lemma_section_count_none(chunks.drop_last(), n, s);
    }
}

/// Evidence picking keeps its caps: at most three chunks from any one
/// section, and never more chunks than the evidence limit.
pub proof fn evidence_picks_keep_their_caps(
    bv: Seq<(Seq<char>, Seq<char>, Seq<char>)>,
    max: int,
    mask: Seq<bool>,
    rank: Seq<int>,
)
    ensures
        ({
            let chunks = evidence_chunks(bv, mask);
            let limit = evidence_limit(max, chunks.len() as int);
            let picked = pick_evidence(chunks, rank, empty_mask(chunks.len()), limit);
            &&& forall|s: int| #[trigger] section_count(chunks, picked, s) <= MAX_PROJECT_CHUNKS_PER_SECTION
            &&& count_true(picked) <= MAX_PROJECT_EVIDENCE_CHUNKS
        }),
{
    let chunks = evidence_chunks(bv, mask);
    let limit = evidence_limit(max, chunks.len() as int);
    let p0 = empty_mask(chunks.len());
    crate::planning::select::lemma_count_zero(chunks.len());
    assert forall|s: int| #[trigger] section_count(chunks, p0, s) <= MAX_PROJECT_CHUNKS_PER_SECTION by {
        lemma_section_count_none(chunks, chunks.len(), s);
    }
    if limit >= 0 {
        lemma_picks_capped(chunks, rank, p0, limit);
    } else {
        assert(pick_evidence(chunks, rank, p0, limit) == p0);
    }
}

} // verus!

verus! {

proof fn lemma_section_count_has(chunks: Seq<(int, int, Seq<char>)>, marked: Seq<bool>, j: int)
    requires
        0 <= j < chunks.len(),
        wanted_at(marked, j),
    ensures
        section_count(chunks, marked, chunks[j].0) >= 1,
    decreases chunks.len(),
{
    if j < chunks.len() - 1 {
        lemma_section_count_has(chunks.drop_last(), marked, j);
    }
}

/// Picking only adds: counts of every section, and the picks, never drop.
proof fn lemma_pick_grows(chunks: Seq<(int, int, Seq<char>)>, rank: Seq<int>, picked: Seq<bool>, limit: int)
    ensures
        forall|s: int| #[trigger] section_count(chunks, pick_evidence(chunks, rank, picked, limit), s)
            >= section_count(chunks, picked, s),
        count_true(pick_evidence(chunks, rank, picked, limit)) >= count_true(picked),
    decreases rank.len(),
{
    if rank.len() > 0 && count_true(picked) < limit {
        let j = rank[0];
        let ok = 0 <= j < chunks.len() && j < picked.len() && !picked[j] && section_count(
            chunks,
            picked,
            chunks[j].0,
        ) < MAX_PROJECT_CHUNKS_PER_SECTION;
        if ok {
            let p2 = picked.update(j, true);
            lemma_count_set(picked, j);
            assert forall|s: int| #[trigger] section_count(chunks, p2, s) >= section_count(chunks, picked, s) by {
                lemma_section_count_set(chunks, picked, j, s);
            }
            lemma_pick_grows(chunks, rank.drop_first(), p2, limit);
        } else {
            lemma_pick_grows(chunks, rank.drop_first(), picked, limit);
        }
    }
}

proof fn lemma_pick_reaches(
    chunks: Seq<(int, int, Seq<char>)>,
    rank: Seq<int>,
    picked: Seq<bool>,
    limit: int,
    j: int,
)
    requires
        0 <= j < chunks.len(),
        picked.len() == chunks.len(),
        wanted_at(picked, j) || rank.contains(j),
    ensures
        section_count(chunks, pick_evidence(chunks, rank, picked, limit), chunks[j].0) >= 1 || count_true(
            pick_evidence(chunks, rank, picked, limit),
        ) >= limit,
    decreases rank.len(),
{
    let p = pick_evidence(chunks, rank, picked, limit);
    if rank.len() == 0 || count_true(picked) >= limit {
        if wanted_at(picked, j) {
            lemma_section_count_has(chunks, picked, j);
        }
    } else {
        let j0 = rank[0];
        let ok = 0 <= j0 < chunks.len() && j0 < picked.len() && !picked[j0] && section_count(
            chunks,
            picked,
            chunks[j0].0,
        ) < MAX_PROJECT_CHUNKS_PER_SECTION;
        let p2 = if ok {
            picked.update(j0, true)
        } else {
            picked
        };
        assert(p == pick_evidence(chunks, rank.drop_first(), p2, limit));
        lemma_pick_grows(chunks, rank.drop_first(), p2, limit);
        if wanted_at(picked, j) {
            assert(wanted_at(p2, j));
            lemma_pick_reaches(chunks, rank.drop_first(), p2, limit, j);
        } else if j == j0 {
            if ok {
                assert(wanted_at(p2, j));
                lemma_pick_reaches(chunks, rank.drop_first(), p2, limit, j);
            } else {
                assert(section_count(chunks, picked, chunks[j].0) >= MAX_PROJECT_CHUNKS_PER_SECTION);
                assert(section_count(chunks, p, chunks[j].0) >= section_count(chunks, p2, chunks[j].0));
            }
        } else {
            let t = choose|t: int| 0 <= t < rank.len() && rank[t] == j;
            assert(t > 0);
            assert(rank.drop_first()[t - 1] == j);
            assert(rank.drop_first().contains(j));
            lemma_pick_reaches(chunks, rank.drop_first(), p2, limit, j);
        }
    }
}

/// Ranked evidence reaches every chosen section: when the rank lists every
/// chunk and picking stops short of the limit, each section with a chunk has
/// at least one picked chunk, so no section is left to be filled afterwards.
pub proof fn evidence_reaches_every_section(chunks: Seq<(int, int, Seq<char>)>, rank: Seq<int>, limit: int)
    requires
        forall|j: int| 0 <= j < chunks.len() ==> rank.contains(j),
    ensures
        count_true(pick_evidence(chunks, rank, empty_mask(chunks.len()), limit)) < limit ==> forall|j: int|
            0 <= j < chunks.len() ==> section_count(
                chunks,
                pick_evidence(chunks, rank, empty_mask(chunks.len()), limit),
                #[trigger] chunks[j].0,
            ) >= 1,
{
    assert forall|j: int| 0 <= j < chunks.len() implies section_count(
        chunks,
        pick_evidence(chunks, rank, empty_mask(chunks.len()), limit),
        #[trigger] chunks[j].0,
    ) >= 1 || count_true(pick_evidence(chunks, rank, empty_mask(chunks.len()), limit)) >= limit by {
        lemma_pick_reaches(chunks, rank, empty_mask(chunks.len()), limit, j);
    }
}

} // verus!
