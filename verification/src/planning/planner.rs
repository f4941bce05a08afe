//! The planning context planner: which sections and reference blocks go into
//! a planning prompt, and how they are cut to the budget.
use vstd::prelude::*;
use crate::text::{chars_of, eq_str, join, string_of, views_of};
use crate::planning::terms::{
    content_relevance, content_relevance_of, heading_relevance, heading_relevance_of,
    query_terms, query_terms_of, term_score, heading_term_score,
};
use crate::planning::blocks::{
    PlanningBlock, blocks_view, parse_project_context, parse_reference_context, project_blocks,
    reference_blocks,
};
use crate::planning::select::{
    count_true, empty_mask, fill, fill_exec, full_mask, new_mask, set_indices, set_indices_of,
    count_of, lemma_count_bound, lemma_count_push, lemma_set_indices_range,
};
use crate::planning::render::{
    ints, min_int, render_project_blocks, render_project_from, render_reference,
    render_reference_blocks, sat_sub, sat_u16, truncate_block, truncate_block_of,
};

verus! {

/// The version of the planning prompt layout.
pub const PLANNING_PROMPT_VERSION: &'static str = "planning-v6";

/// Most project sections rendered.
pub const MAX_PROJECT_SECTIONS: usize = 12;

/// Most reference blocks rendered.
pub const MAX_REFERENCE_BLOCKS: usize = 12;

/// The smallest share of the budget worth a block.
pub const MIN_BLOCK_BUDGET: usize = 80;

/// The score given to a core section before any keyword score.
pub const CORE_SECTION_BONUS: u32 = 10_000;

/// What the planning prompt is for.
#[derive(Debug, Clone, Copy, PartialEq, Eq, Structural)]
pub enum PlanningContextMode {
    Generate,
    Extract,
    ExtractRewrite,
}

/// The context chosen for a planning prompt.
#[derive(Debug, Clone, PartialEq, Eq)]
pub struct PlanningContextPlan {
    pub project_context: String,
    pub reference_context: String,
    pub selected_project_sections: u16,
    pub selected_project_chunks: u16,
    pub selected_reference_blocks: u16,
    pub omitted_reference_blocks: u16,
}

/// A block of context handed out for semantic scoring.
#[derive(Debug, Clone, PartialEq, Eq)]
pub struct PlanningContextBlock {
    pub id: String,
    pub heading: String,
    pub content: String,
}

/// A chunk of a project section handed out for semantic scoring.
#[derive(Debug, Clone, PartialEq, Eq)]
pub struct PlanningSourceChunk {
    pub id: String,
    pub section_id: String,
    pub content: String,
}

/// The sections every planning prompt keeps when it can.
pub open spec fn core_section_ids() -> Seq<Seq<char>> {
    seq![
        "seed-premise"@,
        "seed-genre-promise"@,
        "engine-protagonist"@,
        "engine-antagonism"@,
        "engine-stakes"@,
        "engine-ending"@,
    ]
}

/// A core section identifier.
pub open spec fn is_core(id: Seq<char>) -> bool {
    core_section_ids().contains(id)
}

/// Whether a section identifier is one of the core sections.
pub fn is_core_section(id: &Vec<char>) -> (r: bool)
    ensures
        r == is_core(id@),
{
    let r = eq_str(id, "seed-premise") || eq_str(id, "seed-genre-promise") || eq_str(
        id,
        "engine-protagonist",
    ) || eq_str(id, "engine-antagonism") || eq_str(id, "engine-stakes") || eq_str(
        id,
        "engine-ending",
    );
    assert(r == is_core(id@)) by {
        if is_core(id@) {
            let k = choose|k: int| 0 <= k < 6 && core_section_ids()[k] == id@;
            assert(0 <= k < 6);
        }
        if r {
            if id@ == "seed-premise"@ {
                assert(core_section_ids()[0] == id@);
            } else if id@ == "seed-genre-promise"@ {
                assert(core_section_ids()[1] == id@);
            } else if id@ == "engine-protagonist"@ {
                assert(core_section_ids()[2] == id@);
            } else if id@ == "engine-antagonism"@ {
                assert(core_section_ids()[3] == id@);
            } else if id@ == "engine-stakes"@ {
                assert(core_section_ids()[4] == id@);
            } else {
                assert(core_section_ids()[5] == id@);
            }
        }
    };
    r
}

/// The keyword relevance of a block: heading and content together.
pub open spec fn block_relevance(q: Seq<char>, b: (Seq<char>, Seq<char>, Seq<char>)) -> u32 {
    heading_relevance(q, b.1).saturating_add(content_relevance(q, b.2))
}

/// The rank of each section: a bonus for core sections plus keyword relevance.
pub open spec fn section_scores(bv: Seq<(Seq<char>, Seq<char>, Seq<char>)>, q: Seq<char>) -> Seq<
    u32,
> {
    Seq::new(
        bv.len(),
        |i: int|
            (if is_core(bv[i].0) {
                CORE_SECTION_BONUS
            } else {
                0u32
            }).saturating_add(block_relevance(q, bv[i])),
    )
}

/// The keyword relevance of each block.
pub open spec fn relevance_scores(bv: Seq<(Seq<char>, Seq<char>, Seq<char>)>, q: Seq<char>) -> Seq<
    u32,
> {
    Seq::new(bv.len(), |i: int| block_relevance(q, bv[i]))
}

/// How many core sections there are.
pub open spec fn core_count(bv: Seq<(Seq<char>, Seq<char>, Seq<char>)>) -> nat
    decreases bv.len(),
{
    if bv.len() == 0 {
        0
    } else {
        core_count(bv.drop_last()) + if is_core(bv.last().0) {
            1nat
        } else {
            0nat
        }
    }
}

/// How many project sections may be rendered.
pub open spec fn section_limit(bv: Seq<(Seq<char>, Seq<char>, Seq<char>)>, max: int) -> int {
    let by_budget = max / (MIN_BLOCK_BUDGET as int);
    let cores = min_int(core_count(bv) as int, MAX_PROJECT_SECTIONS as int);
    let wanted = if by_budget > cores {
        by_budget
    } else {
        cores
    };
    let wanted = if wanted < 1 {
        1
    } else {
        wanted
    };
    min_int(min_int(MAX_PROJECT_SECTIONS as int, wanted), bv.len() as int)
}

/// The first `limit` core sections.
pub open spec fn core_prefix(bv: Seq<(Seq<char>, Seq<char>, Seq<char>)>, limit: int) -> Seq<bool>
    decreases bv.len(),
{
    if bv.len() == 0 {
        seq![]
    } else {
        let m = core_prefix(bv.drop_last(), limit);
        m.push(is_core(bv.last().0) && count_true(m) < limit)
    }
}

/// `n - c` for counts, or zero.
pub open spec fn rest_of(n: int, c: nat) -> nat {
    if n > c {
        (n - c) as nat
    } else {
        0
    }
}

/// `select_project_context_by_section`: the core sections first, then the best
/// ranked ones up to the limit, rendered in document order within the budget.
pub open spec fn project_by_section(
    bv: Seq<(Seq<char>, Seq<char>, Seq<char>)>,
    q: Seq<char>,
    max: int,
) -> (Seq<char>, u16, u16) {
    if bv.len() == 0 || max == 0 {
        (seq![], 0, 0)
    } else {
        let limit = section_limit(bv, max);
        let m0 = core_prefix(bv, limit);
        let mask = fill(section_scores(bv, q), m0, full_mask(bv.len()), rest_of(limit, count_true(m0)));
        let parts = render_project_from(bv, set_indices(mask), q, max, 0);
        (join(parts, "\n\n"@), sat_u16(parts.len() as int), 0)
    }
}

fn block_scores(
    blocks: &Vec<PlanningBlock>,
    terms: &Vec<Vec<char>>,
    q: &Vec<char>,
    core_bonus: bool,
) -> (r: Vec<u32>)
    requires
        views_of(terms@) == query_terms(q@),
    ensures
        core_bonus ==> r@ == section_scores(blocks_view(blocks@), q@),
        !core_bonus ==> r@ == relevance_scores(blocks_view(blocks@), q@),
{
    let ghost bv = blocks_view(blocks@);
    let mut r: Vec<u32> = Vec::new();
    let mut i: usize = 0;
    while i < blocks.len()
        invariant
            i <= blocks.len(),
            bv == blocks_view(blocks@),
            views_of(terms@) == query_terms(q@),
            r.len() == i,
            core_bonus ==> forall|j: int| 0 <= j < i ==> #[trigger] r@[j] == section_scores(bv, q@)[j],
            !core_bonus ==> forall|j: int| 0 <= j < i ==> #[trigger] r@[j] == relevance_scores(bv, q@)[j],
        decreases blocks.len() - i,
    {
        let h = heading_relevance_of(terms, &blocks[i].heading);
        let c = content_relevance_of(terms, &blocks[i].content);
        let rel = h.saturating_add(c);
        assert(rel == block_relevance(q@, bv[i as int]));
        let score = if core_bonus {
            let bonus: u32 = if is_core_section(&blocks[i].id) {
                CORE_SECTION_BONUS
            } else {
                0
            };
            bonus.saturating_add(rel)
        } else {
            rel
        };
        r.push(score);
        i = i + 1;
    }
    proof {
        if core_bonus {
            assert(r@ =~= section_scores(bv, q@));
        } else {
            assert(r@ =~= relevance_scores(bv, q@));
        }
    }
    r
}

pub(crate) fn core_prefix_of(blocks: &Vec<PlanningBlock>, limit: usize) -> (r: (Vec<bool>, usize, usize))
    ensures
        r.0@ == core_prefix(blocks_view(blocks@), limit as int),
        r.1 == count_true(r.0@),
        r.2 == core_count(blocks_view(blocks@)),
        r.0.len() == blocks.len(),
{
    let ghost bv = blocks_view(blocks@);
    let mut m: Vec<bool> = Vec::new();
    let mut taken: usize = 0;
    let mut cores: usize = 0;
    let mut i: usize = 0;
    assert(bv.take(0) =~= Seq::<(Seq<char>, Seq<char>, Seq<char>)>::empty());
    while i < blocks.len()
        invariant
            i <= blocks.len(),
            bv == blocks_view(blocks@),
            m@ == core_prefix(bv.take(i as int), limit as int),
            taken == count_true(m@),
            cores == core_count(bv.take(i as int)),
            taken <= i,
            cores <= i,
            m.len() == i,
        decreases blocks.len() - i,
    {
        assert(bv.take(i + 1).drop_last() =~= bv.take(i as int));
        let core = is_core_section(&blocks[i].id);
        let pick = core && taken < limit;
        proof {
            lemma_count_push(m@, pick);
        }
        m.push(pick);
        if pick {
            taken = taken + 1;
        }
        if core {
            cores = cores + 1;
        }
        i = i + 1;
    }
    assert(bv.take(blocks.len() as int) =~= bv);
    (m, taken, cores)
}

pub(crate) fn select_project_context_by_section(
    blocks: &Vec<PlanningBlock>,
    terms: &Vec<Vec<char>>,
    q: &Vec<char>,
    max: usize,
) -> (r: (Vec<char>, u16, u16))
    requires
        views_of(terms@) == query_terms(q@),
    ensures
        (r.0@, r.1, r.2) == project_by_section(blocks_view(blocks@), q@, max as int),
{
    let ghost bv = blocks_view(blocks@);
    if blocks.len() == 0 || max == 0 {
        return (Vec::new(), 0, 0);
    }
    let n = blocks.len();
    let scores = block_scores(blocks, terms, q, true);
    let (mut mask, taken, cores) = core_prefix_of(blocks, 0);
    let by_budget = max / MIN_BLOCK_BUDGET;
    let capped = if cores < MAX_PROJECT_SECTIONS {
        cores
    } else {
        MAX_PROJECT_SECTIONS
    };
    let wanted = if by_budget > capped {
        by_budget
    } else {
        capped
    };
    let wanted = if wanted < 1 {
        1
    } else {
        wanted
    };
    let a = if MAX_PROJECT_SECTIONS < wanted {
        MAX_PROJECT_SECTIONS
    } else {
        wanted
    };
    let limit = if a < n {
        a
    } else {
        n
    };
    assert(limit as int == section_limit(bv, max as int));
    let (m0, taken, cores2) = core_prefix_of(blocks, limit);
    mask = m0;
    let all = new_mask(n, true);
    assert(all@ =~= full_mask(n as nat));
    let rest = if limit > taken {
        limit - taken
    } else {
        0
    };
    fill_exec(&scores, &mut mask, &all, rest);
    let idx = set_indices_of(&mask);
    proof {
        lemma_set_indices_range(mask@);
        assert(ints(idx@) == set_indices(mask@));
    }
    let (text, count) = render_project_blocks(blocks, &idx, q, max);
    (text, count, 0)
}

/// `select_reference_context` with keyword ranking: the first block, then the
/// blocks that match the query, best first, rendered in document order; when
/// nothing fits, the first block cut to the budget.
pub open spec fn reference_selection(
    bv: Seq<(Seq<char>, Seq<char>, Seq<char>)>,
    q: Seq<char>,
    max: int,
) -> (Seq<char>, u16) {
    if bv.len() == 0 || max == 0 {
        (seq![], 0)
    } else {
        let scores = relevance_scores(bv, q);
        let eligible = Seq::new(bv.len(), |i: int| scores[i] > 0);
        let by_budget = if max / (MIN_BLOCK_BUDGET as int) < 1 {
            1
        } else {
            max / (MIN_BLOCK_BUDGET as int)
        };
        let limit = min_int(min_int(MAX_REFERENCE_BLOCKS as int, by_budget), bv.len() as int);
        let m0 = empty_mask(bv.len()).update(0, true);
        let mask = fill(scores, m0, eligible, rest_of(limit, 1));
        let r = render_reference(bv, set_indices(mask), q, max);
        if r.0.len() == 0 {
            (truncate_block(bv[0].2, q, max), 1)
        } else {
            r
        }
    }
}

pub(crate) fn select_reference_context(
    blocks: &Vec<PlanningBlock>,
    terms: &Vec<Vec<char>>,
    q: &Vec<char>,
    max: usize,
) -> (r: (Vec<char>, u16))
    requires
        views_of(terms@) == query_terms(q@),
    ensures
        (r.0@, r.1) == reference_selection(blocks_view(blocks@), q@, max as int),
{
    let ghost bv = blocks_view(blocks@);
    if blocks.len() == 0 || max == 0 {
        return (Vec::new(), 0);
    }
    let n = blocks.len();
    let scores = block_scores(blocks, terms, q, false);
    let mut eligible: Vec<bool> = Vec::new();
    let mut i: usize = 0;
    while i < n
        invariant
            i <= n == scores.len(),
            eligible.len() == i,
            forall|j: int| 0 <= j < i ==> #[trigger] eligible@[j] == (scores@[j] > 0),
        decreases n - i,
    {
        eligible.push(scores[i] > 0);
        i = i + 1;
    }
    assert(eligible@ =~= Seq::new(n as nat, |j: int| scores@[j] > 0));
    let by_budget = if max / MIN_BLOCK_BUDGET < 1 {
        1
    } else {
        max / MIN_BLOCK_BUDGET
    };
    let a = if MAX_REFERENCE_BLOCKS < by_budget {
        MAX_REFERENCE_BLOCKS
    } else {
        by_budget
    };
    let limit = if a < n {
        a
    } else {
        n
    };
    let mut mask = new_mask(n, false);
    mask.set(0, true);
    assert(mask@ =~= empty_mask(n as nat).update(0, true));
    let rest = if limit > 1 {
        limit - 1
    } else {
        0
    };
    fill_exec(&scores, &mut mask, &eligible, rest);
    let idx = set_indices_of(&mask);
    proof {
        lemma_set_indices_range(mask@);
    }
    let (text, count) = render_reference_blocks(blocks, &idx, q, max);
    if text.len() == 0 {
        let fallback = truncate_block_of(&blocks[0].content, q, max);
        return (fallback, 1);
    }
    (text, count)
}

/// The full plan for given project text, reference text and query.
pub open spec fn plan_spec(
    project: Seq<char>,
    reference: Seq<char>,
    q: Seq<char>,
    mode: PlanningContextMode,
    max_project: int,
    max_reference: int,
) -> (Seq<char>, Seq<char>, u16, u16, u16, u16) {
    let pb = project_blocks(project);
    let rb = reference_blocks(reference);
    let p = project_by_section(pb, q, max_project);
    let limit = if mode == PlanningContextMode::Generate {
        min_int(max_reference, max_project / 4)
    } else {
        max_reference
    };
    let r = reference_selection(rb, q, limit);
    (p.0, r.0, p.1, p.2, r.1, sat_u16(sat_sub(rb.len() as int, r.1 as int)))
}

/// The plan as a tuple of its fields.
pub open spec fn plan_view(p: PlanningContextPlan) -> (Seq<char>, Seq<char>, u16, u16, u16, u16) {
    (
        p.project_context@,
        p.reference_context@,
        p.selected_project_sections,
        p.selected_project_chunks,
        p.selected_reference_blocks,
        p.omitted_reference_blocks,
    )
}

/// Chooses the project sections and reference blocks for a planning prompt.
pub struct PlanningContextPlanner;

impl PlanningContextPlanner {
    /// Plans the context by keyword relevance: core sections first, then the
    /// sections and reference blocks that match the query, each cut to its
    /// share of the budget. In generation mode the reference budget is at most
    /// a quarter of the project budget.
    pub fn plan(
        project_context: &str,
        reference_content: &str,
        query: &str,
        mode: PlanningContextMode,
        max_project_chars: usize,
        max_reference_chars: usize,
    ) -> (r: PlanningContextPlan)
        ensures
            plan_view(r) == plan_spec(
                project_context@,
                reference_content@,
                query@,
                mode,
                max_project_chars as int,
                max_reference_chars as int,
            ),
    {
        let pc = chars_of(project_context);
        let rc = chars_of(reference_content);
        let q = chars_of(query);
        let terms = query_terms_of(&q);
        let project_blocks = parse_project_context(&pc);
        let reference_blocks = parse_reference_context(&rc);
        let (project_text, sections, chunks) = select_project_context_by_section(
            &project_blocks,
            &terms,
            &q,
            max_project_chars,
        );
        let limit = match mode {
            PlanningContextMode::Generate => {
                let quarter = max_project_chars / 4;
                if max_reference_chars < quarter {
                    max_reference_chars
                } else {
                    quarter
                }
            },
            _ => max_reference_chars,
        };
        let (reference_text, selected) = select_reference_context(
            &reference_blocks,
            &terms,
            &q,
            limit,
        );
        let total = reference_blocks.len();
        let left = if total > selected as usize {
            total - selected as usize
        } else {
            0
        };
        let omitted: u16 = if left > 65535 {
            65535
        } else {
            left as u16
        };
        PlanningContextPlan {
            project_context: string_of(&project_text),
            reference_context: string_of(&reference_text),
            selected_project_sections: sections,
            selected_project_chunks: chunks,
            selected_reference_blocks: selected,
            omitted_reference_blocks: omitted,
        }
    }
}

} // verus!

verus! {

/// The view of a context block handed out.
pub open spec fn context_block_view(b: PlanningContextBlock) -> (Seq<char>, Seq<char>, Seq<char>) {
    (b.id@, b.heading@, b.content@)
}

/// The view of a source chunk handed out.
pub open spec fn source_chunk_view(c: PlanningSourceChunk) -> (Seq<char>, Seq<char>, Seq<char>) {
    (c.id@, c.section_id@, c.content@)
}

/// The keyword relevance of each chunk.
pub open spec fn chunk_scores(chunks: Seq<Seq<char>>, q: Seq<char>) -> Seq<u32> {
    Seq::new(chunks.len(), |i: int| content_relevance(q, chunks[i]))
}

/// `reference_semantic_candidates`: the reference blocks worth scoring
/// semantically, spread over the document.
pub open spec fn reference_candidates(reference: Seq<char>, q: Seq<char>, limit: nat) -> Seq<
    (Seq<char>, Seq<char>, Seq<char>),
> {
    let bv = reference_blocks(reference);
    let idx = crate::planning::select::spread_select(relevance_scores(bv, q), limit);
    Seq::new(idx.len(), |k: int| bv[idx[k]])
}

/// `project_semantic_candidates` for one section.
pub open spec fn section_candidates(
    sec: (Seq<char>, Seq<char>, Seq<char>),
    q: Seq<char>,
    limit: nat,
) -> Seq<(Seq<char>, Seq<char>, Seq<char>)> {
    let ch = crate::planning::blocks::section_chunks(sec.2);
    let idx = crate::planning::select::spread_select(chunk_scores(ch, q), limit);
    Seq::new(
        idx.len(),
        |k: int| (sec.0 + "#chunk-"@ + crate::text::decimal((idx[k] + 1) as nat), sec.0, ch[idx[k]]),
    )
}

/// The chunk candidates of all sections, in section order.
pub open spec fn project_candidates(
    secs: Seq<(Seq<char>, Seq<char>, Seq<char>)>,
    q: Seq<char>,
    limit: nat,
) -> Seq<(Seq<char>, Seq<char>, Seq<char>)>
    decreases secs.len(),
{
    if secs.len() == 0 {
        seq![]
    } else {
        project_candidates(secs.drop_last(), q, limit) + section_candidates(secs.last(), q, limit)
    }
}

/// Leading `#` characters removed.
pub open spec fn strip_hashes(s: Seq<char>) -> Seq<char>
    decreases s.len(),
{
    if s.len() > 0 && s[0] == '#' {
        strip_hashes(s.drop_first())
    } else {
        s
    }
}

/// At most the first `n` characters.
pub open spec fn take_upto(s: Seq<char>, n: int) -> Seq<char> {
    if n >= s.len() {
        s
    } else {
        s.take(n)
    }
}

/// One line of a section brief: up to six headings and two leading lines.
pub open spec fn brief_step(st: (Seq<Seq<char>>, Seq<Seq<char>>), line: Seq<char>) -> (
    Seq<Seq<char>>,
    Seq<Seq<char>>,
) {
    let t = crate::text::trim(line);
    if t.len() == 0 {
        st
    } else if t[0] == '#' {
        let h = crate::text::trim(strip_hashes(t));
        if h.len() > 0 && st.0.len() < 6 {
            (st.0.push(h), st.1)
        } else {
            st
        }
    } else if st.1.len() < 2 {
        (st.0, st.1.push(take_upto(t, 160)))
    } else {
        st
    }
}

pub open spec fn brief_fold(ls: Seq<Seq<char>>) -> (Seq<Seq<char>>, Seq<Seq<char>>)
    decreases ls.len(),
{
    if ls.len() == 0 {
        (seq![], seq![])
    } else {
        brief_step(brief_fold(ls.drop_last()), ls.last())
    }
}

/// `project_section_brief`: the headings and first lines of a section, joined
/// and cut to `max` characters; the raw text when it has neither.
pub open spec fn section_brief(content: Seq<char>, max: int) -> Seq<char> {
    if max == 0 || crate::text::trim(content).len() == 0 {
        seq![]
    } else {
        let st = brief_fold(crate::text::lines(crate::text::crlf_to_lf(content)));
        let compact = join(st.0 + st.1, "；"@);
        if compact.len() == 0 {
            take_upto(content, max)
        } else {
            take_upto(compact, max)
        }
    }
}

fn take_upto_of(v: &Vec<char>, n: usize) -> (r: Vec<char>)
    ensures
        r@ == take_upto(v@, n as int),
{
    if n >= v.len() {
        crate::text::slice_chars(v, 0, v.len())
    } else {
        crate::text::slice_chars(v, 0, n)
    }
}

fn strip_hashes_of(v: &Vec<char>) -> (r: Vec<char>)
    ensures
        r@ == strip_hashes(v@),
{
    let mut i: usize = 0;
    assert(v@.skip(0) =~= v@);
    while i < v.len() && v[i] == '#'
        invariant
            i <= v.len(),
            strip_hashes(v@) == strip_hashes(v@.skip(i as int)),
        decreases v.len() - i,
    {
        assert(v@.skip(i as int).drop_first() =~= v@.skip(i + 1));
        i = i + 1;
    }
    let r = crate::text::slice_chars(v, i, v.len());
    assert(r@ =~= v@.skip(i as int));
    r
}

fn string_block(b: &PlanningBlock) -> (r: PlanningContextBlock)
    ensures
        context_block_view(r) == b@,
{
    PlanningContextBlock {
        id: string_of(&b.id),
        heading: string_of(&b.heading),
        content: string_of(&b.content),
    }
}

impl PlanningContextPlanner {
    /// The reference blocks to score semantically: the first block, the best
    /// keyword matches, evenly spread samples and the next best, at most
    /// `limit`, in document order.
    pub fn reference_semantic_candidates(reference_content: &str, query: &str, limit: usize) -> (r:
        Vec<PlanningContextBlock>)
        ensures
            r@.map_values(|b: PlanningContextBlock| context_block_view(b)) == reference_candidates(
                reference_content@,
                query@,
                limit as nat,
            ),
    {
        let rc = chars_of(reference_content);
        let q = chars_of(query);
        let terms = query_terms_of(&q);
        let blocks = parse_reference_context(&rc);
        let scores = block_scores(&blocks, &terms, &q, false);
        let idx = crate::planning::select::spread_select_of(&scores, limit);
        let ghost bv = blocks_view(blocks@);
        let ghost iv = ints(idx@);
        let mut out: Vec<PlanningContextBlock> = Vec::new();
        let mut k: usize = 0;
        while k < idx.len()
            invariant
                k <= idx.len(),
                bv == blocks_view(blocks@),
                iv == ints(idx@),
                forall|j: int| 0 <= j < idx.len() ==> #[trigger] idx@[j] < scores.len(),
                scores.len() == blocks.len(),
                out.len() == k,
                forall|j: int| 0 <= j < k ==> #[trigger] context_block_view(out@[j]) == bv[iv[j]],
            decreases idx.len() - k,
        {
            out.push(string_block(&blocks[idx[k]]));
            k = k + 1;
        }
        assert(out@.map_values(|b: PlanningContextBlock| context_block_view(b)) =~= reference_candidates(
            reference_content@,
            query@,
            limit as nat,
        ));
        out
    }

    /// A short navigation line for a project section: up to six headings and
    /// two leading lines, joined by `；`, at most `max_chars` characters.
    pub fn project_section_brief(content: &str, max_chars: usize) -> (r: String)
        ensures
            r@ == section_brief(content@, max_chars as int),
    {
        let cv = chars_of(content);
        if max_chars == 0 || crate::text::is_blank(&cv) {
            return String::new();
        }
        let normalized = crate::text::crlf_to_lf_chars(&cv);
        let ls = crate::text::lines_of(&normalized);
        let mut headings: Vec<Vec<char>> = Vec::new();
        let mut leads: Vec<Vec<char>> = Vec::new();
        let mut i: usize = 0;
        assert(views_of(ls@).take(0) =~= Seq::<Seq<char>>::empty());
        assert(views_of(headings@) =~= Seq::<Seq<char>>::empty());
        assert(views_of(leads@) =~= Seq::<Seq<char>>::empty());
        while i < ls.len()
            invariant
                i <= ls.len(),
                (views_of(headings@), views_of(leads@)) == brief_fold(views_of(ls@).take(i as int)),
            decreases ls.len() - i,
        {
            let ghost prefix = views_of(ls@).take(i + 1);
            assert(prefix.drop_last() =~= views_of(ls@).take(i as int));
            assert(prefix.last() == ls@[i as int]@);
            let t = crate::text::trim_chars(&ls[i]);
            if t.len() == 0 {
            } else if t[0] == '#' {
                let stripped = strip_hashes_of(&t);
                let h = crate::text::trim_chars(&stripped);
                if h.len() > 0 && headings.len() < 6 {
                    let ghost before = views_of(headings@);
                    headings.push(h);
                    assert(views_of(headings@) =~= before.push(headings@.last()@));
                }
            } else if leads.len() < 2 {
                let lead = take_upto_of(&t, 160);
                let ghost before = views_of(leads@);
                leads.push(lead);
                assert(views_of(leads@) =~= before.push(leads@.last()@));
            }
            i = i + 1;
        }
        assert(views_of(ls@).take(ls.len() as int) =~= views_of(ls@));
        let ghost hv = views_of(headings@);
        let ghost lv = views_of(leads@);
        let mut parts = headings;
        let mut k: usize = 0;
        while k < leads.len()
            invariant
                k <= leads.len(),
                lv == views_of(leads@),
                views_of(parts@) == hv + lv.take(k as int),
            decreases leads.len() - k,
        {
            let piece = crate::text::slice_chars(&leads[k], 0, leads[k].len());
            assert(piece@ == lv[k as int]);
            let ghost before = views_of(parts@);
            parts.push(piece);
            assert(views_of(parts@) =~= before.push(piece@));
            assert(hv + lv.take(k + 1) =~= (hv + lv.take(k as int)).push(lv[k as int]));
            k = k + 1;
        }
        assert(lv.take(leads.len() as int) =~= lv);
        let compact = crate::text::join_chars(&parts, "；");
        let r = if compact.len() == 0 {
            take_upto_of(&cv, max_chars)
        } else {
            take_upto_of(&compact, max_chars)
        };
        string_of(&r)
    }

    /// The chunks of each section worth scoring semantically, named
    /// `<section>#chunk-<n>`, at most `per_section_limit` per section.
    pub fn project_semantic_candidates(
        sections: &[PlanningContextBlock],
        query: &str,
        per_section_limit: usize,
    ) -> (r: Vec<PlanningSourceChunk>)
        ensures
            r@.map_values(|c: PlanningSourceChunk| source_chunk_view(c)) == project_candidates(
                sections@.map_values(|b: PlanningContextBlock| context_block_view(b)),
                query@,
                per_section_limit as nat,
            ),
    {
        let q = chars_of(query);
        let terms = query_terms_of(&q);
        let ghost sv = sections@.map_values(|b: PlanningContextBlock| context_block_view(b));
        let mut out: Vec<PlanningSourceChunk> = Vec::new();
        let mut s: usize = 0;
        assert(sv.take(0) =~= Seq::<(Seq<char>, Seq<char>, Seq<char>)>::empty());
        assert(out@.map_values(|c: PlanningSourceChunk| source_chunk_view(c)) =~= Seq::<
            (Seq<char>, Seq<char>, Seq<char>),
        >::empty());
        while s < sections.len()
            invariant
                s <= sections.len(),
                sv == sections@.map_values(|b: PlanningContextBlock| context_block_view(b)),
                views_of(terms@) == query_terms(q@),
                q@ == query@,
                out@.map_values(|c: PlanningSourceChunk| source_chunk_view(c)) == project_candidates(
                    sv.take(s as int),
                    query@,
                    per_section_limit as nat,
                ),
            decreases sections.len() - s,
        {
            assert(sv.take(s + 1).drop_last() =~= sv.take(s as int));
            let section = &sections[s];
            let sid = chars_of(section.id.as_str());
            let content = chars_of(section.content.as_str());
            assert(sv.take(s + 1).last() == (sid@, section.heading@, content@));
            let chunks = crate::planning::blocks::section_chunks_of(&content);
            let mut scores: Vec<u32> = Vec::new();
            let mut c: usize = 0;
            while c < chunks.len()
                invariant
                    c <= chunks.len(),
                    views_of(terms@) == query_terms(q@),
                    scores.len() == c,
                    forall|j: int| 0 <= j < c ==> #[trigger] scores@[j] == content_relevance(q@, chunks@[j]@),
                decreases chunks.len() - c,
            {
                scores.push(content_relevance_of(&terms, &chunks[c]));
                c = c + 1;
            }
            assert(scores@ =~= chunk_scores(views_of(chunks@), q@));
            let idx = crate::planning::select::spread_select_of(&scores, per_section_limit);
            let ghost base = out@.map_values(|c: PlanningSourceChunk| source_chunk_view(c));
            let ghost cands = section_candidates((sid@, section.heading@, content@), query@, per_section_limit as nat);
            let mut k: usize = 0;
            while k < idx.len()
                invariant
                    k <= idx.len(),
                    forall|j: int| 0 <= j < idx.len() ==> #[trigger] idx@[j] < chunks.len(),
                    scores.len() == chunks.len(),
                    ints(idx@) == crate::planning::select::spread_select(chunk_scores(views_of(chunks@), q@), per_section_limit as nat),
                    views_of(chunks@) == crate::planning::blocks::section_chunks(content@),
                    q@ == query@,
                    cands == section_candidates((sid@, section.heading@, content@), query@, per_section_limit as nat),
                    out@.map_values(|c: PlanningSourceChunk| source_chunk_view(c)) == base + cands.take(k as int),
                decreases idx.len() - k,
            {
                let mut id = crate::text::slice_chars(&sid, 0, sid.len());
                crate::text::extend_str(&mut id, "#chunk-");
                crate::text::push_decimal(&mut id, (idx[k] as u128) + 1);
                let item = PlanningSourceChunk {
                    id: string_of(&id),
                    section_id: string_of(&sid),
                    content: string_of(&chunks[idx[k]]),
                };
                assert(source_chunk_view(item) == cands[k as int]);
                let ghost before = out@.map_values(|c: PlanningSourceChunk| source_chunk_view(c));
                out.push(item);
                assert(out@.map_values(|c: PlanningSourceChunk| source_chunk_view(c)) =~= before.push(
                    source_chunk_view(item),
                ));
                k = k + 1;
                assert(out@.map_values(|c: PlanningSourceChunk| source_chunk_view(c)) =~= base + cands.take(k as int));
            }
            assert(cands.take(idx.len() as int) =~= cands);
            s = s + 1;
        }
        assert(sv.take(sections.len() as int) =~= sv);
        out
    }
}

/// `split_project_section_chunks`: a section cut into chunks of at most 600
/// characters.
pub fn split_project_section_chunks(value: &str) -> (r: Vec<String>)
    ensures
        r@.map_values(|s: String| s@) == crate::planning::blocks::section_chunks(value@),
{
    let v = chars_of(value);
    let chunks = crate::planning::blocks::section_chunks_of(&v);
    let mut out: Vec<String> = Vec::new();
    let mut k: usize = 0;
    while k < chunks.len()
        invariant
            k <= chunks.len(),
            out.len() == k,
            forall|j: int| 0 <= j < k ==> #[trigger] out@[j]@ == chunks@[j]@,
        decreases chunks.len() - k,
    {
        out.push(string_of(&chunks[k]));
        k = k + 1;
    }
    assert(out@.map_values(|s: String| s@) =~= views_of(chunks@));
    out
}

} // verus!
