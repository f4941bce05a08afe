//! What the keyword planning path keeps of its character budgets.
use vstd::prelude::*;
use vstd::arithmetic::div_mod::{lemma_fundamental_div_mod, lemma_mod_pos_bound};
use crate::text::{decimal, join};
use crate::planning::blocks::{project_blocks, reference_blocks};
use crate::planning::planner::{
    core_prefix, is_core, plan_spec, project_by_section, reference_selection, relevance_scores, rest_of,
    section_limit, section_scores, PlanningContextMode, MAX_PROJECT_SECTIONS, MAX_REFERENCE_BLOCKS,
    MIN_BLOCK_BUDGET,
};
use crate::planning::render::{
    lemma_truncate_block_len, min_int, omission_marker, reference_prefix, render_project_from,
    render_reference, render_reference_from, sat_sub, sat_u16, share, truncate_block,
    MAX_PROJECT_SECTION_CHARS,
};
use crate::planning::select::{
    best_among, count_true, empty_mask, fill, full_mask, lemma_best_in_range, lemma_count_bound, lemma_count_set,
    lemma_count_zero, lemma_set_indices_range, set_indices,
};

verus! {

/// The characters that rendered parts take, each with the blank line after it.
pub open spec fn used_chars(parts: Seq<Seq<char>>) -> int
    decreases parts.len(),
{
    if parts.len() == 0 {
        0
    } else {
        parts[0].len() + 2 + used_chars(parts.drop_first())
    }
}

proof fn lemma_used_back(parts: Seq<Seq<char>>)
    requires
        parts.len() > 0,
    ensures
        used_chars(parts) == used_chars(parts.drop_last()) + parts.last().len() + 2,
    decreases parts.len(),
{
    if parts.len() > 1 {
        let f = parts.drop_first();
        let d = parts.drop_last();
        lemma_used_back(f);
        assert(f.drop_last() =~= d.drop_first());
        assert(f.last() == parts.last());
        assert(d[0] == parts[0]);
        assert(used_chars(parts) == parts[0].len() + 2 + used_chars(f));
        assert(used_chars(d) == d[0].len() + 2 + used_chars(d.drop_first()));
    } else {
        assert(parts.drop_first().len() == 0);
        assert(parts.drop_last().len() == 0);
        assert(parts.last() == parts[0]);
        assert(used_chars(parts.drop_first()) == 0);
        assert(used_chars(parts.drop_last()) == 0);
    }
}

/// Parts joined by blank lines take two characters less than they use.
proof fn lemma_join_used(parts: Seq<Seq<char>>)
    requires
        parts.len() > 0,
    ensures
        join(parts, "\n\n"@).len() + 2 == used_chars(parts),
    decreases parts.len(),
{
    reveal_strlit("\n\n");
    lemma_used_back(parts);
    if parts.len() > 1 {
        lemma_join_used(parts.drop_last());
    } else {
        assert(parts.drop_last().len() == 0);
        assert(parts.last() == parts[0]);
    }
}

proof fn lemma_decimal_len(n: nat)
    ensures
        decimal(n).len() >= 1,
        n < 10 ==> decimal(n).len() == 1,
        n < 100 ==> decimal(n).len() <= 2,
        n < 1000 ==> decimal(n).len() <= 3,
        n < 10000 ==> decimal(n).len() <= 4,
        n < 100000 ==> decimal(n).len() <= 5,
    decreases n,
{
    if n >= 10 {
        lemma_decimal_len(n / 10);
    }
}

/// An equal share of a budget that covers `m` shares of `x`: at least `x`,
/// and the rest still covers `m - 1` shares.
proof fn lemma_share(r: int, m: int, x: int)
    requires
        m >= 1,
        x >= 0,
        r >= m * x,
    ensures
        share(r, m) >= x,
        r - share(r, m) >= (m - 1) * x,
{
    let a = r / m;
    lemma_fundamental_div_mod(r, m);
    lemma_mod_pos_bound(r, m);
    let rem = r % m;
    assert(r == m * a + rem);
    assert(0 <= rem < m);
    assert(m * a <= r);
    assert(m * (a + 1) > r) by (nonlinear_arith)
        requires
            r == m * a + rem,
            rem < m,
    ;
    assert(a >= x) by (nonlinear_arith)
        requires
            m * (a + 1) > r,
            r >= m * x,
            m >= 1,
    ;
    assert(r - a >= (m - 1) * x) by (nonlinear_arith)
        requires
            m * a <= r,
            r >= m * x,
            m >= 1,
    ;
}

proof fn lemma_reference_prefix_len(k: int)
    requires
        1 <= k <= 12,
    ensures
        3 <= reference_prefix(k).len() <= 10,
{
    reveal_strlit("[文件片段 ");
    reveal_strlit("] ");
    lemma_decimal_len(k as nat);
}

/// No more reference blocks are rendered than were selected.
proof fn lemma_reference_count(
    blocks: Seq<(Seq<char>, Seq<char>, Seq<char>)>,
    idx: Seq<int>,
    q: Seq<char>,
    remaining: int,
    p: int,
)
    requires
        0 <= p <= idx.len(),
    ensures
        render_reference_from(blocks, idx, q, remaining, p).len() <= idx.len() - p,
        render_reference_from(blocks, idx, q, remaining, p).len() > 0 ==> used_chars(
            render_reference_from(blocks, idx, q, remaining, p),
        ) >= 5,
        used_chars(render_reference_from(blocks, idx, q, remaining, p)) >= 0,
    decreases idx.len() - p,
{
    let parts = render_reference_from(blocks, idx, q, remaining, p);
    if p < idx.len() && remaining > 0 {
        let allowance = share(remaining, idx.len() - p);
        let prefix = reference_prefix(p + 1);
        reveal_strlit("[文件片段 ");
        reveal_strlit("] ");
        lemma_decimal_len((p + 1) as nat);
        if allowance > prefix.len() {
            let text = prefix + truncate_block(blocks[idx[p]].2, q, allowance - prefix.len());
            let rest = render_reference_from(blocks, idx, q, sat_sub(remaining, text.len() + 2int), p + 1);
            lemma_reference_count(blocks, idx, q, sat_sub(remaining, text.len() + 2int), p + 1);
            assert(parts == seq![text] + rest);
            assert(parts.drop_first() =~= rest);
            assert(parts[0] == text);
        } else {
            assert(used_chars(parts) == 0);
        }
    } else {
        assert(used_chars(parts) == 0);
    }
}

/// With room for sixteen characters and the blank lines for every block
/// still to come, each block fits its share, so the rendered blocks use no
/// more than the budget (the last blank line aside).
proof fn lemma_reference_render_fits(
    blocks: Seq<(Seq<char>, Seq<char>, Seq<char>)>,
    idx: Seq<int>,
    q: Seq<char>,
    remaining: int,
    p: int,
)
    requires
        0 <= p <= idx.len() <= MAX_REFERENCE_BLOCKS,
        remaining >= 0,
        p < idx.len() ==> remaining >= (idx.len() - p) * (16 + 2 * (idx.len() - p - 1)),
    ensures
        used_chars(render_reference_from(blocks, idx, q, remaining, p)) <= remaining + 2,
        p < idx.len() ==> render_reference_from(blocks, idx, q, remaining, p).len() > 0
            && render_reference_from(blocks, idx, q, remaining, p)[0].len() >= 3,
    decreases idx.len() - p,
{
    let parts = render_reference_from(blocks, idx, q, remaining, p);
    if p < idx.len() {
        let m = idx.len() - p;
        let x = 16 + 2 * (m - 1);
        assert(remaining >= m * x);
        lemma_share(remaining, m, x);
        let a = share(remaining, m);
        let prefix = reference_prefix(p + 1);
        lemma_reference_prefix_len(p + 1);
        let budget = a - prefix.len();
        lemma_truncate_block_len(blocks[idx[p]].2, q, budget);
        let text = prefix + truncate_block(blocks[idx[p]].2, q, budget);
        assert(text.len() <= a);
        let next = sat_sub(remaining, text.len() + 2int);
        let rest = render_reference_from(blocks, idx, q, next, p + 1);
        assert(parts == seq![text] + rest);
        assert(parts.drop_first() =~= rest);
        assert(parts[0] == text);
        assert(used_chars(parts) == text.len() + 2 + used_chars(rest));
        if remaining >= text.len() + 2 {
            if p + 1 < idx.len() {
                assert((m - 1) * x - 2 >= (m - 1) * (16 + 2 * (m - 2))) by (nonlinear_arith)
                    requires
                        m >= 2,
                        x == 16 + 2 * (m - 1),
                ;
            }
            lemma_reference_render_fits(blocks, idx, q, next, p + 1);
        } else {
            assert(next == 0);
            assert(rest.len() == 0);
            assert(used_chars(rest) == 0);
        }
    } else {
        assert(parts.len() == 0);
        assert(used_chars(parts) == 0);
    }
}

/// The reference budget of a plan: in generation mode at most a quarter of
/// the project budget.
pub open spec fn reference_limit(mode: PlanningContextMode, max_project: int, max_reference: int) -> int {
    if mode == PlanningContextMode::Generate {
        min_int(max_reference, max_project / 4)
    } else {
        max_reference
    }
}

proof fn lemma_fill_count(scores: Seq<u32>, mask: Seq<bool>, eligible: Seq<bool>, k: nat)
    requires
        mask.len() == scores.len(),
    ensures
        fill(scores, mask, eligible, k).len() == mask.len(),
        count_true(fill(scores, mask, eligible, k)) <= count_true(mask) + k,
    decreases k,
{
    if k > 0 {
        match best_among(scores, mask, eligible, scores.len() as int) {
            None => {},
            Some(b) => {
                lemma_best_in_range(scores, mask, eligible, scores.len() as int);
                lemma_count_set(mask, b);
                lemma_fill_count(scores, mask.update(b, true), eligible, (k - 1) as nat);
            },
        }
    }
}

proof fn lemma_omission_marker_len(omitted: int)
    requires
        0 <= omitted <= u16::MAX,
    ensures
        omission_marker(omitted).len() <= 22,
{
    reveal_strlit("\n[已按相关度省略 ");
    reveal_strlit(" 个文件片段]");
    lemma_decimal_len(omitted as nat);
}

/// The reference selection: never more blocks than there are, at least one
/// when there is a block and a budget, none without a budget; and within
/// any budget of at least `MIN_BLOCK_BUDGET` characters.
proof fn lemma_reference_selection(bv: Seq<(Seq<char>, Seq<char>, Seq<char>)>, q: Seq<char>, max: int)
    requires
        max >= 0,
        bv.len() <= u16::MAX,
    ensures
        reference_selection(bv, q, max).1 <= bv.len(),
        max == 0 || bv.len() == 0 ==> reference_selection(bv, q, max).0.len() == 0 && reference_selection(bv, q, max).1 == 0,
        max > 0 && bv.len() > 0 ==> reference_selection(bv, q, max).1 >= 1,
        max >= MIN_BLOCK_BUDGET ==> reference_selection(bv, q, max).0.len() <= max,
{
    if bv.len() > 0 && max > 0 {
        let n = bv.len() as int;
        let scores = relevance_scores(bv, q);
        let eligible = Seq::new(bv.len(), |i: int| scores[i] > 0);
        let by_budget = if max / (MIN_BLOCK_BUDGET as int) < 1 {
            1
        } else {
            max / (MIN_BLOCK_BUDGET as int)
        };
        let limit = min_int(min_int(MAX_REFERENCE_BLOCKS as int, by_budget), n);
        let m0 = empty_mask(bv.len()).update(0, true);
        lemma_count_zero(bv.len());
        lemma_count_set(empty_mask(bv.len()), 0);
        let k = rest_of(limit, 1);
        let mask = fill(scores, m0, eligible, k);
        lemma_fill_count(scores, m0, eligible, k);
        lemma_count_bound(mask);
        let idx = set_indices(mask);
        lemma_set_indices_range(mask);
        let big_n = idx.len() as int;
        assert(big_n <= limit);
        assert(big_n <= n);
        let omitted = sat_sub(n, big_n);
        let marker = omission_marker(omitted);
        lemma_omission_marker_len(omitted);
        let r0 = sat_sub(max, marker.len() as int);
        let parts = render_reference_from(bv, idx, q, r0, 0);
        lemma_reference_count(bv, idx, q, r0, 0);
        let r = render_reference(bv, idx, q, max);
        assert(reference_selection(bv, q, max) == (if r.0.len() == 0 {
            (truncate_block(bv[0].2, q, max), 1u16)
        } else {
            r
        }));
        if parts.len() > 0 {
            lemma_join_used(parts);
            assert(r.0.len() > 0);
        }
        if max >= MIN_BLOCK_BUDGET {
            lemma_truncate_block_len(bv[0].2, q, max);
            if big_n >= 1 {
                lemma_fundamental_div_mod(max, MIN_BLOCK_BUDGET as int);
                lemma_mod_pos_bound(max, MIN_BLOCK_BUDGET as int);
                assert(80 * big_n <= max);
                assert(big_n * (16 + 2 * (big_n - 1)) <= 38 * big_n) by (nonlinear_arith)
                    requires
                        1 <= big_n <= 12,
                ;
                assert(r0 >= big_n * (16 + 2 * (big_n - 1)));
                lemma_reference_render_fits(bv, idx, q, r0, 0);
            }
        }
    }
}

/// The keyword plan keeps to its reference budget `L` (the reference limit,
/// in generation mode at most a quarter of the project budget): no budget
/// gives no reference text; with a budget of at least `MIN_BLOCK_BUDGET`
/// characters the reference text fits it; with any budget and any block at
/// least one block is selected; and the selected and omitted blocks account
/// for every block.
pub proof fn reference_context_fits_its_limit(
    project: Seq<char>,
    reference: Seq<char>,
    q: Seq<char>,
    mode: PlanningContextMode,
    max_project: int,
    max_reference: int,
)
    requires
        max_project >= 0,
        max_reference >= 0,
        reference_blocks(reference).len() <= u16::MAX,
    ensures
        plan_spec(project, reference, q, mode, max_project, max_reference).4 + plan_spec(
            project,
            reference,
            q,
            mode,
            max_project,
            max_reference,
        ).5 == reference_blocks(reference).len(),
        reference_limit(mode, max_project, max_reference) == 0 ==> plan_spec(
            project,
            reference,
            q,
            mode,
            max_project,
            max_reference,
        ).1.len() == 0 && plan_spec(project, reference, q, mode, max_project, max_reference).4 == 0,
        reference_limit(mode, max_project, max_reference) >= MIN_BLOCK_BUDGET ==> plan_spec(
            project,
            reference,
            q,
            mode,
            max_project,
            max_reference,
        ).1.len() <= reference_limit(mode, max_project, max_reference),
        reference_limit(mode, max_project, max_reference) > 0 && reference_blocks(reference).len() > 0
            ==> plan_spec(project, reference, q, mode, max_project, max_reference).4 >= 1,
{
    let limit = reference_limit(mode, max_project, max_reference);
    let rb = reference_blocks(reference);
    lemma_reference_selection(rb, q, limit);
}

/// The longest section identifier.
pub open spec fn longest_id(bv: Seq<(Seq<char>, Seq<char>, Seq<char>)>) -> nat
    decreases bv.len(),
{
    if bv.len() == 0 {
        0
    } else if bv.last().0.len() > longest_id(bv.drop_last()) {
        bv.last().0.len()
    } else {
        longest_id(bv.drop_last())
    }
}

proof fn lemma_longest_id(bv: Seq<(Seq<char>, Seq<char>, Seq<char>)>, i: int)
    requires
        0 <= i < bv.len(),
    ensures
        bv[i].0.len() <= longest_id(bv),
    decreases bv.len(),
{
    if i < bv.len() - 1 {
        lemma_longest_id(bv.drop_last(), i);
        assert(bv.drop_last()[i] == bv[i]);
    }
}

/// A rendered project section takes at most its share and five characters
/// more, and the sections no more than the budget and five characters for
/// each of them.
proof fn lemma_project_render(
    blocks: Seq<(Seq<char>, Seq<char>, Seq<char>)>,
    idx: Seq<int>,
    q: Seq<char>,
    remaining: int,
    p: int,
)
    requires
        0 <= p <= idx.len(),
        remaining >= 0,
    ensures
        render_project_from(blocks, idx, q, remaining, p).len() <= idx.len() - p,
        used_chars(render_project_from(blocks, idx, q, remaining, p)) <= remaining + 2 + 5 * render_project_from(
            blocks,
            idx,
            q,
            remaining,
            p,
        ).len(),
        used_chars(render_project_from(blocks, idx, q, remaining, p)) >= 0,
    decreases idx.len() - p,
{
    reveal_strlit(": ");
    let parts = render_project_from(blocks, idx, q, remaining, p);
    if p < idx.len() && remaining > 0 {
        let m = idx.len() - p;
        let a = share(remaining, m);
        lemma_fundamental_div_mod(remaining, m);
        lemma_mod_pos_bound(remaining, m);
        assert(a <= remaining) by (nonlinear_arith)
            requires
                remaining == m * a + remaining % m,
                remaining % m >= 0,
                m >= 1,
                remaining >= 0,
        ;
        let block = blocks[idx[p]];
        let prefix = block.0 + ": "@;
        if a > prefix.len() {
            let limit = min_int(MAX_PROJECT_SECTION_CHARS as int, a);
            let budget = sat_sub(limit, prefix.len() as int);
            lemma_truncate_block_len(block.2, q, budget);
            let text = prefix + truncate_block(block.2, q, budget);
            assert(text.len() <= a + 5);
            let next = sat_sub(remaining, text.len() + 2int);
            let rest = render_project_from(blocks, idx, q, next, p + 1);
            lemma_project_render(blocks, idx, q, next, p + 1);
            assert(parts == seq![text] + rest);
            assert(parts.drop_first() =~= rest);
            assert(parts[0] == text);
            assert(used_chars(parts) == text.len() + 2 + used_chars(rest));
            if remaining < text.len() + 2 {
                assert(rest.len() == 0);
                assert(used_chars(rest) == 0);
            }
        } else {
            assert(used_chars(parts) == 0);
        }
    } else {
        assert(used_chars(parts) == 0);
    }
}

/// With room, in every share, for the longest identifier and its separator
/// (at most `w`), six characters and the blank lines still to come, every
/// section fits its share and the sections fit the budget.
proof fn lemma_project_render_tight(
    blocks: Seq<(Seq<char>, Seq<char>, Seq<char>)>,
    idx: Seq<int>,
    q: Seq<char>,
    remaining: int,
    p: int,
    w: int,
)
    requires
        0 <= p <= idx.len(),
        remaining >= 0,
        w >= 0,
        forall|k: int| 0 <= k < idx.len() ==> (#[trigger] blocks[idx[k]]).0.len() + 2 <= w,
        p < idx.len() ==> remaining >= (idx.len() - p) * (w + 6 + 2 * (idx.len() - p - 1)),
    ensures
        used_chars(render_project_from(blocks, idx, q, remaining, p)) <= remaining + 2,
    decreases idx.len() - p,
{
    reveal_strlit(": ");
    let parts = render_project_from(blocks, idx, q, remaining, p);
    if p < idx.len() {
        let m = idx.len() - p;
        let x = w + 6 + 2 * (m - 1);
        lemma_share(remaining, m, x);
        let a = share(remaining, m);
        let block = blocks[idx[p]];
        assert(block.0.len() + 2 <= w);
        let prefix = block.0 + ": "@;
        let limit = min_int(MAX_PROJECT_SECTION_CHARS as int, a);
        let budget = sat_sub(limit, prefix.len() as int);
        lemma_truncate_block_len(block.2, q, budget);
        let text = prefix + truncate_block(block.2, q, budget);
        assert(text.len() <= a);
        let next = sat_sub(remaining, text.len() + 2int);
        let rest = render_project_from(blocks, idx, q, next, p + 1);
        assert(parts == seq![text] + rest);
        assert(parts.drop_first() =~= rest);
        assert(parts[0] == text);
        assert(used_chars(parts) == text.len() + 2 + used_chars(rest));
        if remaining >= text.len() + 2 {
            if p + 1 < idx.len() {
                assert((m - 1) * x - 2 >= (m - 1) * (w + 6 + 2 * (m - 2))) by (nonlinear_arith)
                    requires
                        m >= 2,
                        x == w + 6 + 2 * (m - 1),
                ;
            }
            lemma_project_render_tight(blocks, idx, q, next, p + 1, w);
        } else {
            assert(rest.len() == 0);
            assert(used_chars(rest) == 0);
        }
    } else {
        assert(used_chars(parts) == 0);
    }
}

proof fn lemma_core_prefix(bv: Seq<(Seq<char>, Seq<char>, Seq<char>)>, limit: int)
    requires
        limit >= 0,
    ensures
        core_prefix(bv, limit).len() == bv.len(),
        count_true(core_prefix(bv, limit)) <= limit,
    decreases bv.len(),
{
    if bv.len() > 0 {
        let m = core_prefix(bv.drop_last(), limit);
        lemma_core_prefix(bv.drop_last(), limit);
        assert(core_prefix(bv, limit).drop_last() =~= m);
    }
}

/// The sections chosen for the project context: at most the section limit.
proof fn lemma_project_choice(bv: Seq<(Seq<char>, Seq<char>, Seq<char>)>, q: Seq<char>, max: int)
    requires
        bv.len() > 0,
        max > 0,
    ensures
        1 <= section_limit(bv, max) <= MAX_PROJECT_SECTIONS,
        set_indices(
            fill(
                section_scores(bv, q),
                core_prefix(bv, section_limit(bv, max)),
                full_mask(bv.len()),
                rest_of(section_limit(bv, max), count_true(core_prefix(bv, section_limit(bv, max)))),
            ),
        ).len() <= section_limit(bv, max),
        forall|k: int| 0 <= k < set_indices(
            fill(
                section_scores(bv, q),
                core_prefix(bv, section_limit(bv, max)),
                full_mask(bv.len()),
                rest_of(section_limit(bv, max), count_true(core_prefix(bv, section_limit(bv, max)))),
            ),
        ).len() ==> 0 <= #[trigger] set_indices(
            fill(
                section_scores(bv, q),
                core_prefix(bv, section_limit(bv, max)),
                full_mask(bv.len()),
                rest_of(section_limit(bv, max), count_true(core_prefix(bv, section_limit(bv, max)))),
            ),
        )[k] < bv.len(),
{
    let limit = section_limit(bv, max);
    let m0 = core_prefix(bv, limit);
    lemma_core_prefix(bv, limit);
    let k = rest_of(limit, count_true(m0));
    let mask = fill(section_scores(bv, q), m0, full_mask(bv.len()), k);
    lemma_fill_count(section_scores(bv, q), m0, full_mask(bv.len()), k);
    lemma_set_indices_range(mask);
}

/// The keyword plan's project context takes at most its budget and five
/// characters for each selected section, and no more than the budget when
/// every share of it has room for the longest section identifier, its
/// separator, six characters and the blank lines still to come; at most
/// `MAX_PROJECT_SECTIONS` sections are selected, none without a budget.
pub proof fn project_context_fits_its_budget(
    project: Seq<char>,
    reference: Seq<char>,
    q: Seq<char>,
    mode: PlanningContextMode,
    max_project: int,
    max_reference: int,
)
    requires
        max_project >= 0,
    ensures
        plan_spec(project, reference, q, mode, max_project, max_reference).0.len() <= max_project + 5 * plan_spec(
            project,
            reference,
            q,
            mode,
            max_project,
            max_reference,
        ).2,
        plan_spec(project, reference, q, mode, max_project, max_reference).2 <= MAX_PROJECT_SECTIONS,
        max_project == 0 ==> plan_spec(project, reference, q, mode, max_project, max_reference).0.len() == 0
            && plan_spec(project, reference, q, mode, max_project, max_reference).2 == 0,
        max_project >= section_limit(project_blocks(project), max_project) * (longest_id(project_blocks(project))
            + 8 + 2 * (section_limit(project_blocks(project), max_project) - 1)) ==> plan_spec(
            project,
            reference,
            q,
            mode,
            max_project,
            max_reference,
        ).0.len() <= max_project,
{
    let bv = project_blocks(project);
    if bv.len() > 0 && max_project > 0 {
        lemma_project_choice(bv, q, max_project);
        let limit = section_limit(bv, max_project);
        let m0 = core_prefix(bv, limit);
        let mask = fill(section_scores(bv, q), m0, full_mask(bv.len()), rest_of(limit, count_true(m0)));
        let idx = set_indices(mask);
        let parts = render_project_from(bv, idx, q, max_project, 0);
        lemma_project_render(bv, idx, q, max_project, 0);
        assert(project_by_section(bv, q, max_project) == (join(parts, "\n\n"@), sat_u16(parts.len() as int), 0u16));
        if parts.len() > 0 {
            lemma_join_used(parts);
        }
        let w: int = longest_id(bv) as int + 2;
        if max_project >= limit * (longest_id(bv) + 8 + 2 * (limit - 1)) && idx.len() > 0 {
            assert forall|k: int| 0 <= k < idx.len() implies (#[trigger] bv[idx[k]]).0.len() + 2 <= w by {
                lemma_longest_id(bv, idx[k]);
            }
            let n = idx.len() as int;
            assert(n * (w + 6 + 2 * (n - 1)) <= limit * (longest_id(bv) + 8 + 2 * (limit - 1))) by (nonlinear_arith)
                requires
                    1 <= n <= limit,
                    w == longest_id(bv) + 2,
                    longest_id(bv) >= 0,
            ;
            lemma_project_render_tight(bv, idx, q, max_project, 0, w);
        }
    }
}

} // verus!
