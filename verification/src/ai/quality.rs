//! Proposal quality per task, action, prompt version and model.
use vstd::prelude::*;
use crate::ai::output::{output_status, validate_ai_output};
use crate::ai::parsing::{action_of, parse_action};
use crate::ai::tasks::{AiQualityGroup, AiQualitySummary};
use crate::ai::usage::{key_less, keys_view, lemma_ordered_member, ordered_keys, ordered_keys_of};
use crate::planning::select::{best_among, empty_mask, full_mask, pick_order, pick_order_of};
use crate::text::{chars_of, eq_str, string_of, trim, views_of};

verus! {

/// One proposal as the quality summary reads it.
#[derive(Debug, Clone, PartialEq, Eq)]
pub struct QualityRow {
    pub task_key: String,
    pub action: String,
    pub prompt_version: String,
    pub profile_name: String,
    pub status: String,
    pub output_text: String,
    pub rating: Option<String>,
}

/// Counts of one group of proposals.
#[derive(Debug, Clone, Copy, PartialEq, Eq, Structural)]
pub struct QualityAggregate {
    pub proposals: u32,
    pub accepted: u32,
    pub rated: u32,
    pub helpful: u32,
    pub not_helpful: u32,
    pub valid: u32,
    pub warnings: u32,
    pub needs_input: u32,
    pub invalid: u32,
}

pub open spec fn no_proposals() -> QualityAggregate {
    QualityAggregate {
        proposals: 0,
        accepted: 0,
        rated: 0,
        helpful: 0,
        not_helpful: 0,
        valid: 0,
        warnings: 0,
        needs_input: 0,
        invalid: 0,
    }
}

/// The group of a proposal: task, prompt version, model and action (the
/// order in which groups of equal size are listed).
pub open spec fn quality_key(r: QualityRow) -> Seq<Seq<char>> {
    seq![r.task_key@, r.prompt_version@, r.profile_name@, r.action@]
}

/// One more proposal counted: accepted (fully or partly), its rating, and the
/// status of its output check (all counts saturating).
pub open spec fn count_proposal(a: QualityAggregate, r: QualityRow) -> QualityAggregate {
    let status = output_status(action_of(r.action@), trim(r.output_text@));
    let accepted = r.status@ == "ACCEPTED"@ || r.status@ == "PARTIALLY_ACCEPTED"@;
    let helpful = r.rating is Some && r.rating.unwrap()@ == "HELPFUL"@;
    let not_helpful = r.rating is Some && r.rating.unwrap()@ == "NOT_HELPFUL"@;
    QualityAggregate {
        proposals: a.proposals.saturating_add(1),
        accepted: if accepted {
            a.accepted.saturating_add(1)
        } else {
            a.accepted
        },
        rated: if helpful || not_helpful {
            a.rated.saturating_add(1)
        } else {
            a.rated
        },
        helpful: if helpful {
            a.helpful.saturating_add(1)
        } else {
            a.helpful
        },
        not_helpful: if not_helpful {
            a.not_helpful.saturating_add(1)
        } else {
            a.not_helpful
        },
        valid: if status == "VALID"@ {
            a.valid.saturating_add(1)
        } else {
            a.valid
        },
        warnings: if status == "WARNING"@ {
            a.warnings.saturating_add(1)
        } else {
            a.warnings
        },
        needs_input: if status == "NEEDS_INPUT"@ {
            a.needs_input.saturating_add(1)
        } else {
            a.needs_input
        },
        invalid: if status != "VALID"@ && status != "WARNING"@ && status != "NEEDS_INPUT"@ {
            a.invalid.saturating_add(1)
        } else {
            a.invalid
        },
    }
}

/// The counts of the proposals in group `k`.
pub open spec fn group_counts(rows: Seq<QualityRow>, k: Seq<Seq<char>>) -> QualityAggregate
    decreases rows.len(),
{
    if rows.len() == 0 {
        no_proposals()
    } else {
        let a = group_counts(rows.drop_last(), k);
        if quality_key(rows.last()) == k {
            count_proposal(a, rows.last())
        } else {
            a
        }
    }
}

/// The groups, distinct, by key.
pub open spec fn quality_keys(rows: Seq<QualityRow>) -> Seq<Seq<Seq<char>>> {
    ordered_keys(
        Seq::new(rows.len(), |i: int| quality_key(rows[i])),
        None,
        seq![true, true, true, true],
        rows.len(),
    )
}

/// The number of groups listed: `limit` clamped to one to 100.
pub open spec fn listed(limit: u32) -> nat {
    if limit < 1 {
        1
    } else if limit > 100 {
        100
    } else {
        limit as nat
    }
}

/// The listed groups: the largest first, then by key; at most `listed(limit)`.
pub open spec fn listed_groups(rows: Seq<QualityRow>, limit: u32) -> Seq<Seq<Seq<char>>> {
    let ks = quality_keys(rows);
    let sizes = Seq::new(ks.len(), |i: int| group_counts(rows, ks[i]).proposals);
    let order = pick_order(sizes, empty_mask(ks.len()), listed(limit));
    Seq::new(order.len(), |i: int| ks[order[i]])
}

/// A group as values: its key and counts.
pub open spec fn group_view(g: AiQualityGroup) -> (Seq<Seq<char>>, QualityAggregate) {
    (
        seq![g.task_key@, g.prompt_version@, g.profile_name@, g.action@],
        QualityAggregate {
            proposals: g.proposal_count,
            accepted: g.accepted_count,
            rated: g.rated_count,
            helpful: g.helpful_count,
            not_helpful: g.not_helpful_count,
            valid: g.valid_count,
            warnings: g.warning_count,
            needs_input: g.needs_input_count,
            invalid: g.invalid_count,
        },
    )
}

/// Totals over the first `n` groups: proposals, rated, helpful, and those
/// whose output check found a problem (all saturating).
pub open spec fn quality_totals(rows: Seq<QualityRow>, ks: Seq<Seq<Seq<char>>>) -> (u32, u32, u32, u32)
    decreases ks.len(),
{
    if ks.len() == 0 {
        (0, 0, 0, 0)
    } else {
        let t = quality_totals(rows, ks.drop_last());
        let a = group_counts(rows, ks.last());
        (
            t.0.saturating_add(a.proposals),
            t.1.saturating_add(a.rated),
            t.2.saturating_add(a.helpful),
            t.3.saturating_add(a.warnings).saturating_add(a.needs_input).saturating_add(a.invalid),
        )
    }
}

fn count_row(a: &mut QualityAggregate, r: &QualityRow)
    ensures
        *final(a) == count_proposal(*old(a), *r),
{
    let v = validate_ai_output(parse_action(r.action.as_str()), r.output_text.as_str());
    a.proposals = a.proposals.saturating_add(1);
    if crate::text::str_eq(r.status.as_str(), "ACCEPTED") || crate::text::str_eq(r.status.as_str(), "PARTIALLY_ACCEPTED") {
        a.accepted = a.accepted.saturating_add(1);
    }
    match &r.rating {
        Some(rating) => {
            if crate::text::str_eq(rating.as_str(), "HELPFUL") {
                a.rated = a.rated.saturating_add(1);
                a.helpful = a.helpful.saturating_add(1);
            } else if crate::text::str_eq(rating.as_str(), "NOT_HELPFUL") {
                a.rated = a.rated.saturating_add(1);
                a.not_helpful = a.not_helpful.saturating_add(1);
            }
        },
        None => {},
    }
    let s = chars_of(v.status.as_str());
    if eq_str(&s, "VALID") {
        a.valid = a.valid.saturating_add(1);
    } else if eq_str(&s, "WARNING") {
        a.warnings = a.warnings.saturating_add(1);
    } else if eq_str(&s, "NEEDS_INPUT") {
        a.needs_input = a.needs_input.saturating_add(1);
    } else {
        a.invalid = a.invalid.saturating_add(1);
    }
    proof {
        reveal_strlit("HELPFUL");
        reveal_strlit("NOT_HELPFUL");
        reveal_strlit("VALID");
        reveal_strlit("WARNING");
        reveal_strlit("NEEDS_INPUT");
        assert("HELPFUL"@.len() != "NOT_HELPFUL"@.len());
        assert("VALID"@.len() != "WARNING"@.len());
        assert("VALID"@.len() != "NEEDS_INPUT"@.len());
        assert("WARNING"@.len() != "NEEDS_INPUT"@.len());
    }
}

fn key_of(r: &QualityRow) -> (k: Vec<Vec<char>>)
    ensures
        views_of(k@) == quality_key(*r),
{
    let mut k: Vec<Vec<char>> = Vec::new();
    k.push(chars_of(r.task_key.as_str()));
    k.push(chars_of(r.prompt_version.as_str()));
    k.push(chars_of(r.profile_name.as_str()));
    k.push(chars_of(r.action.as_str()));
    assert(views_of(k@) =~= quality_key(*r));
    k
}

fn key_equal(a: &Vec<Vec<char>>, b: &Vec<Vec<char>>) -> (r: bool)
    ensures
        r == (views_of(a@) == views_of(b@)),
{
    if a.len() != b.len() {
        return false;
    }
    let mut i: usize = 0;
    while i < a.len()
        invariant
            i <= a.len() == b.len(),
            forall|j: int| 0 <= j < i ==> a@[j]@ == b@[j]@,
        decreases a.len() - i,
    {
        if !crate::text::eq_chars(&a[i], &b[i]) {
            assert(views_of(a@)[i as int] != views_of(b@)[i as int]);
            return false;
        }
        i = i + 1;
    }
    assert(views_of(a@) =~= views_of(b@));
    true
}

fn counts_of(rows: &Vec<QualityRow>, k: &Vec<Vec<char>>) -> (a: QualityAggregate)
    ensures
        a == group_counts(rows@, views_of(k@)),
{
    let mut a = QualityAggregate {
        proposals: 0,
        accepted: 0,
        rated: 0,
        helpful: 0,
        not_helpful: 0,
        valid: 0,
        warnings: 0,
        needs_input: 0,
        invalid: 0,
    };
    let mut i: usize = 0;
    assert(rows@.take(0) =~= Seq::<QualityRow>::empty());
    while i < rows.len()
        invariant
            i <= rows.len(),
            a == group_counts(rows@.take(i as int), views_of(k@)),
        decreases rows.len() - i,
    {
        assert(rows@.take(i + 1).drop_last() =~= rows@.take(i as int));
        let rk = key_of(&rows[i]);
        if key_equal(&rk, k) {
            count_row(&mut a, &rows[i]);
        }
        i = i + 1;
    }
    assert(rows@.take(rows.len() as int) =~= rows@);
    a
}

/// Sums proposal quality per group, and lists the largest groups first (then
/// by task, prompt version, model and action), at most `limit` (clamped to
/// one to 100); the totals count every group.
pub fn summarize_quality(rows: &Vec<QualityRow>, limit: u32) -> (r: AiQualitySummary)
    ensures
        r.groups@.map_values(|g: AiQualityGroup| group_view(g)) == Seq::new(
            listed_groups(rows@, limit).len(),
            |i: int| (listed_groups(rows@, limit)[i], group_counts(rows@, listed_groups(rows@, limit)[i])),
        ),
        (r.total_proposals, r.total_rated, r.total_helpful, r.total_with_issues) == quality_totals(rows@, quality_keys(rows@)),
{
    let mut keys: Vec<Vec<Vec<char>>> = Vec::new();
    let mut i: usize = 0;
    while i < rows.len()
        invariant
            i <= rows.len(),
            keys.len() == i,
            forall|j: int| 0 <= j < i ==> views_of(#[trigger] keys@[j]@) == quality_key(rows@[j]),
        decreases rows.len() - i,
    {
        keys.push(key_of(&rows[i]));
        i = i + 1;
    }
    assert(keys_view(keys@) =~= Seq::new(rows@.len(), |j: int| quality_key(rows@[j])));
    let mut dirs: Vec<bool> = Vec::new();
    dirs.push(true);
    dirs.push(true);
    dirs.push(true);
    dirs.push(true);
    assert(dirs@ =~= seq![true, true, true, true]);
    let ordered = ordered_keys_of(&keys, &dirs);
    let ghost ks = quality_keys(rows@);
    assert(keys_view(ordered@) == ks);
    let mut counts: Vec<QualityAggregate> = Vec::new();
    let mut sizes: Vec<u32> = Vec::new();
    let mut totals: (u32, u32, u32, u32) = (0, 0, 0, 0);
    let mut j: usize = 0;
    assert(ks.take(0) =~= Seq::<Seq<Seq<char>>>::empty());
    while j < ordered.len()
        invariant
            j <= ordered.len(),
            keys_view(ordered@) == ks,
            counts.len() == j,
            sizes.len() == j,
            forall|t: int| 0 <= t < j ==> #[trigger] counts@[t] == group_counts(rows@, ks[t]),
            forall|t: int| 0 <= t < j ==> #[trigger] sizes@[t] == group_counts(rows@, ks[t]).proposals,
            totals == quality_totals(rows@, ks.take(j as int)),
        decreases ordered.len() - j,
    {
        assert(ks[j as int] == views_of(ordered@[j as int]@));
        assert(ks.take(j + 1).drop_last() =~= ks.take(j as int));
        let a = counts_of(rows, &ordered[j]);
        counts.push(a);
        sizes.push(a.proposals);
        totals = (
            totals.0.saturating_add(a.proposals),
            totals.1.saturating_add(a.rated),
            totals.2.saturating_add(a.helpful),
            totals.3.saturating_add(a.warnings).saturating_add(a.needs_input).saturating_add(a.invalid),
        );
        j = j + 1;
    }
    assert(ks.take(ordered.len() as int) =~= ks);
    assert(sizes@ =~= Seq::new(ks.len(), |t: int| group_counts(rows@, ks[t]).proposals));
    let n_listed: usize = if limit < 1 {
        1
    } else if limit > 100 {
        100
    } else {
        limit as usize
    };
    let order = pick_order_of(&sizes, n_listed);
    let ghost lg = listed_groups(rows@, limit);
    let mut groups: Vec<AiQualityGroup> = Vec::new();
    let mut t: usize = 0;
    while t < order.len()
        invariant
            t <= order.len(),
            keys_view(ordered@) == ks,
            ks == quality_keys(rows@),
            counts.len() == ks.len(),
            forall|x: int| 0 <= x < counts.len() ==> #[trigger] counts@[x] == group_counts(rows@, ks[x]),
            forall|x: int| 0 <= x < order.len() ==> #[trigger] order@[x] < sizes.len(),
            sizes.len() == ks.len(),
            order@.map_values(|i: usize| i as int) == pick_order(sizes@, empty_mask(sizes.len() as nat), n_listed as nat),
            sizes@ == Seq::new(ks.len(), |x: int| group_counts(rows@, ks[x]).proposals),
            n_listed as nat == listed(limit),
            lg == listed_groups(rows@, limit),
            groups.len() == t,
            forall|x: int| 0 <= x < t ==> #[trigger] group_view(groups@[x]) == (lg[x], group_counts(rows@, lg[x])),
        decreases order.len() - t,
    {
        let o = order[t];
        assert(order@.map_values(|i: usize| i as int)[t as int] == o as int);
        assert(lg[t as int] == ks[o as int]);
        assert(ks[o as int] == views_of(ordered@[o as int]@));
        let k = &ordered[o];
        proof {
            let all = Seq::new(rows@.len(), |i: int| quality_key(rows@[i]));
            let asc4 = seq![true, true, true, true];
            let ok = ordered_keys(all, None, asc4, rows@.len());
            lemma_ordered_member(all, None, asc4, rows@.len(), o as int);
            let i = choose|i: int| 0 <= i < all.len() && all[i] == #[trigger] ok[o as int];
            assert(all[i].len() == 4);
            assert(views_of(k@).len() == 4);
        }
        let a = counts[o];
        let g = AiQualityGroup {
            task_key: string_of(&k[0]),
            action: string_of(&k[3]),
            prompt_version: string_of(&k[1]),
            profile_name: string_of(&k[2]),
            proposal_count: a.proposals,
            accepted_count: a.accepted,
            rated_count: a.rated,
            helpful_count: a.helpful,
            not_helpful_count: a.not_helpful,
            valid_count: a.valid,
            warning_count: a.warnings,
            needs_input_count: a.needs_input,
            invalid_count: a.invalid,
        };
        assert(group_view(g).0 =~= views_of(k@));
        groups.push(g);
        t = t + 1;
    }
    assert(groups@.map_values(|g: AiQualityGroup| group_view(g)) =~= Seq::new(
        lg.len(),
        |i: int| (lg[i], group_counts(rows@, lg[i])),
    ));
    AiQualitySummary {
        total_proposals: totals.0,
        total_rated: totals.1,
        total_helpful: totals.2,
        total_with_issues: totals.3,
        groups,
    }
}

/// Within a group, as long as no count saturates: the output-check counts
/// add up to the proposals, the rated proposals are those rated helpful or
/// not helpful, and no more are accepted than proposed.
pub proof fn group_counts_add_up(rows: Seq<QualityRow>, k: Seq<Seq<char>>)
    requires
        rows.len() < u32::MAX,
    ensures
        group_counts(rows, k).valid + group_counts(rows, k).warnings + group_counts(rows, k).needs_input
            + group_counts(rows, k).invalid == group_counts(rows, k).proposals,
        group_counts(rows, k).rated == group_counts(rows, k).helpful + group_counts(rows, k).not_helpful,
        group_counts(rows, k).accepted <= group_counts(rows, k).proposals,
        group_counts(rows, k).rated <= group_counts(rows, k).proposals,
        group_counts(rows, k).proposals <= rows.len(),
    decreases rows.len(),
{
    if rows.len() > 0 {
        group_counts_add_up(rows.drop_last(), k);
        reveal_strlit("VALID");
        reveal_strlit("WARNING");
        reveal_strlit("NEEDS_INPUT");
        reveal_strlit("HELPFUL");
        reveal_strlit("NOT_HELPFUL");
        assert("VALID"@.len() == 5);
        assert("WARNING"@.len() == 7);
        assert("NEEDS_INPUT"@.len() == 11);
        assert("HELPFUL"@.len() == 7);
        assert("NOT_HELPFUL"@.len() == 11);
        assert("VALID"@ != "WARNING"@);
        assert("VALID"@ != "NEEDS_INPUT"@);
        assert("WARNING"@ != "NEEDS_INPUT"@);
        assert("HELPFUL"@ != "NOT_HELPFUL"@);
    }
}

proof fn lemma_pick_order_len(scores: Seq<u32>, mask: Seq<bool>, k: nat)
    ensures
        pick_order(scores, mask, k).len() <= k,
    decreases k,
{
    if k > 0 {
        match best_among(scores, mask, full_mask(scores.len()), scores.len() as int) {
            None => {},
            Some(b) => lemma_pick_order_len(scores, mask.update(b, true), (k - 1) as nat),
        }
    }
}

/// No more groups are listed than the limit clamped to one to 100.
pub proof fn listed_groups_within_limit(rows: Seq<QualityRow>, limit: u32)
    ensures
        listed_groups(rows, limit).len() <= listed(limit),
        listed(limit) <= 100,
{
    let ks = quality_keys(rows);
    let sizes = Seq::new(ks.len(), |i: int| group_counts(rows, ks[i]).proposals);
    lemma_pick_order_len(sizes, empty_mask(ks.len()), listed(limit));
}

proof fn lemma_best_is_best(scores: Seq<u32>, mask: Seq<bool>, eligible: Seq<bool>, n: int)
    ensures
        match best_among(scores, mask, eligible, n) {
            Some(b) => 0 <= b < n && !mask[b] && eligible[b] && forall|j: int|
                0 <= j < n && !mask[j] && eligible[j] ==> #[trigger] scores[j] < scores[b] || (scores[j] == scores[b] && b <= j),
            None => forall|j: int| 0 <= j < n ==> mask[j] || !eligible[j],
        },
    decreases n,
{
    if n > 0 {
        lemma_best_is_best(scores, mask, eligible, n - 1);
    }
}

/// Index `a` is picked before `b`: a higher score, or an equal one and an
/// earlier index.
pub open spec fn picked_before(scores: Seq<u32>, a: int, b: int) -> bool {
    scores[a] > scores[b] || (scores[a] == scores[b] && a < b)
}

/// Group `x` is listed before group `y`: more proposals, or as many and an
/// earlier key.
pub open spec fn listed_before(rows: Seq<QualityRow>, x: Seq<Seq<char>>, y: Seq<Seq<char>>) -> bool {
    group_counts(rows, x).proposals > group_counts(rows, y).proposals || (group_counts(rows, x).proposals
        == group_counts(rows, y).proposals && key_less(x, y, seq![true, true, true, true]))
}

proof fn lemma_pick_order_sorted(scores: Seq<u32>, mask: Seq<bool>, k: nat)
    requires
        mask.len() == scores.len(),
    ensures
        forall|t: int| 0 <= t < pick_order(scores, mask, k).len() ==> 0 <= #[trigger] pick_order(scores, mask, k)[t] < scores.len()
            && !mask[pick_order(scores, mask, k)[t]],
        forall|t: int| 0 <= t < pick_order(scores, mask, k).len() - 1 ==> picked_before(
            scores,
            #[trigger] pick_order(scores, mask, k)[t],
            pick_order(scores, mask, k)[t + 1],
        ),
    decreases k,
{
    let n = scores.len() as int;
    lemma_best_is_best(scores, mask, full_mask(scores.len()), n);
    if k > 0 {
        match best_among(scores, mask, full_mask(scores.len()), n) {
            None => {},
            Some(b) => {
                let m2 = mask.update(b, true);
                lemma_pick_order_sorted(scores, m2, (k - 1) as nat);
                let rest = pick_order(scores, m2, (k - 1) as nat);
                let o = pick_order(scores, mask, k);
                assert(o == seq![b] + rest);
                assert forall|t: int| 0 <= t < o.len() implies 0 <= #[trigger] o[t] < scores.len() && !mask[o[t]] by {
                    if t > 0 {
                        assert(o[t] == rest[t - 1]);
                        assert(!m2[rest[t - 1]]);
                    }
                }
                assert forall|t: int| 0 <= t < o.len() - 1 implies picked_before(scores, #[trigger] o[t], o[t + 1]) by {
                    assert(o[t + 1] == rest[t]);
                    if t == 0 {
                        let j = rest[0];
                        assert(!m2[j]);
                        assert(j != b);
                        assert(!mask[j]);
                        assert(full_mask(scores.len())[j]);
                    } else {
                        assert(o[t] == rest[t - 1]);
                    }
                }
            },
        }
    }
}

/// The listed groups come largest first, and groups of equal size in key
/// order (task, prompt version, model, action).
pub proof fn listed_groups_in_order(rows: Seq<QualityRow>, limit: u32)
    ensures
        forall|t: int| 0 <= t < listed_groups(rows, limit).len() - 1 ==> listed_before(
            rows,
            #[trigger] listed_groups(rows, limit)[t],
            listed_groups(rows, limit)[t + 1],
        ),
{
    let ks = quality_keys(rows);
    let dirs = seq![true, true, true, true];
    let keys = Seq::new(rows.len(), |i: int| quality_key(rows[i]));
    assert(crate::ai::usage_laws::keys_wide(keys, dirs));
    crate::ai::usage_laws::lemma_ordered_keys(keys, None, dirs, rows.len());
    let sizes = Seq::new(ks.len(), |i: int| group_counts(rows, ks[i]).proposals);
    let order = pick_order(sizes, empty_mask(ks.len()), listed(limit));
    lemma_pick_order_sorted(sizes, empty_mask(ks.len()), listed(limit));
    let lg = listed_groups(rows, limit);
    assert forall|t: int| 0 <= t < lg.len() - 1 implies listed_before(rows, #[trigger] lg[t], lg[t + 1]) by {
        assert(lg[t] == ks[order[t]]);
        assert(lg[t + 1] == ks[order[t + 1]]);
        assert(sizes[order[t]] == group_counts(rows, ks[order[t]]).proposals);
        assert(sizes[order[t + 1]] == group_counts(rows, ks[order[t + 1]]).proposals);
    }
}

spec fn proposals_in(rows: Seq<QualityRow>, ks: Seq<Seq<Seq<char>>>) -> int
    decreases ks.len(),
{
    if ks.len() == 0 {
        0
    } else {
        proposals_in(rows, ks.drop_last()) + group_counts(rows, ks.last()).proposals
    }
}

proof fn lemma_proposals_step(rows: Seq<QualityRow>, r: QualityRow, ks: Seq<Seq<Seq<char>>>)
    requires
        rows.len() + 1 < u32::MAX,
    ensures
        crate::ai::usage_laws::count_of(ks, quality_key(r)) == 0 ==> proposals_in(rows.push(r), ks) == proposals_in(rows, ks),
        crate::ai::usage_laws::count_of(ks, quality_key(r)) == 1 ==> proposals_in(rows.push(r), ks) == proposals_in(rows, ks) + 1,
    decreases ks.len(),
{
    if ks.len() > 0 {
        lemma_proposals_step(rows, r, ks.drop_last());
        assert(rows.push(r).drop_last() =~= rows);
        group_counts_add_up(rows, ks.last());
    }
}

proof fn lemma_proposals_empty(ks: Seq<Seq<Seq<char>>>)
    ensures
        proposals_in(Seq::<QualityRow>::empty(), ks) == 0,
    decreases ks.len(),
{
    if ks.len() > 0 {
        lemma_proposals_empty(ks.drop_last());
    }
}

proof fn lemma_proposals_prefix(rows: Seq<QualityRow>, ks: Seq<Seq<Seq<char>>>, i: int)
    requires
        0 <= i <= rows.len(),
        rows.len() < u32::MAX,
        forall|s: int, t: int| 0 <= s < t < ks.len() ==> #[trigger] ks[s] != #[trigger] ks[t],
        forall|j: int| 0 <= j < rows.len() ==> ks.contains(#[trigger] quality_key(rows[j])),
    ensures
        proposals_in(rows.take(i), ks) == i,
    decreases i,
{
    if i == 0 {
        lemma_proposals_empty(ks);
        assert(rows.take(0) =~= Seq::<QualityRow>::empty());
    } else {
        let j = i - 1;
        lemma_proposals_prefix(rows, ks, j);
        assert(ks.contains(quality_key(rows[j])));
        crate::ai::usage_laws::lemma_count_of_once(ks, quality_key(rows[j]));
        assert(rows.take(i) =~= rows.take(j).push(rows[j]));
        lemma_proposals_step(rows.take(j), rows[j], ks);
    }
}

proof fn lemma_totals_count(rows: Seq<QualityRow>, ks: Seq<Seq<Seq<char>>>)
    requires
        proposals_in(rows, ks) <= u32::MAX,
    ensures
        quality_totals(rows, ks).0 == proposals_in(rows, ks),
    decreases ks.len(),
{
    if ks.len() > 0 {
        lemma_totals_count(rows, ks.drop_last());
    }
}

/// The total counts every proposal once, as long as it does not saturate.
pub proof fn total_counts_every_proposal(rows: Seq<QualityRow>)
    requires
        rows.len() + 1 < u32::MAX,
    ensures
        quality_totals(rows, quality_keys(rows)).0 == rows.len(),
{
    let ks = quality_keys(rows);
    let dirs = seq![true, true, true, true];
    let keys = Seq::new(rows.len(), |i: int| quality_key(rows[i]));
    assert(crate::ai::usage_laws::keys_wide(keys, dirs));
    crate::ai::usage_laws::lemma_ordered_keys(keys, None, dirs, rows.len());
    crate::ai::usage_laws::lemma_count_above_bound(keys, None, dirs, rows.len() as int);
    assert forall|s: int, t: int| 0 <= s < t < ks.len() implies #[trigger] ks[s] != #[trigger] ks[t] by {
        crate::ai::usage_laws::lemma_key_less_irreflexive(ks[s], dirs);
    }
    assert forall|j: int| 0 <= j < rows.len() implies ks.contains(#[trigger] quality_key(rows[j])) by {
        assert(keys[j] == quality_key(rows[j]));
    }
    lemma_proposals_prefix(rows, ks, rows.len() as int);
    assert(rows.take(rows.len() as int) =~= rows);
    lemma_totals_count(rows, ks);
}

} // verus!

verus! {

/// The days of a quality window, clamped to one to 3650.
pub open spec fn quality_days(days: u32) -> u32 {
    if days < 1 {
        1
    } else if days > 3650 {
        3650
    } else {
        days
    }
}

/// The date modifier that limits the quality summary to the last `days` days
/// (`-<days - 1> days`, the days clamped to one to 3650); no days, no limit.
pub fn quality_window(days: Option<u32>) -> (r: Option<String>)
    ensures
        match days {
            None => r is None,
            Some(d) => r matches Some(m) && m@ == "-"@ + crate::text::decimal(
                (quality_days(d) - 1) as nat,
            ) + " days"@,
        },
{
    match days {
        None => None,
        Some(days) => {
            let d: u32 = if days < 1 {
                1
            } else if days > 3650 {
                3650
            } else {
                days
            };
            let mut m = crate::text::chars_of("-");
            crate::text::push_decimal(&mut m, (d - 1) as u128);
            crate::text::extend_str(&mut m, " days");
            Some(crate::text::string_of(&m))
        },
    }
}

} // verus!
