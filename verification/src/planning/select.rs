//! Ranked selection of blocks: highest score first, earlier index on ties.
use vstd::prelude::*;

verus! {

/// How many entries of a mask are set.
pub open spec fn count_true(mask: Seq<bool>) -> nat
    decreases mask.len(),
{
    if mask.len() == 0 {
        0
    } else {
        count_true(mask.drop_last()) + if mask.last() {
            1nat
        } else {
            0nat
        }
    }
}

pub proof fn lemma_count_bound(mask: Seq<bool>)
    ensures
        count_true(mask) <= mask.len(),
    decreases mask.len(),
{
    if mask.len() > 0 {
        lemma_count_bound(mask.drop_last());
    }
}

pub proof fn lemma_count_set(mask: Seq<bool>, i: int)
    requires
        0 <= i < mask.len(),
        !mask[i],
    ensures
        count_true(mask.update(i, true)) == count_true(mask) + 1,
    decreases mask.len(),
{
    let m2 = mask.update(i, true);
    if i == mask.len() - 1 {
        assert(m2.drop_last() =~= mask.drop_last());
    } else {
        assert(m2.drop_last() =~= mask.drop_last().update(i, true));
        lemma_count_set(mask.drop_last(), i);
    }
}

pub proof fn lemma_count_push(mask: Seq<bool>, b: bool)
    ensures
        count_true(mask.push(b)) == count_true(mask) + if b {
            1nat
        } else {
            0nat
        },
{
    assert(mask.push(b).drop_last() =~= mask);
}

/// The best unselected eligible index below `n`: the highest score, the
/// earliest index among equal scores.
pub open spec fn best_among(scores: Seq<u32>, mask: Seq<bool>, eligible: Seq<bool>, n: int) -> Option<
    int,
>
    decreases n,
{
    if n <= 0 {
        None
    } else {
        let b = best_among(scores, mask, eligible, n - 1);
        let i = n - 1;
        if mask[i] || !eligible[i] {
            b
        } else {
            match b {
                None => Some(i),
                Some(j) => if scores[i] > scores[j] {
                    Some(i)
                } else {
                    Some(j)
                },
            }
        }
    }
}

pub(crate) proof fn lemma_best_in_range(scores: Seq<u32>, mask: Seq<bool>, eligible: Seq<bool>, n: int)
    ensures
        match best_among(scores, mask, eligible, n) {
            Some(b) => 0 <= b < n && !mask[b] && eligible[b],
            None => true,
        },
    decreases n,
{
    if n > 0 {
        lemma_best_in_range(scores, mask, eligible, n - 1);
    }
}

/// Selects up to `k` more indices, one best candidate at a time.
pub open spec fn fill(scores: Seq<u32>, mask: Seq<bool>, eligible: Seq<bool>, k: nat) -> Seq<bool>
    decreases k,
{
    if k == 0 {
        mask
    } else {
        match best_among(scores, mask, eligible, scores.len() as int) {
            None => mask,
            Some(b) => fill(scores, mask.update(b, true), eligible, (k - 1) as nat),
        }
    }
}

/// The best unselected eligible index.
pub fn best_candidate(scores: &Vec<u32>, mask: &Vec<bool>, eligible: &Vec<bool>) -> (r: Option<
    usize,
>)
    requires
        mask.len() == scores.len(),
        eligible.len() == scores.len(),
    ensures
        match r {
            Some(b) => best_among(scores@, mask@, eligible@, scores.len() as int) == Some(
                b as int,
            ) && b < scores.len() && !mask@[b as int],
            None => best_among(scores@, mask@, eligible@, scores.len() as int) is None,
        },
{
    let mut best: Option<usize> = None;
    let mut i: usize = 0;
    while i < scores.len()
        invariant
            i <= scores.len(),
            mask.len() == scores.len(),
            eligible.len() == scores.len(),
            match best {
                Some(b) => best_among(scores@, mask@, eligible@, i as int) == Some(b as int) && b
                    < i && !mask@[b as int],
                None => best_among(scores@, mask@, eligible@, i as int) is None,
            },
        decreases scores.len() - i,
    {
        if !mask[i] && eligible[i] {
            match best {
                None => {
                    best = Some(i);
                },
                Some(j) => {
                    if scores[i] > scores[j] {
                        best = Some(i);
                    }
                },
            }
        }
        i = i + 1;
    }
    best
}

/// Adds up to `k` indices to the mask as [`fill`] does, and counts them.
pub fn fill_exec(scores: &Vec<u32>, mask: &mut Vec<bool>, eligible: &Vec<bool>, k: usize) -> (added:
    usize)
    requires
        old(mask).len() == scores.len(),
        eligible.len() == scores.len(),
    ensures
        final(mask)@ == fill(scores@, old(mask)@, eligible@, k as nat),
        count_true(final(mask)@) == count_true(old(mask)@) + added,
        added <= k,
        final(mask).len() == scores.len(),
{
    let ghost target = fill(scores@, mask@, eligible@, k as nat);
    let ghost c0 = count_true(mask@);
    let mut t: usize = 0;
    let mut done = false;
    while t < k && !done
        invariant
            t <= k,
            mask.len() == scores.len(),
            eligible.len() == scores.len(),
            fill(scores@, mask@, eligible@, (k - t) as nat) == target,
            done ==> mask@ == target,
            count_true(mask@) == c0 + t,
        decreases (k - t) as int + if done { 0int } else { 1int },
    {
        match best_candidate(scores, mask, eligible) {
            None => {
                done = true;
            },
            Some(b) => {
                proof {
                    lemma_count_set(mask@, b as int);
                }
                mask.set(b, true);
                t = t + 1;
            },
        }
    }
    t
}

/// The indices of the set entries, in increasing order.
pub open spec fn set_indices(mask: Seq<bool>) -> Seq<int>
    decreases mask.len(),
{
    if mask.len() == 0 {
        seq![]
    } else {
        let d = set_indices(mask.drop_last());
        if mask.last() {
            d.push(mask.len() - 1)
        } else {
            d
        }
    }
}

pub proof fn lemma_set_indices_range(mask: Seq<bool>)
    ensures
        forall|k: int|
            0 <= k < set_indices(mask).len() ==> 0 <= #[trigger] set_indices(mask)[k] < mask.len(),
        set_indices(mask).len() == count_true(mask),
    decreases mask.len(),
{
    if mask.len() > 0 {
        lemma_set_indices_range(mask.drop_last());
    }
}

/// The indices of the set entries, in increasing order.
pub fn set_indices_of(mask: &Vec<bool>) -> (r: Vec<usize>)
    ensures
        r@.map_values(|i: usize| i as int) == set_indices(mask@),
        forall|k: int| 0 <= k < r.len() ==> #[trigger] r@[k] < mask.len(),
        r.len() == count_true(mask@),
{
    let mut r: Vec<usize> = Vec::new();
    let mut i: usize = 0;
    assert(mask@.take(0) =~= Seq::<bool>::empty());
    while i < mask.len()
        invariant
            i <= mask.len(),
            r@.map_values(|x: usize| x as int) == set_indices(mask@.take(i as int)),
            forall|k: int| 0 <= k < r.len() ==> #[trigger] r@[k] < i,
            r.len() == count_true(mask@.take(i as int)),
        decreases mask.len() - i,
    {
        assert(mask@.take(i + 1).drop_last() =~= mask@.take(i as int));
        if mask[i] {
            let ghost before = r@.map_values(|x: usize| x as int);
            r.push(i);
            assert(r@.map_values(|x: usize| x as int) =~= before.push(i as int));
        }
        i = i + 1;
    }
    assert(mask@.take(mask.len() as int) =~= mask@);
    r
}

/// A mask with no entry set.
pub open spec fn empty_mask(n: nat) -> Seq<bool> {
    Seq::new(n, |i: int| false)
}

/// A mask with every entry set.
pub open spec fn full_mask(n: nat) -> Seq<bool> {
    Seq::new(n, |i: int| true)
}

pub fn new_mask(n: usize, value: bool) -> (r: Vec<bool>)
    ensures
        r@ == Seq::new(n as nat, |i: int| value),
{
    let mut r: Vec<bool> = Vec::new();
    let mut i: usize = 0;
    while i < n
        invariant
            i <= n,
            r@ == Seq::new(i as nat, |j: int| value),
        decreases n - i,
    {
        r.push(value);
        i = i + 1;
        assert(r@ =~= Seq::new(i as nat, |j: int| value));
    }
    r
}

/// The evenly spaced sample position `sample` of `slots` over `n` entries.
pub open spec fn sample_index(sample: int, slots: int, n: int) -> int {
    if slots == 1 {
        n / 2
    } else {
        (sample * (n - 1)) / (slots - 1)
    }
}

/// Marks the sample positions `0..slots`.
pub open spec fn mark_samples(mask: Seq<bool>, slots: nat, upto: nat) -> Seq<bool>
    decreases upto,
{
    if upto == 0 {
        mask
    } else {
        let m = mark_samples(mask, slots, (upto - 1) as nat);
        m.update(sample_index(upto - 1, slots as int, mask.len() as int), true)
    }
}

/// Pointwise union of two masks.
pub open spec fn union_mask(a: Seq<bool>, b: Seq<bool>) -> Seq<bool> {
    Seq::new(a.len(), |i: int| a[i] || b[i])
}

/// The indices chosen for semantic scoring: the first, the best two thirds by
/// keyword score, evenly spread samples, then the best remaining ones, in
/// increasing order.
pub open spec fn spread_mask(scores: Seq<u32>, limit: nat) -> Seq<bool> {
    let n = scores.len();
    let keyword_slots = (limit * 2) / 3;
    let top = fill(scores, empty_mask(n), full_mask(n), keyword_slots);
    let base = union_mask(empty_mask(n).update(0, true), top);
    let slots: int = limit - count_true(base);
    let sampled = if slots > 0 {
        mark_samples(base, slots as nat, slots as nat)
    } else {
        base
    };
    let rest: nat = if limit > count_true(sampled) {
        (limit - count_true(sampled)) as nat
    } else {
        0
    };
    fill(scores, sampled, full_mask(n), rest)
}

/// `select_semantic_candidate_indexes` over precomputed scores.
pub open spec fn spread_select(scores: Seq<u32>, limit: nat) -> Seq<int> {
    if scores.len() == 0 || limit == 0 {
        seq![]
    } else if scores.len() <= limit {
        Seq::new(scores.len(), |i: int| i)
    } else {
        let idx = set_indices(spread_mask(scores, limit));
        if idx.len() <= limit {
            idx
        } else {
            idx.take(limit as int)
        }
    }
}

/// Chooses up to `limit` indices that cover the best keyword matches and the
/// whole range.
pub fn spread_select_of(scores: &Vec<u32>, limit: usize) -> (r: Vec<usize>)
    ensures
        r@.map_values(|i: usize| i as int) == spread_select(scores@, limit as nat),
        forall|k: int| 0 <= k < r.len() ==> #[trigger] r@[k] < scores.len(),
{
    let n = scores.len();
    if n == 0 || limit == 0 {
        let r: Vec<usize> = Vec::new();
        assert(r@.map_values(|i: usize| i as int) =~= spread_select(scores@, limit as nat));
        return r;
    }
    if n <= limit {
        let mut r: Vec<usize> = Vec::new();
        let mut i: usize = 0;
        while i < n
            invariant
                i <= n,
                r.len() == i,
                forall|k: int| 0 <= k < r.len() ==> #[trigger] r@[k] == k,
            decreases n - i,
        {
            r.push(i);
            i = i + 1;
        }
        assert(r@.map_values(|x: usize| x as int) =~= spread_select(scores@, limit as nat));
        return r;
    }
    let keyword_slots = (limit / 3) * 2 + ((limit % 3) * 2) / 3;
    assert(keyword_slots == (limit * 2) / 3) by (nonlinear_arith)
        requires
            keyword_slots == (limit / 3) * 2 + ((limit % 3) * 2) / 3,
    {
        assert(limit == 3 * (limit / 3) + limit % 3);
    };
    let all = new_mask(n, true);
    let mut top = new_mask(n, false);
    assert(all@ =~= full_mask(n as nat));
    assert(top@ =~= empty_mask(n as nat));
    fill_exec(scores, &mut top, &all, keyword_slots);
    let ghost b0 = empty_mask(n as nat).update(0, true);
    let mut base: Vec<bool> = Vec::new();
    let mut i: usize = 0;
    while i < n
        invariant
            i <= n == scores.len() == top.len(),
            b0 == empty_mask(n as nat).update(0, true),
            base.len() == i,
            forall|j: int| 0 <= j < i ==> #[trigger] base@[j] == (b0[j] || top@[j]),
        decreases n - i,
    {
        base.push(i == 0 || top[i]);
        i = i + 1;
    }
    assert(base@ =~= union_mask(b0, top@));
    let count = count_of(&base);
    proof {
        lemma_count_bound(base@);
    }
    let slots = if limit > count {
        limit - count
    } else {
        0
    };
    let ghost before_samples = base@;
    if slots > 0 {
        let mut s: usize = 0;
        while s < slots
            invariant
                s <= slots,
                slots > 0,
                n == scores.len() > limit,
                base.len() == n,
                base@ == mark_samples(before_samples, slots as nat, s as nat),
                before_samples.len() == n,
            decreases slots - s,
        {
            let index = if slots == 1 {
                n / 2
            } else {
                assert((s as int) * ((n - 1) as int) <= 0xffff_ffff_ffff_ffffu128 * 0xffff_ffff_ffff_ffffu128)
                    by (nonlinear_arith)
                    requires
                        s <= 0xffff_ffff_ffff_ffffu64,
                        n - 1 <= 0xffff_ffff_ffff_ffffu64,
                        s >= 0,
                        n >= 1,
                ;
                let prod: u128 = (s as u128) * ((n - 1) as u128);
                let q = prod / ((slots - 1) as u128);
                assert(q <= n - 1) by (nonlinear_arith)
                    requires
                        q == prod / ((slots - 1) as u128),
                        prod == s * (n - 1),
                        s < slots,
                        slots >= 2,
                        n >= 1,
                {
                    assert(s <= slots - 1);
                    assert(prod <= (slots - 1) * (n - 1));
                    assert(((slots - 1) * (n - 1)) / ((slots - 1) as int) == n - 1);
                };
                q as usize
            };
            assert(index == sample_index(s as int, slots as int, n as int));
            assert(index < n);
            base.set(index, true);
            s = s + 1;
        }
    }
    proof {
        lemma_count_bound(base@);
    }
    let ghost sampled = base@;
    let c = count_of(&base);
    let rest = if limit > c {
        limit - c
    } else {
        0
    };
    fill_exec(scores, &mut base, &all, rest);
    let idx = set_indices_of(&base);
    let mut r: Vec<usize> = Vec::new();
    let mut k: usize = 0;
    while k < idx.len() && k < limit
        invariant
            k <= idx.len(),
            k <= limit,
            r.len() == k,
            forall|j: int| 0 <= j < k ==> #[trigger] r@[j] == idx@[j],
            forall|j: int| 0 <= j < idx.len() ==> #[trigger] idx@[j] < n,
            n == scores.len(),
        decreases idx.len() - k,
    {
        r.push(idx[k]);
        k = k + 1;
    }
    proof {
        let sm = spread_mask(scores@, limit as nat);
        assert(sm == base@);
        let full = idx@.map_values(|x: usize| x as int);
        if full.len() <= limit {
            assert(r@.map_values(|x: usize| x as int) =~= full);
        } else {
            assert(r@.map_values(|x: usize| x as int) =~= full.take(limit as int));
        }
    }
    r
}

pub proof fn lemma_count_zero(n: nat)
    ensures
        count_true(empty_mask(n)) == 0,
    decreases n,
{
    if n > 0 {
        assert(empty_mask(n).drop_last() =~= empty_mask((n - 1) as nat));
        lemma_count_zero((n - 1) as nat);
    }
}

/// The number of set entries.
pub fn count_of(mask: &Vec<bool>) -> (r: usize)
    ensures
        r == count_true(mask@),
{
    let mut c: usize = 0;
    let mut i: usize = 0;
    assert(mask@.take(0) =~= Seq::<bool>::empty());
    while i < mask.len()
        invariant
            i <= mask.len(),
            c == count_true(mask@.take(i as int)),
            c <= i,
        decreases mask.len() - i,
    {
        assert(mask@.take(i + 1).drop_last() =~= mask@.take(i as int));
        if mask[i] {
            c = c + 1;
        }
        i = i + 1;
    }
    assert(mask@.take(mask.len() as int) =~= mask@);
    c
}

} // verus!

verus! {

/// The indices picked one best at a time (highest score, earliest index on
/// ties), at most `k` of them: the first `k` indices in order of score.
pub open spec fn pick_order(scores: Seq<u32>, mask: Seq<bool>, k: nat) -> Seq<int>
    decreases k,
{
    if k == 0 {
        seq![]
    } else {
        match best_among(scores, mask, full_mask(scores.len()), scores.len() as int) {
            None => seq![],
            Some(b) => seq![b] + pick_order(scores, mask.update(b, true), (k - 1) as nat),
        }
    }
}

/// The indices of the `k` best scores, best first.
pub fn pick_order_of(scores: &Vec<u32>, k: usize) -> (r: Vec<usize>)
    ensures
        r@.map_values(|i: usize| i as int) == pick_order(scores@, empty_mask(scores.len() as nat), k as nat),
        forall|j: int| 0 <= j < r.len() ==> #[trigger] r@[j] < scores.len(),
{
    let n = scores.len();
    let all = new_mask(n, true);
    assert(all@ =~= full_mask(n as nat));
    let mut mask = new_mask(n, false);
    assert(mask@ =~= empty_mask(n as nat));
    let ghost target = pick_order(scores@, mask@, k as nat);
    let mut out: Vec<usize> = Vec::new();
    let mut t: usize = 0;
    let mut done = false;
    assert(out@.map_values(|i: usize| i as int) =~= Seq::<int>::empty());
    while t < k && !done
        invariant
            t <= k,
            mask.len() == n == scores.len(),
            all@ == full_mask(n as nat),
            target == out@.map_values(|i: usize| i as int) + pick_order(scores@, mask@, (k - t) as nat),
            done ==> pick_order(scores@, mask@, (k - t) as nat) == Seq::<int>::empty(),
            forall|j: int| 0 <= j < out.len() ==> #[trigger] out@[j] < n,
        decreases (k - t) as int + if done { 0int } else { 1int },
    {
        match best_candidate(scores, &mask, &all) {
            None => {
                done = true;
            },
            Some(b) => {
                let ghost before = out@.map_values(|i: usize| i as int);
                let ghost rest = pick_order(scores@, mask@.update(b as int, true), (k - t - 1) as nat);
                out.push(b);
                assert(out@.map_values(|i: usize| i as int) =~= before.push(b as int));
                assert(before + (seq![b as int] + rest) =~= before.push(b as int) + rest);
                mask.set(b, true);
                t = t + 1;
            },
        }
    }
    assert(out@.map_values(|i: usize| i as int) + Seq::<int>::empty() =~= out@.map_values(|i: usize| i as int));
    out
}

} // verus!
