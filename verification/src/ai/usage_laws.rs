//! What grouping usage rows keeps: every run counted in exactly one group,
//! and the groups in key order.
use vstd::prelude::*;
use crate::ai::usage::{
    group_dirs, group_key, group_keys, group_summary, group_total, grouped_usage, key_less,
    lemma_ordered_member, min_above, ordered_keys, str_less, UsageGrouping, UsageRunRow,
};

verus! {

proof fn lemma_str_less_irreflexive(a: Seq<char>)
    ensures
        !str_less(a, a),
    decreases a.len(),
{
    if a.len() > 0 {
        lemma_str_less_irreflexive(a.drop_first());
    }
}

proof fn lemma_str_less_transitive(a: Seq<char>, b: Seq<char>, c: Seq<char>)
    requires
        str_less(a, b),
        str_less(b, c),
    ensures
        str_less(a, c),
    decreases a.len(),
{
    if a.len() > 0 && b.len() > 0 && c.len() > 0 && a[0] == b[0] && b[0] == c[0] {
        lemma_str_less_transitive(a.drop_first(), b.drop_first(), c.drop_first());
    }
}

proof fn lemma_str_less_total(a: Seq<char>, b: Seq<char>)
    requires
        a != b,
    ensures
        str_less(a, b) || str_less(b, a),
    decreases a.len(),
{
    if a.len() == 0 && b.len() == 0 {
        assert(a =~= b);
    } else if a.len() > 0 && b.len() > 0 && a[0] != b[0] {
        assert((a[0] as int) < (b[0] as int) || (b[0] as int) < (a[0] as int));
    } else if a.len() > 0 && b.len() > 0 && a[0] == b[0] {
        assert(a =~= seq![a[0]] + a.drop_first());
        assert(b =~= seq![b[0]] + b.drop_first());
        lemma_str_less_total(a.drop_first(), b.drop_first());
    }
}

pub(crate) proof fn lemma_key_less_irreflexive(a: Seq<Seq<char>>, dirs: Seq<bool>)
    ensures
        !key_less(a, a, dirs),
    decreases a.len(),
{
    if a.len() > 0 && dirs.len() > 0 {
        lemma_key_less_irreflexive(a.drop_first(), dirs.drop_first());
    }
}

proof fn lemma_key_less_transitive(a: Seq<Seq<char>>, b: Seq<Seq<char>>, c: Seq<Seq<char>>, dirs: Seq<bool>)
    requires
        key_less(a, b, dirs),
        key_less(b, c, dirs),
    ensures
        key_less(a, c, dirs),
    decreases a.len(),
{
    if a[0] != b[0] && b[0] != c[0] {
        if dirs[0] {
            lemma_str_less_transitive(a[0], b[0], c[0]);
            lemma_str_less_irreflexive(a[0]);
        } else {
            lemma_str_less_transitive(c[0], b[0], a[0]);
            lemma_str_less_irreflexive(a[0]);
        }
    } else if a[0] == b[0] && b[0] == c[0] {
        lemma_key_less_transitive(a.drop_first(), b.drop_first(), c.drop_first(), dirs.drop_first());
    }
}

proof fn lemma_key_less_total(a: Seq<Seq<char>>, b: Seq<Seq<char>>, dirs: Seq<bool>)
    requires
        a != b,
        a.len() == dirs.len(),
        b.len() == dirs.len(),
    ensures
        key_less(a, b, dirs) || key_less(b, a, dirs),
    decreases a.len(),
{
    if a.len() == 0 {
        assert(a =~= b);
    } else if a[0] != b[0] {
        lemma_str_less_total(a[0], b[0]);
    } else {
        assert(a =~= seq![a[0]] + a.drop_first());
        assert(b =~= seq![b[0]] + b.drop_first());
        lemma_key_less_total(a.drop_first(), b.drop_first(), dirs.drop_first());
    }
}

/// Whether a key comes after the last key taken (every key does when none was).
pub open spec fn above(last: Option<Seq<Seq<char>>>, k: Seq<Seq<char>>, dirs: Seq<bool>) -> bool {
    match last {
        Some(l) => key_less(l, k, dirs),
        None => true,
    }
}

proof fn lemma_min_above(keys: Seq<Seq<Seq<char>>>, last: Option<Seq<Seq<char>>>, dirs: Seq<bool>, n: int)
    requires
        n <= keys.len(),
    ensures
        match min_above(keys, last, dirs, n) {
            Some(i) => 0 <= i < n && above(last, keys[i], dirs) && forall|j: int|
                0 <= j < n && above(last, #[trigger] keys[j], dirs) ==> !key_less(keys[j], keys[i], dirs),
            None => forall|j: int| 0 <= j < n ==> !above(last, #[trigger] keys[j], dirs),
        },
    decreases n,
{
    if n > 0 {
        lemma_min_above(keys, last, dirs, n - 1);
        let k = keys[n - 1];
        lemma_key_less_irreflexive(k, dirs);
        match min_above(keys, last, dirs, n - 1) {
            None => {},
            Some(j0) => {
                if above(last, k, dirs) && key_less(k, keys[j0], dirs) {
                    assert forall|j: int| 0 <= j < n && above(last, #[trigger] keys[j], dirs) implies !key_less(keys[j], k, dirs) by {
                        if j < n - 1 && key_less(keys[j], k, dirs) {
                            lemma_key_less_transitive(keys[j], k, keys[j0], dirs);
                        }
                    }
                }
            },
        }
    }
}

/// How many of the first `n` keys come after `last`.
pub open spec fn count_above(keys: Seq<Seq<Seq<char>>>, last: Option<Seq<Seq<char>>>, dirs: Seq<bool>, n: int) -> nat
    decreases n,
{
    if n <= 0 {
        0
    } else {
        count_above(keys, last, dirs, n - 1) + if above(last, keys[n - 1], dirs) {
            1nat
        } else {
            0nat
        }
    }
}

pub(crate) proof fn lemma_count_above_bound(keys: Seq<Seq<Seq<char>>>, last: Option<Seq<Seq<char>>>, dirs: Seq<bool>, n: int)
    requires
        0 <= n,
    ensures
        count_above(keys, last, dirs, n) <= n,
    decreases n,
{
    if n > 0 {
        lemma_count_above_bound(keys, last, dirs, n - 1);
    }
}

/// Taking key `m` (after `last`) leaves fewer keys after the new last.
proof fn lemma_count_above_drops(
    keys: Seq<Seq<Seq<char>>>,
    last: Option<Seq<Seq<char>>>,
    dirs: Seq<bool>,
    m: int,
    n: int,
)
    requires
        0 <= n <= keys.len(),
        0 <= m < keys.len(),
        above(last, keys[m], dirs),
    ensures
        count_above(keys, Some(keys[m]), dirs, n) + (if m < n {
            1nat
        } else {
            0nat
        }) <= count_above(keys, last, dirs, n),
    decreases n,
{
    if n > 0 {
        lemma_count_above_drops(keys, last, dirs, m, n - 1);
        lemma_key_less_irreflexive(keys[m], dirs);
        if above(Some(keys[m]), keys[n - 1], dirs) {
            match last {
                Some(l) => lemma_key_less_transitive(l, keys[m], keys[n - 1], dirs),
                None => {},
            }
        }
    }
}

/// The keys all have one component per direction.
pub open spec fn keys_wide(keys: Seq<Seq<Seq<char>>>, dirs: Seq<bool>) -> bool {
    forall|i: int| 0 <= i < keys.len() ==> (#[trigger] keys[i]).len() == dirs.len()
}

/// The ordered keys come after `last`, in strictly increasing order, and
/// hold every key after `last` when the fuel covers them.
pub(crate) proof fn lemma_ordered_keys(keys: Seq<Seq<Seq<char>>>, last: Option<Seq<Seq<char>>>, dirs: Seq<bool>, fuel: nat)
    requires
        keys_wide(keys, dirs),
    ensures
        forall|t: int| 0 <= t < ordered_keys(keys, last, dirs, fuel).len() ==> above(last, #[trigger] ordered_keys(keys, last, dirs, fuel)[t], dirs),
        forall|s: int, t: int| 0 <= s < t < ordered_keys(keys, last, dirs, fuel).len() ==> key_less(
            #[trigger] ordered_keys(keys, last, dirs, fuel)[s],
            #[trigger] ordered_keys(keys, last, dirs, fuel)[t],
            dirs,
        ),
        fuel >= count_above(keys, last, dirs, keys.len() as int) ==> forall|j: int|
            0 <= j < keys.len() && above(last, #[trigger] keys[j], dirs) ==> ordered_keys(keys, last, dirs, fuel).contains(keys[j]),
    decreases fuel,
{
    let n = keys.len() as int;
    lemma_min_above(keys, last, dirs, n);
    if fuel > 0 {
        match min_above(keys, last, dirs, n) {
            None => {},
            Some(m) => {
                let km = keys[m];
                let rest = ordered_keys(keys, Some(km), dirs, (fuel - 1) as nat);
                let o = ordered_keys(keys, last, dirs, fuel);
                lemma_ordered_keys(keys, Some(km), dirs, (fuel - 1) as nat);
                assert(o == seq![km] + rest);
                assert forall|t: int| 0 <= t < o.len() implies above(last, #[trigger] o[t], dirs) by {
                    if t > 0 {
                        assert(o[t] == rest[t - 1]);
                        assert(above(Some(km), rest[t - 1], dirs));
                        match last {
                            Some(l) => lemma_key_less_transitive(l, km, o[t], dirs),
                            None => {},
                        }
                    }
                }
                assert forall|s: int, t: int| 0 <= s < t < o.len() implies key_less(#[trigger] o[s], #[trigger] o[t], dirs) by {
                    assert(o[t] == rest[t - 1]);
                    if s == 0 {
                        assert(above(Some(km), rest[t - 1], dirs));
                    } else {
                        assert(o[s] == rest[s - 1]);
                    }
                }
                if fuel >= count_above(keys, last, dirs, n) {
                    lemma_count_above_drops(keys, last, dirs, m, n);
                    assert forall|j: int| 0 <= j < keys.len() && above(last, #[trigger] keys[j], dirs) implies o.contains(keys[j]) by {
                        if keys[j] == km {
                            assert(o[0] == km);
                        } else {
                            lemma_key_less_total(keys[j], km, dirs);
                            assert(above(Some(km), keys[j], dirs));
                            let t = choose|t: int| 0 <= t < rest.len() && rest[t] == keys[j];
                            assert(o[t + 1] == keys[j]);
                        }
                    }
                }
            },
        }
    } else {
        if fuel >= count_above(keys, last, dirs, n) {
            assert forall|j: int| 0 <= j < keys.len() && above(last, #[trigger] keys[j], dirs) implies ordered_keys(keys, last, dirs, fuel).contains(keys[j]) by {
                lemma_count_above_positive(keys, last, dirs, n, j);
            }
        }
    }
}

proof fn lemma_count_above_positive(keys: Seq<Seq<Seq<char>>>, last: Option<Seq<Seq<char>>>, dirs: Seq<bool>, n: int, j: int)
    requires
        0 <= j < n,
        above(last, keys[j], dirs),
    ensures
        count_above(keys, last, dirs, n) >= 1,
    decreases n,
{
    if j < n - 1 {
        lemma_count_above_positive(keys, last, dirs, n - 1, j);
    }
}

/// The input tokens of the runs, added up.
pub open spec fn rows_input(rows: Seq<UsageRunRow>) -> int
    decreases rows.len(),
{
    if rows.len() == 0 {
        0
    } else {
        rows_input(rows.drop_last()) + rows.last().input_tokens
    }
}

/// The output tokens of the runs, added up.
pub open spec fn rows_output(rows: Seq<UsageRunRow>) -> int
    decreases rows.len(),
{
    if rows.len() == 0 {
        0
    } else {
        rows_output(rows.drop_last()) + rows.last().output_tokens
    }
}

/// The run counts of group summaries, added up.
pub open spec fn summed_runs(s: Seq<(Seq<char>, u32, u64, u64, Option<u64>)>) -> int
    decreases s.len(),
{
    if s.len() == 0 {
        0
    } else {
        summed_runs(s.drop_last()) + s.last().1
    }
}

/// The input tokens of group summaries, added up.
pub open spec fn summed_input(s: Seq<(Seq<char>, u32, u64, u64, Option<u64>)>) -> int
    decreases s.len(),
{
    if s.len() == 0 {
        0
    } else {
        summed_input(s.drop_last()) + s.last().2
    }
}

/// The output tokens of group summaries, added up.
pub open spec fn summed_output(s: Seq<(Seq<char>, u32, u64, u64, Option<u64>)>) -> int
    decreases s.len(),
{
    if s.len() == 0 {
        0
    } else {
        summed_output(s.drop_last()) + s.last().3
    }
}

spec fn runs_in(rows: Seq<UsageRunRow>, g: UsageGrouping, ks: Seq<Seq<Seq<char>>>) -> int
    decreases ks.len(),
{
    if ks.len() == 0 {
        0
    } else {
        runs_in(rows, g, ks.drop_last()) + group_total(rows, g, ks.last()).run_count
    }
}

spec fn input_in(rows: Seq<UsageRunRow>, g: UsageGrouping, ks: Seq<Seq<Seq<char>>>) -> int
    decreases ks.len(),
{
    if ks.len() == 0 {
        0
    } else {
        input_in(rows, g, ks.drop_last()) + group_total(rows, g, ks.last()).input_tokens
    }
}

spec fn output_in(rows: Seq<UsageRunRow>, g: UsageGrouping, ks: Seq<Seq<Seq<char>>>) -> int
    decreases ks.len(),
{
    if ks.len() == 0 {
        0
    } else {
        output_in(rows, g, ks.drop_last()) + group_total(rows, g, ks.last()).output_tokens
    }
}

pub(crate) open spec fn count_of(ks: Seq<Seq<Seq<char>>>, k: Seq<Seq<char>>) -> nat
    decreases ks.len(),
{
    if ks.len() == 0 {
        0
    } else {
        count_of(ks.drop_last(), k) + if ks.last() == k {
            1nat
        } else {
            0nat
        }
    }
}

proof fn lemma_count_of_absent(ks: Seq<Seq<Seq<char>>>, k: Seq<Seq<char>>)
    requires
        !ks.contains(k),
    ensures
        count_of(ks, k) == 0,
    decreases ks.len(),
{
    if ks.len() > 0 {
        assert(!ks.drop_last().contains(k)) by {
            if ks.drop_last().contains(k) {
                let t = choose|t: int| 0 <= t < ks.drop_last().len() && ks.drop_last()[t] == k;
                assert(ks[t] == k);
            }
        }
        assert(ks.last() == ks[ks.len() - 1]);
        lemma_count_of_absent(ks.drop_last(), k);
    }
}

pub(crate) proof fn lemma_count_of_once(ks: Seq<Seq<Seq<char>>>, k: Seq<Seq<char>>)
    requires
        ks.contains(k),
        forall|s: int, t: int| 0 <= s < t < ks.len() ==> #[trigger] ks[s] != #[trigger] ks[t],
    ensures
        count_of(ks, k) == 1,
    decreases ks.len(),
{
    let front = ks.drop_last();
    if ks.last() == k {
        assert(!front.contains(k)) by {
            if front.contains(k) {
                let t = choose|t: int| 0 <= t < front.len() && front[t] == k;
                assert(ks[t] == ks[ks.len() - 1]);
            }
        }
        lemma_count_of_absent(front, k);
    } else {
        let t = choose|t: int| 0 <= t < ks.len() && ks[t] == k;
        assert(t < ks.len() - 1);
        assert(front[t] == k);
        lemma_count_of_once(front, k);
    }
}

proof fn lemma_total_bound(rows: Seq<UsageRunRow>, g: UsageGrouping, k: Seq<Seq<char>>)
    ensures
        group_total(rows, g, k).run_count <= rows.len(),
        group_total(rows, g, k).input_tokens <= rows_input(rows),
        group_total(rows, g, k).output_tokens <= rows_output(rows),
    decreases rows.len(),
{
    if rows.len() > 0 {
        lemma_total_bound(rows.drop_last(), g, k);
    }
}

proof fn lemma_rows_prefix(rows: Seq<UsageRunRow>, i: int)
    requires
        0 <= i <= rows.len(),
    ensures
        rows_input(rows.take(i)) <= rows_input(rows),
        rows_output(rows.take(i)) <= rows_output(rows),
    decreases rows.len() - i,
{
    if i < rows.len() {
        lemma_rows_prefix(rows, i + 1);
        assert(rows.take(i + 1).drop_last() =~= rows.take(i));
    } else {
        assert(rows.take(i) =~= rows);
    }
}

proof fn lemma_push_step(rows: Seq<UsageRunRow>, r: UsageRunRow, g: UsageGrouping, ks: Seq<Seq<Seq<char>>>)
    requires
        rows.len() < u64::MAX,
        rows_input(rows) + r.input_tokens <= u64::MAX,
        rows_output(rows) + r.output_tokens <= u64::MAX,
    ensures
        count_of(ks, group_key(g, r)) == 0 ==> runs_in(rows.push(r), g, ks) == runs_in(rows, g, ks)
            && input_in(rows.push(r), g, ks) == input_in(rows, g, ks)
            && output_in(rows.push(r), g, ks) == output_in(rows, g, ks),
        count_of(ks, group_key(g, r)) == 1 ==> runs_in(rows.push(r), g, ks) == runs_in(rows, g, ks) + 1
            && input_in(rows.push(r), g, ks) == input_in(rows, g, ks) + r.input_tokens
            && output_in(rows.push(r), g, ks) == output_in(rows, g, ks) + r.output_tokens,
    decreases ks.len(),
{
    if ks.len() > 0 {
        lemma_push_step(rows, r, g, ks.drop_last());
        let k = ks.last();
        assert(rows.push(r).drop_last() =~= rows);
        lemma_total_bound(rows, g, k);
    }
}

proof fn lemma_empty_sums(g: UsageGrouping, ks: Seq<Seq<Seq<char>>>)
    ensures
        runs_in(Seq::<UsageRunRow>::empty(), g, ks) == 0,
        input_in(Seq::<UsageRunRow>::empty(), g, ks) == 0,
        output_in(Seq::<UsageRunRow>::empty(), g, ks) == 0,
    decreases ks.len(),
{
    if ks.len() > 0 {
        lemma_empty_sums(g, ks.drop_last());
    }
}

proof fn lemma_summed(rows: Seq<UsageRunRow>, g: UsageGrouping, m: int)
    requires
        0 <= m <= group_keys(rows, g).len(),
        rows.len() <= u32::MAX,
    ensures
        summed_runs(grouped_usage(rows, g).take(m)) == runs_in(rows, g, group_keys(rows, g).take(m)),
        summed_input(grouped_usage(rows, g).take(m)) == input_in(rows, g, group_keys(rows, g).take(m)),
        summed_output(grouped_usage(rows, g).take(m)) == output_in(rows, g, group_keys(rows, g).take(m)),
    decreases m,
{
    let ks = group_keys(rows, g);
    let s = grouped_usage(rows, g);
    if m > 0 {
        lemma_summed(rows, g, m - 1);
        assert(s.take(m).drop_last() =~= s.take(m - 1));
        assert(ks.take(m).drop_last() =~= ks.take(m - 1));
        lemma_total_bound(rows, g, ks[m - 1]);
        assert(s.take(m).last() == group_summary(rows, g, ks[m - 1]));
    } else {
        assert(s.take(0) =~= Seq::<(Seq<char>, u32, u64, u64, Option<u64>)>::empty());
        assert(ks.take(0) =~= Seq::<Seq<Seq<char>>>::empty());
    }
}

proof fn lemma_prefix_sums(rows: Seq<UsageRunRow>, g: UsageGrouping, ks: Seq<Seq<Seq<char>>>, i: int)
    requires
        0 <= i <= rows.len(),
        rows.len() <= u32::MAX,
        rows_input(rows) <= u64::MAX,
        rows_output(rows) <= u64::MAX,
        forall|s: int, t: int| 0 <= s < t < ks.len() ==> #[trigger] ks[s] != #[trigger] ks[t],
        forall|j: int| 0 <= j < rows.len() ==> ks.contains(#[trigger] group_key(g, rows[j])),
    ensures
        runs_in(rows.take(i), g, ks) == i,
        input_in(rows.take(i), g, ks) == rows_input(rows.take(i)),
        output_in(rows.take(i), g, ks) == rows_output(rows.take(i)),
    decreases i,
{
    if i == 0 {
        lemma_empty_sums(g, ks);
        assert(rows.take(0) =~= Seq::<UsageRunRow>::empty());
    } else {
        let j = i - 1;
        lemma_prefix_sums(rows, g, ks, j);
        assert(ks.contains(group_key(g, rows[j])));
        lemma_count_of_once(ks, group_key(g, rows[j]));
        assert(rows.take(i) =~= rows.take(j).push(rows[j]));
        assert(rows.take(i).drop_last() =~= rows.take(j));
        lemma_rows_prefix(rows, i);
        lemma_push_step(rows.take(j), rows[j], g, ks);
    }
}

/// Grouping runs (by currency, by task and currency, or by day and
/// currency) loses and doubles none: the groups' run counts add up to the
/// number of runs and their token counts to the runs' token counts, as long
/// as no total saturates; and the groups come in strictly increasing key
/// order, so each group is listed once; the groups are exactly the keys of
/// the runs.
pub proof fn usage_groups_add_up(rows: Seq<UsageRunRow>, g: UsageGrouping)
    requires
        rows.len() <= u32::MAX,
        rows_input(rows) <= u64::MAX,
        rows_output(rows) <= u64::MAX,
    ensures
        summed_runs(grouped_usage(rows, g)) == rows.len(),
        summed_input(grouped_usage(rows, g)) == rows_input(rows),
        summed_output(grouped_usage(rows, g)) == rows_output(rows),
        forall|s: int, t: int| 0 <= s < t < group_keys(rows, g).len() ==> key_less(
            #[trigger] group_keys(rows, g)[s],
            #[trigger] group_keys(rows, g)[t],
            group_dirs(g),
        ),
        forall|j: int| 0 <= j < rows.len() ==> group_keys(rows, g).contains(#[trigger] group_key(g, rows[j])),
        forall|t: int| 0 <= t < group_keys(rows, g).len() ==> exists|j: int|
            0 <= j < rows.len() && group_key(g, rows[j]) == #[trigger] group_keys(rows, g)[t],
{
    let dirs = group_dirs(g);
    let keys = Seq::new(rows.len(), |i: int| group_key(g, rows[i]));
    let ks = group_keys(rows, g);
    let n = rows.len() as int;
    assert(keys_wide(keys, dirs));
    lemma_ordered_keys(keys, None, dirs, rows.len());
    lemma_count_above_bound(keys, None, dirs, n);
    assert forall|s: int, t: int| 0 <= s < t < ks.len() implies #[trigger] ks[s] != #[trigger] ks[t] by {
        lemma_key_less_irreflexive(ks[s], dirs);
    }
    assert forall|j: int| 0 <= j < rows.len() implies ks.contains(#[trigger] group_key(g, rows[j])) by {
        assert(keys[j] == group_key(g, rows[j]));
    }
    lemma_prefix_sums(rows, g, ks, n);
    assert forall|t: int| 0 <= t < ks.len() implies exists|j: int|
        0 <= j < rows.len() && group_key(g, rows[j]) == #[trigger] ks[t] by {
        lemma_ordered_member(keys, None, dirs, rows.len(), t);
        let j = choose|j: int| 0 <= j < keys.len() && keys[j] == #[trigger] ordered_keys(keys, None, dirs, rows.len())[t];
        assert(keys[j] == group_key(g, rows[j]));
    }
    assert(rows.take(n) =~= rows);
    lemma_summed(rows, g, ks.len() as int);
    assert(grouped_usage(rows, g).take(ks.len() as int) =~= grouped_usage(rows, g));
    assert(ks.take(ks.len() as int) =~= ks);
}

} // verus!
