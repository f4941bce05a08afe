//! Usage and cost totals of AI runs, per currency, day and task.
use vstd::prelude::*;
use crate::ai::parsing::{estimated_cost, estimate_run_cost_micros};
use crate::ai::tasks::{
    AiError, AiUsageCurrencySummary, AiUsageDailySummary, AiUsageSummary, AiUsageTaskSummary,
};
use crate::text::{chars_of, string_of, views_of};

verus! {

/// One AI run as the usage totals read it.
#[derive(Debug, Clone, PartialEq, Eq)]
pub struct UsageRunRow {
    pub task_key: String,
    pub input_tokens: u64,
    pub output_tokens: u64,
    pub input_price: u64,
    pub output_price: u64,
    pub currency: String,
    pub actual_cost_micros: Option<u64>,
    pub date: Option<String>,
}

/// Running totals of runs.
#[derive(Debug, Clone, Copy, PartialEq, Eq, Structural)]
pub struct UsageAggregate {
    pub run_count: u64,
    pub input_tokens: u64,
    pub output_tokens: u64,
    pub estimated_cost_micros: Option<u64>,
}

/// A count that fits in `u32`, saturated.
pub open spec fn sat_u32(n: u64) -> u32 {
    if n > u32::MAX {
        u32::MAX
    } else {
        n as u32
    }
}

/// The cost of a run: the exact cost when known, else the estimate from its
/// token counts (each saturated to `u32`) and prices.
pub open spec fn run_cost(r: UsageRunRow) -> Option<u64> {
    match r.actual_cost_micros {
        Some(c) => Some(c),
        None => estimated_cost(sat_u32(r.input_tokens), sat_u32(r.output_tokens), r.input_price, r.output_price),
    }
}

/// The totals after one more run (all sums saturating); the cost total is
/// started by the first run whose cost is known.
pub open spec fn add_run(a: UsageAggregate, r: UsageRunRow) -> UsageAggregate {
    UsageAggregate {
        run_count: a.run_count.saturating_add(1),
        input_tokens: a.input_tokens.saturating_add(r.input_tokens),
        output_tokens: a.output_tokens.saturating_add(r.output_tokens),
        estimated_cost_micros: match run_cost(r) {
            Some(c) => Some(
                (match a.estimated_cost_micros {
                    Some(t) => t,
                    None => 0u64,
                }).saturating_add(c),
            ),
            None => a.estimated_cost_micros,
        },
    }
}

/// No runs yet.
pub open spec fn no_runs() -> UsageAggregate {
    UsageAggregate { run_count: 0, input_tokens: 0, output_tokens: 0, estimated_cost_micros: None }
}

impl UsageAggregate {
    pub fn new() -> (r: Self)
        ensures
            r == no_runs(),
    {
        UsageAggregate { run_count: 0, input_tokens: 0, output_tokens: 0, estimated_cost_micros: None }
    }

    /// Counts one more run.
    pub fn add(&mut self, row: &UsageRunRow)
        ensures
            *final(self) == add_run(*old(self), *row),
    {
        self.run_count = self.run_count.saturating_add(1);
        self.input_tokens = self.input_tokens.saturating_add(row.input_tokens);
        self.output_tokens = self.output_tokens.saturating_add(row.output_tokens);
        let cost = match row.actual_cost_micros {
            Some(c) => Some(c),
            None => {
                let i: u32 = if row.input_tokens > 0xffff_ffff {
                    0xffff_ffff
                } else {
                    row.input_tokens as u32
                };
                let o: u32 = if row.output_tokens > 0xffff_ffff {
                    0xffff_ffff
                } else {
                    row.output_tokens as u32
                };
                estimate_run_cost_micros(i, o, row.input_price, row.output_price)
            },
        };
        match cost {
            Some(c) => {
                let t = match self.estimated_cost_micros {
                    Some(t) => t,
                    None => 0,
                };
                self.estimated_cost_micros = Some(t.saturating_add(c));
            },
            None => {},
        }
    }

    /// The totals in a currency, the run count saturated to `u32`.
    pub fn into_currency(self, currency: String) -> (r: AiUsageCurrencySummary)
        ensures
            r.currency == currency,
            r.run_count == sat_u32(self.run_count),
            r.input_tokens == self.input_tokens,
            r.output_tokens == self.output_tokens,
            r.estimated_cost_micros == self.estimated_cost_micros,
    {
        AiUsageCurrencySummary {
            currency,
            run_count: if self.run_count > 0xffff_ffff {
                0xffff_ffff
            } else {
                self.run_count as u32
            },
            input_tokens: self.input_tokens,
            output_tokens: self.output_tokens,
            estimated_cost_micros: self.estimated_cost_micros,
        }
    }
}

/// Lexicographic order of character sequences (which is the byte order of
/// their UTF-8 text).
pub open spec fn str_less(a: Seq<char>, b: Seq<char>) -> bool
    decreases a.len(),
{
    if a.len() == 0 {
        b.len() > 0
    } else if b.len() == 0 {
        false
    } else if a[0] != b[0] {
        a[0] < b[0]
    } else {
        str_less(a.drop_first(), b.drop_first())
    }
}

/// Whether `a` comes before `b`.
pub fn chars_less(a: &Vec<char>, b: &Vec<char>) -> (r: bool)
    ensures
        r == str_less(a@, b@),
{
    let mut i: usize = 0;
    assert(a@.skip(0) =~= a@);
    assert(b@.skip(0) =~= b@);
    while i < a.len() && i < b.len() && a[i] == b[i]
        invariant
            i <= a.len(),
            i <= b.len(),
            str_less(a@, b@) == str_less(a@.skip(i as int), b@.skip(i as int)),
        decreases a.len() - i,
    {
        assert(a@.skip(i as int).drop_first() =~= a@.skip(i + 1));
        assert(b@.skip(i as int).drop_first() =~= b@.skip(i + 1));
        i = i + 1;
    }
    if i == a.len() {
        i < b.len()
    } else if i == b.len() {
        false
    } else {
        a[i] < b[i]
    }
}

/// Keys compared component by component, each ascending or descending.
pub open spec fn key_less(a: Seq<Seq<char>>, b: Seq<Seq<char>>, dirs: Seq<bool>) -> bool
    decreases a.len(),
{
    if a.len() == 0 || b.len() == 0 || dirs.len() == 0 {
        false
    } else if a[0] != b[0] {
        if dirs[0] {
            str_less(a[0], b[0])
        } else {
            str_less(b[0], a[0])
        }
    } else {
        key_less(a.drop_first(), b.drop_first(), dirs.drop_first())
    }
}

fn key_less_exec(a: &Vec<Vec<char>>, b: &Vec<Vec<char>>, dirs: &Vec<bool>) -> (r: bool)
    ensures
        r == key_less(views_of(a@), views_of(b@), dirs@),
{
    let mut i: usize = 0;
    assert(views_of(a@).skip(0) =~= views_of(a@));
    assert(views_of(b@).skip(0) =~= views_of(b@));
    assert(dirs@.skip(0) =~= dirs@);
    while i < a.len() && i < b.len() && i < dirs.len()
        invariant
            i <= a.len(),
            i <= b.len(),
            i <= dirs.len(),
            key_less(views_of(a@), views_of(b@), dirs@) == key_less(
                views_of(a@).skip(i as int),
                views_of(b@).skip(i as int),
                dirs@.skip(i as int),
            ),
        decreases a.len() - i,
    {
        assert(views_of(a@).skip(i as int)[0] == a@[i as int]@);
        assert(views_of(b@).skip(i as int)[0] == b@[i as int]@);
        if !crate::text::eq_chars(&a[i], &b[i]) {
            return if dirs[i] {
                chars_less(&a[i], &b[i])
            } else {
                chars_less(&b[i], &a[i])
            };
        }
        assert(views_of(a@).skip(i as int).drop_first() =~= views_of(a@).skip(i + 1));
        assert(views_of(b@).skip(i as int).drop_first() =~= views_of(b@).skip(i + 1));
        assert(dirs@.skip(i as int).drop_first() =~= dirs@.skip(i + 1));
        i = i + 1;
    }
    false
}

/// The views of keys.
pub open spec fn keys_view(ks: Seq<Vec<Vec<char>>>) -> Seq<Seq<Seq<char>>> {
    ks.map_values(|k: Vec<Vec<char>>| views_of(k@))
}

/// Among the first `n` keys, the index of the smallest key after `last`
/// (the earliest such index when keys repeat).
pub open spec fn min_above(
    keys: Seq<Seq<Seq<char>>>,
    last: Option<Seq<Seq<char>>>,
    dirs: Seq<bool>,
    n: int,
) -> Option<int>
    decreases n,
{
    if n <= 0 {
        None
    } else {
        let b = min_above(keys, last, dirs, n - 1);
        let k = keys[n - 1];
        let above = match last {
            Some(l) => key_less(l, k, dirs),
            None => true,
        };
        if !above {
            b
        } else {
            match b {
                None => Some(n - 1),
                Some(j) => if key_less(k, keys[j], dirs) {
                    Some(n - 1)
                } else {
                    Some(j)
                },
            }
        }
    }
}

/// The distinct keys in order: repeatedly the smallest key after the last one
/// taken, at most `fuel` of them.
pub open spec fn ordered_keys(
    keys: Seq<Seq<Seq<char>>>,
    last: Option<Seq<Seq<char>>>,
    dirs: Seq<bool>,
    fuel: nat,
) -> Seq<Seq<Seq<char>>>
    decreases fuel,
{
    if fuel == 0 {
        seq![]
    } else {
        match min_above(keys, last, dirs, keys.len() as int) {
            None => seq![],
            Some(i) => seq![keys[i]] + ordered_keys(keys, Some(keys[i]), dirs, (fuel - 1) as nat),
        }
    }
}

fn min_above_exec(keys: &Vec<Vec<Vec<char>>>, last: &Option<Vec<Vec<char>>>, dirs: &Vec<bool>) -> (r:
    Option<usize>)
    ensures
        match r {
            Some(i) => i < keys.len() && min_above(
                keys_view(keys@),
                match last {
                    Some(l) => Some(views_of(l@)),
                    None => None,
                },
                dirs@,
                keys.len() as int,
            ) == Some(i as int),
            None => min_above(
                keys_view(keys@),
                match last {
                    Some(l) => Some(views_of(l@)),
                    None => None,
                },
                dirs@,
                keys.len() as int,
            ) is None,
        },
{
    let ghost kv = keys_view(keys@);
    let ghost lv = match last {
        Some(l) => Some(views_of(l@)),
        None => None,
    };
    let mut best: Option<usize> = None;
    let mut i: usize = 0;
    while i < keys.len()
        invariant
            i <= keys.len(),
            kv == keys_view(keys@),
            lv == match last {
                Some(l) => Some(views_of(l@)),
                None => None::<Seq<Seq<char>>>,
            },
            match best {
                Some(b) => b < i && min_above(kv, lv, dirs@, i as int) == Some(b as int),
                None => min_above(kv, lv, dirs@, i as int) is None,
            },
        decreases keys.len() - i,
    {
        assert(kv[i as int] == views_of(keys@[i as int]@));
        let above = match last {
            Some(l) => key_less_exec(l, &keys[i], dirs),
            None => true,
        };
        if above {
            match best {
                None => {
                    best = Some(i);
                },
                Some(j) => {
                    assert(kv[j as int] == views_of(keys@[j as int]@));
                    if key_less_exec(&keys[i], &keys[j], dirs) {
                        best = Some(i);
                    }
                },
            }
        }
        i = i + 1;
    }
    best
}

fn copy_key(k: &Vec<Vec<char>>) -> (r: Vec<Vec<char>>)
    ensures
        views_of(r@) == views_of(k@),
{
    let mut r: Vec<Vec<char>> = Vec::new();
    let mut i: usize = 0;
    while i < k.len()
        invariant
            i <= k.len(),
            r.len() == i,
            forall|j: int| 0 <= j < i ==> #[trigger] r@[j]@ == k@[j]@,
        decreases k.len() - i,
    {
        r.push(crate::text::slice_chars(&k[i], 0, k[i].len()));
        i = i + 1;
    }
    assert(views_of(r@) =~= views_of(k@));
    r
}

/// The distinct keys, ordered.
pub fn ordered_keys_of(keys: &Vec<Vec<Vec<char>>>, dirs: &Vec<bool>) -> (r: Vec<Vec<Vec<char>>>)
    ensures
        keys_view(r@) == ordered_keys(keys_view(keys@), None, dirs@, keys.len() as nat),
{
    let ghost kv = keys_view(keys@);
    let ghost target = ordered_keys(kv, None, dirs@, keys.len() as nat);
    let mut out: Vec<Vec<Vec<char>>> = Vec::new();
    let mut last: Option<Vec<Vec<char>>> = None;
    let mut t: usize = 0;
    let mut done = false;
    assert(keys_view(out@) =~= Seq::<Seq<Seq<char>>>::empty());
    while t < keys.len() && !done
        invariant
            t <= keys.len(),
            kv == keys_view(keys@),
            target == keys_view(out@) + ordered_keys(
                kv,
                match last {
                    Some(l) => Some(views_of(l@)),
                    None => None,
                },
                dirs@,
                (keys.len() - t) as nat,
            ),
            done ==> ordered_keys(
                kv,
                match last {
                    Some(l) => Some(views_of(l@)),
                    None => None,
                },
                dirs@,
                (keys.len() - t) as nat,
            ) == Seq::<Seq<Seq<char>>>::empty(),
        decreases (keys.len() - t) as int + if done { 0int } else { 1int },
    {
        match min_above_exec(keys, &last, dirs) {
            None => {
                done = true;
            },
            Some(i) => {
                assert(kv[i as int] == views_of(keys@[i as int]@));
                let k = copy_key(&keys[i]);
                let k2 = copy_key(&keys[i]);
                let ghost before = keys_view(out@);
                out.push(k);
                assert(keys_view(out@) =~= before.push(views_of(keys@[i as int]@)));
                assert(before + ordered_keys(kv, match last {
                    Some(l) => Some(views_of(l@)),
                    None => None,
                }, dirs@, (keys.len() - t) as nat) =~= keys_view(out@) + ordered_keys(
                    kv,
                    Some(kv[i as int]),
                    dirs@,
                    (keys.len() - t - 1) as nat,
                ));
                last = Some(k2);
                t = t + 1;
            },
        }
    }
    assert(keys_view(out@) + Seq::<Seq<Seq<char>>>::empty() =~= keys_view(out@));
    out
}

} // verus!

verus! {

/// How usage rows are grouped.
#[derive(Debug, Clone, Copy, PartialEq, Eq, Structural)]
pub enum UsageGrouping {
    ByCurrency,
    ByTask,
    ByDay,
}

/// The group key of a row.
pub open spec fn group_key(g: UsageGrouping, r: UsageRunRow) -> Seq<Seq<char>> {
    match g {
        UsageGrouping::ByCurrency => seq![r.currency@],
        UsageGrouping::ByTask => seq![r.task_key@, r.currency@],
        UsageGrouping::ByDay => seq![
            match r.date {
                Some(d) => d@,
                None => Seq::<char>::empty(),
            },
            r.currency@,
        ],
    }
}

/// The order of group keys: days newest first; everything else ascending.
pub open spec fn group_dirs(g: UsageGrouping) -> Seq<bool> {
    match g {
        UsageGrouping::ByCurrency => seq![true],
        UsageGrouping::ByTask => seq![true, true],
        UsageGrouping::ByDay => seq![false, true],
    }
}

/// The totals of the rows in the group `k`.
pub open spec fn group_total(rows: Seq<UsageRunRow>, g: UsageGrouping, k: Seq<Seq<char>>) -> UsageAggregate
    decreases rows.len(),
{
    if rows.len() == 0 {
        no_runs()
    } else {
        let a = group_total(rows.drop_last(), g, k);
        if group_key(g, rows.last()) == k {
            add_run(a, rows.last())
        } else {
            a
        }
    }
}

/// The group keys of the rows, distinct and in order.
pub open spec fn group_keys(rows: Seq<UsageRunRow>, g: UsageGrouping) -> Seq<Seq<Seq<char>>> {
    ordered_keys(
        Seq::new(rows.len(), |i: int| group_key(g, rows[i])),
        None,
        group_dirs(g),
        rows.len(),
    )
}

/// A currency summary as values.
pub open spec fn currency_view(s: AiUsageCurrencySummary) -> (Seq<char>, u32, u64, u64, Option<u64>) {
    (s.currency@, s.run_count, s.input_tokens, s.output_tokens, s.estimated_cost_micros)
}

/// The summary of one group: its currency and totals.
pub open spec fn group_summary(rows: Seq<UsageRunRow>, g: UsageGrouping, k: Seq<Seq<char>>) -> (Seq<char>, u32, u64, u64, Option<u64>) {
    let a = group_total(rows, g, k);
    (k.last(), sat_u32(a.run_count), a.input_tokens, a.output_tokens, a.estimated_cost_micros)
}

fn key_of(g: UsageGrouping, r: &UsageRunRow) -> (k: Vec<Vec<char>>)
    ensures
        views_of(k@) == group_key(g, *r),
{
    let mut k: Vec<Vec<char>> = Vec::new();
    match g {
        UsageGrouping::ByCurrency => {},
        UsageGrouping::ByTask => {
            k.push(chars_of(r.task_key.as_str()));
        },
        UsageGrouping::ByDay => {
            match &r.date {
                Some(d) => k.push(chars_of(d.as_str())),
                None => k.push(Vec::new()),
            }
        },
    }
    k.push(chars_of(r.currency.as_str()));
    assert(views_of(k@) =~= group_key(g, *r));
    k
}

fn total_of(rows: &Vec<UsageRunRow>, g: UsageGrouping, k: &Vec<Vec<char>>) -> (a: UsageAggregate)
    ensures
        a == group_total(rows@, g, views_of(k@)),
{
    let mut a = UsageAggregate::new();
    let mut i: usize = 0;
    assert(rows@.take(0) =~= Seq::<UsageRunRow>::empty());
    while i < rows.len()
        invariant
            i <= rows.len(),
            a == group_total(rows@.take(i as int), g, views_of(k@)),
        decreases rows.len() - i,
    {
        assert(rows@.take(i + 1).drop_last() =~= rows@.take(i as int));
        let rk = key_of(g, &rows[i]);
        if key_equal(&rk, k) {
            a.add(&rows[i]);
        }
        i = i + 1;
    }
    assert(rows@.take(rows.len() as int) =~= rows@);
    a
}

fn key_equal(a: &Vec<Vec<char>>, b: &Vec<Vec<char>>) -> (r: bool)
    ensures
        r == (views_of(a@) == views_of(b@)),
{
    if a.len() != b.len() {
        return false;
    }
    let mut i: usize = 0;
    while i < a.len()
        invariant
            i <= a.len() == b.len(),
            forall|j: int| 0 <= j < i ==> a@[j]@ == b@[j]@,
        decreases a.len() - i,
    {
        if !crate::text::eq_chars(&a[i], &b[i]) {
            assert(views_of(a@)[i as int] != views_of(b@)[i as int]);
            return false;
        }
        i = i + 1;
    }
    assert(views_of(a@) =~= views_of(b@));
    true
}

/// The group summaries in order.
pub open spec fn grouped_usage(rows: Seq<UsageRunRow>, g: UsageGrouping) -> Seq<(Seq<char>, u32, u64, u64, Option<u64>)> {
    let ks = group_keys(rows, g);
    Seq::new(ks.len(), |i: int| group_summary(rows, g, ks[i]))
}

/// The number of components of a group key.
pub open spec fn key_width(g: UsageGrouping) -> nat {
    match g {
        UsageGrouping::ByCurrency => 1,
        _ => 2,
    }
}

fn copy_summary(s: &AiUsageCurrencySummary) -> (r: AiUsageCurrencySummary)
    ensures
        currency_view(r) == currency_view(*s),
{
    AiUsageCurrencySummary {
        currency: string_of(&chars_of(s.currency.as_str())),
        run_count: s.run_count,
        input_tokens: s.input_tokens,
        output_tokens: s.output_tokens,
        estimated_cost_micros: s.estimated_cost_micros,
    }
}

/// Totals per group, ordered by key, with the keys.
pub fn group_usage(rows: &Vec<UsageRunRow>, g: UsageGrouping) -> (r: (Vec<Vec<Vec<char>>>, Vec<AiUsageCurrencySummary>))
    ensures
        keys_view(r.0@) == group_keys(rows@, g),
        r.1.len() == r.0.len(),
        forall|i: int| 0 <= i < r.1.len() ==> #[trigger] currency_view(r.1@[i]) == group_summary(rows@, g, group_keys(rows@, g)[i]),
        forall|i: int| 0 <= i < r.0.len() ==> (#[trigger] r.0@[i]).len() == key_width(g),
{
    let mut keys: Vec<Vec<Vec<char>>> = Vec::new();
    let mut i: usize = 0;
    while i < rows.len()
        invariant
            i <= rows.len(),
            keys.len() == i,
            forall|j: int| 0 <= j < i ==> views_of(#[trigger] keys@[j]@) == group_key(g, rows@[j]),
        decreases rows.len() - i,
    {
        keys.push(key_of(g, &rows[i]));
        i = i + 1;
    }
    assert(keys_view(keys@) =~= Seq::new(rows@.len(), |j: int| group_key(g, rows@[j])));
    let mut dirs: Vec<bool> = Vec::new();
    match g {
        UsageGrouping::ByCurrency => {
            dirs.push(true);
        },
        UsageGrouping::ByTask => {
            dirs.push(true);
            dirs.push(true);
        },
        UsageGrouping::ByDay => {
            dirs.push(false);
            dirs.push(true);
        },
    }
    assert(dirs@ =~= group_dirs(g));
    let ordered = ordered_keys_of(&keys, &dirs);
    let ghost ks = group_keys(rows@, g);
    assert(keys_view(ordered@) == ks);
    let mut out: Vec<AiUsageCurrencySummary> = Vec::new();
    let mut j: usize = 0;
    while j < ordered.len()
        invariant
            j <= ordered.len(),
            keys_view(ordered@) == ks,
            ks == group_keys(rows@, g),
            out.len() == j,
            forall|t: int| 0 <= t < j ==> #[trigger] currency_view(out@[t]) == group_summary(rows@, g, ks[t]),
            forall|t: int| 0 <= t < j ==> (#[trigger] ordered@[t]).len() == key_width(g),
        decreases ordered.len() - j,
    {
        assert(ks[j as int] == views_of(ordered@[j as int]@));
        proof {
            lemma_group_key_width(rows@, g, j as int);
        }
        let a = total_of(rows, g, &ordered[j]);
        let k = &ordered[j];
        let currency = string_of(&k[k.len() - 1]);
        assert(views_of(k@).last() == k@[k.len() - 1]@);
        let summary = a.into_currency(currency);
        out.push(summary);
        j = j + 1;
    }
    (ordered, out)
}

pub proof fn lemma_ordered_member(keys: Seq<Seq<Seq<char>>>, last: Option<Seq<Seq<char>>>, dirs: Seq<bool>, fuel: nat, j: int)
    requires
        0 <= j < ordered_keys(keys, last, dirs, fuel).len(),
    ensures
        exists|i: int| 0 <= i < keys.len() && keys[i] == #[trigger] ordered_keys(keys, last, dirs, fuel)[j],
    decreases fuel,
{
    match min_above(keys, last, dirs, keys.len() as int) {
        None => {},
        Some(i) => {
            lemma_min_above_range(keys, last, dirs, keys.len() as int);
            if j == 0 {
                assert(keys[i] == ordered_keys(keys, last, dirs, fuel)[0]);
            } else {
                lemma_ordered_member(keys, Some(keys[i]), dirs, (fuel - 1) as nat, j - 1);
                let rest = ordered_keys(keys, Some(keys[i]), dirs, (fuel - 1) as nat);
                assert(ordered_keys(keys, last, dirs, fuel)[j] == rest[j - 1]);
            }
        },
    }
}

proof fn lemma_min_above_range(keys: Seq<Seq<Seq<char>>>, last: Option<Seq<Seq<char>>>, dirs: Seq<bool>, n: int)
    ensures
        match min_above(keys, last, dirs, n) {
            Some(i) => 0 <= i < n,
            None => true,
        },
    decreases n,
{
    if n > 0 {
        lemma_min_above_range(keys, last, dirs, n - 1);
    }
}

proof fn lemma_group_key_width(rows: Seq<UsageRunRow>, g: UsageGrouping, j: int)
    requires
        0 <= j < group_keys(rows, g).len(),
    ensures
        group_keys(rows, g)[j].len() == key_width(g),
{
    let keys = Seq::new(rows.len(), |i: int| group_key(g, rows[i]));
    lemma_ordered_member(keys, None, group_dirs(g), rows.len(), j);
    let i = choose|i: int| 0 <= i < keys.len() && keys[i] == #[trigger] ordered_keys(keys, None, group_dirs(g), rows.len())[j];
    assert(keys[i] == group_key(g, rows[i]));
}

/// `days` clamped to one to 365.
pub open spec fn usage_days(days: u32) -> u32 {
    if days < 1 {
        1
    } else if days > 365 {
        365
    } else {
        days
    }
}

/// The usage window: the days clamped to one to 365, and the date modifier
/// that selects them (`-<days - 1> days`).
pub fn usage_window(days: u32) -> (r: (u32, String))
    ensures
        r.0 == usage_days(days),
        r.1@ == "-"@ + crate::text::decimal((usage_days(days) - 1) as nat) + " days"@,
{
    let d = if days < 1 {
        1
    } else if days > 365 {
        365
    } else {
        days
    };
    let mut m = chars_of("-");
    crate::text::push_decimal(&mut m, (d - 1) as u128);
    crate::text::extend_str(&mut m, " days");
    (d, string_of(&m))
}

/// Whether every row carries its date.
pub open spec fn all_dated(rows: Seq<UsageRunRow>) -> bool {
    forall|i: int| 0 <= i < rows.len() ==> (#[trigger] rows[i]).date is Some
}

/// The task summaries as values.
pub open spec fn task_rows(rows: Seq<UsageRunRow>) -> Seq<(Seq<char>, (Seq<char>, u32, u64, u64, Option<u64>))> {
    let ks = group_keys(rows, UsageGrouping::ByTask);
    Seq::new(ks.len(), |i: int| (ks[i][0], group_summary(rows, UsageGrouping::ByTask, ks[i])))
}

/// The daily summaries as values.
pub open spec fn day_rows(rows: Seq<UsageRunRow>) -> Seq<(Seq<char>, (Seq<char>, u32, u64, u64, Option<u64>))> {
    let ks = group_keys(rows, UsageGrouping::ByDay);
    Seq::new(ks.len(), |i: int| (ks[i][0], group_summary(rows, UsageGrouping::ByDay, ks[i])))
}

/// Sums usage over all runs and over the recent window: totals per currency
/// (by currency), per task and currency (by task, then currency), and per day
/// and currency (newest day first). Fails when a recent run has no date.
pub fn summarize_usage(days: u32, all_runs: &Vec<UsageRunRow>, recent_runs: &Vec<UsageRunRow>) -> (r: Result<AiUsageSummary, AiError>)
    ensures
        match r {
            Ok(s) => all_dated(recent_runs@) && s.days == usage_days(days)
                && s.total@.map_values(|c: AiUsageCurrencySummary| currency_view(c)) == grouped_usage(all_runs@, UsageGrouping::ByCurrency)
                && s.by_task@.map_values(|t: AiUsageTaskSummary| (t.task_key@, currency_view(t.usage))) == task_rows(all_runs@)
                && s.daily@.map_values(|d: AiUsageDailySummary| (d.date@, currency_view(d.usage))) == day_rows(recent_runs@),
            Err(e) => e == AiError::InvalidResponse && !all_dated(recent_runs@),
        },
{
    let mut i: usize = 0;
    while i < recent_runs.len()
        invariant
            i <= recent_runs.len(),
            forall|j: int| 0 <= j < i ==> (#[trigger] recent_runs@[j]).date is Some,
        decreases recent_runs.len() - i,
    {
        if recent_runs[i].date.is_none() {
            return Err(AiError::InvalidResponse);
        }
        i = i + 1;
    }
    let (d, _) = usage_window(days);
    let (_, total) = group_usage(all_runs, UsageGrouping::ByCurrency);
    assert(total@.map_values(|c: AiUsageCurrencySummary| currency_view(c)) =~= grouped_usage(all_runs@, UsageGrouping::ByCurrency));
    let (task_keys, task_sums) = group_usage(all_runs, UsageGrouping::ByTask);
    let mut by_task: Vec<AiUsageTaskSummary> = Vec::new();
    let mut k: usize = 0;
    while k < task_sums.len()
        invariant
            k <= task_sums.len() == task_keys.len(),
            keys_view(task_keys@) == group_keys(all_runs@, UsageGrouping::ByTask),
            forall|t: int| 0 <= t < task_sums.len() ==> #[trigger] currency_view(task_sums@[t]) == group_summary(all_runs@, UsageGrouping::ByTask, group_keys(all_runs@, UsageGrouping::ByTask)[t]),
            forall|t: int| 0 <= t < task_keys.len() ==> (#[trigger] task_keys@[t]).len() == 2,
            by_task.len() == k,
            forall|t: int| 0 <= t < k ==> (#[trigger] by_task@[t]).task_key@ == task_rows(all_runs@)[t].0 && currency_view(by_task@[t].usage) == task_rows(all_runs@)[t].1,
        decreases task_sums.len() - k,
    {
        assert(group_keys(all_runs@, UsageGrouping::ByTask)[k as int] == views_of(task_keys@[k as int]@));
        let item = AiUsageTaskSummary { task_key: string_of(&task_keys[k][0]), usage: copy_summary(&task_sums[k]) };
        by_task.push(item);
        k = k + 1;
    }
    assert(by_task@.map_values(|t: AiUsageTaskSummary| (t.task_key@, currency_view(t.usage))) =~= task_rows(all_runs@));
    let (day_keys, day_sums) = group_usage(recent_runs, UsageGrouping::ByDay);
    let mut daily: Vec<AiUsageDailySummary> = Vec::new();
    let mut k: usize = 0;
    while k < day_sums.len()
        invariant
            k <= day_sums.len() == day_keys.len(),
            keys_view(day_keys@) == group_keys(recent_runs@, UsageGrouping::ByDay),
            forall|t: int| 0 <= t < day_sums.len() ==> #[trigger] currency_view(day_sums@[t]) == group_summary(recent_runs@, UsageGrouping::ByDay, group_keys(recent_runs@, UsageGrouping::ByDay)[t]),
            forall|t: int| 0 <= t < day_keys.len() ==> (#[trigger] day_keys@[t]).len() == 2,
            daily.len() == k,
            forall|t: int| 0 <= t < k ==> (#[trigger] daily@[t]).date@ == day_rows(recent_runs@)[t].0 && currency_view(daily@[t].usage) == day_rows(recent_runs@)[t].1,
        decreases day_sums.len() - k,
    {
        assert(group_keys(recent_runs@, UsageGrouping::ByDay)[k as int] == views_of(day_keys@[k as int]@));
        let item = AiUsageDailySummary { date: string_of(&day_keys[k][0]), usage: copy_summary(&day_sums[k]) };
        daily.push(item);
        k = k + 1;
    }
    assert(daily@.map_values(|t: AiUsageDailySummary| (t.date@, currency_view(t.usage))) =~= day_rows(recent_runs@));
    Ok(AiUsageSummary { days: d, total, daily, by_task })
}

} // verus!
