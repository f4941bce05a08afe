//! Keyword relevance of stored knowledge against a writing request.
use vstd::prelude::*;
use crate::text::{contains, contains_chars, match_form, match_form_chars};

verus! {

/// How many characters of `value` (counted with repeats) occur in `query`.
pub open spec fn overlap(query: Seq<char>, value: Seq<char>) -> nat
    decreases value.len(),
{
    if value.len() == 0 {
        0
    } else {
        overlap(query, value.drop_last()) + if query.contains(value.last()) {
            1nat
        } else {
            0nat
        }
    }
}

/// The score of one value against a normalized query: a normalized value of
/// two or more characters found whole in the query scores `5000` plus `200`
/// per character (at most `4000`); otherwise `200` per character that occurs
/// in the query (at most `3000`). Shorter values score nothing.
pub open spec fn value_score(query: Seq<char>, value: Seq<char>) -> int {
    let n = match_form(value);
    if n.len() > 1 && contains(query, n) {
        (if n.len() * 200 > 4000 {
            4000
        } else {
            n.len() * 200
        }) as int + 5000
    } else if n.len() > 1 {
        if overlap(query, n) * 200 > 3000 {
            3000
        } else {
            (overlap(query, n) * 200) as int
        }
    } else {
        0
    }
}

/// The best score among the values (zero for none).
pub open spec fn best_score(query: Seq<char>, values: Seq<Seq<char>>) -> int
    decreases values.len(),
{
    if values.len() == 0 {
        0
    } else {
        let rest = best_score(query, values.drop_last());
        let last = value_score(query, values.last());
        if last > rest {
            last
        } else {
            rest
        }
    }
}

/// The relevance of a group of values: nothing for an empty query, else the
/// best value's score.
pub open spec fn relevance_of(query: Seq<char>, values: Seq<Seq<char>>) -> int {
    if query.len() == 0 {
        0
    } else {
        best_score(query, values)
    }
}

pub proof fn lemma_best_score_bounds(query: Seq<char>, values: Seq<Seq<char>>)
    ensures
        0 <= best_score(query, values) <= 9000,
    decreases values.len(),
{
    if values.len() > 0 {
        lemma_best_score_bounds(query, values.drop_last());
    }
}

fn has_char(s: &Vec<char>, c: char) -> (r: bool)
    ensures
        r == s@.contains(c),
{
    let mut i: usize = 0;
    while i < s.len()
        invariant
            i <= s.len(),
            forall|j: int| 0 <= j < i ==> s@[j] != c,
        decreases s.len() - i,
    {
        if s[i] == c {
            assert(s@[i as int] == c);
            return true;
        }
        i = i + 1;
    }
    false
}

fn overlap_of(query: &Vec<char>, value: &Vec<char>) -> (r: usize)
    ensures
        r == overlap(query@, value@),
{
    let mut n: usize = 0;
    let mut i: usize = 0;
    while i < value.len()
        invariant
            i <= value.len(),
            n == overlap(query@, value@.take(i as int)),
            n <= i,
        decreases value.len() - i,
    {
        assert(value@.take(i + 1).drop_last() =~= value@.take(i as int));
        if has_char(query, value[i]) {
            n = n + 1;
        }
        i = i + 1;
    }
    assert(value@.take(value.len() as int) =~= value@);
    n
}

fn value_score_of(query: &Vec<char>, value: &Vec<char>) -> (r: u16)
    ensures
        r == value_score(query@, value@),
{
    let n = match_form_chars(value);
    let len = n.len();
    if len > 1 && contains_chars(query, &n) {
        let part: u16 = if len > 20 {
            4000
        } else {
            (len * 200) as u16
        };
        part + 5000
    } else if len > 1 {
        let o = overlap_of(query, &n);
        if o > 15 {
            3000
        } else {
            (o * 200) as u16
        }
    } else {
        0
    }
}

/// The relevance of a group of values against a normalized query.
pub fn score_values(query: &Vec<char>, values: &Vec<Vec<char>>) -> (r: u16)
    ensures
        r == relevance_of(query@, values@.map_values(|v: Vec<char>| v@)),
{
    let ghost views = values@.map_values(|v: Vec<char>| v@);
    if query.len() == 0 {
        return 0;
    }
    let mut best: u16 = 0;
    let mut i: usize = 0;
    while i < values.len()
        invariant
            i <= values.len(),
            views == values@.map_values(|v: Vec<char>| v@),
            best == best_score(query@, views.take(i as int)),
        decreases values.len() - i,
    {
        assert(views.take(i + 1).drop_last() =~= views.take(i as int));
        assert(views.take(i + 1).last() == values@[i as int]@);
        let s = value_score_of(query, &values[i]);
        if s > best {
            best = s;
        }
        i = i + 1;
    }
    assert(views.take(values.len() as int) =~= views);
    best
}

} // verus!
