//! Query terms and keyword relevance for context planning.
use vstd::prelude::*;
use crate::text::{
    contains, contains_chars, find_from, match_form, match_form_chars, occurs_at,
    slice_chars, str_lowercase, views_of,
};

verus! {

/// The longest query prefix that is read for terms.
pub const MAX_QUERY_CHARS: usize = 512;

/// All windows of `k` consecutive characters of `s`, left to right.
pub open spec fn windows(s: Seq<char>, k: nat) -> Seq<Seq<char>> {
    if s.len() < k {
        seq![]
    } else {
        Seq::new((s.len() - k + 1) as nat, |i: int| s.subrange(i, i + k))
    }
}

/// The normalized query: its first characters in match form.
pub open spec fn normalized_query(q: Seq<char>) -> Seq<char> {
    match_form(query_head(q))
}

/// The first characters of the query that are read.
pub open spec fn query_head(q: Seq<char>) -> Seq<char> {
    if q.len() <= MAX_QUERY_CHARS {
        q
    } else {
        q.take(MAX_QUERY_CHARS as int)
    }
}

/// The windows of two, three and four characters, in that order.
pub open spec fn all_windows(n: Seq<char>) -> Seq<Seq<char>> {
    windows(n, 2) + windows(n, 3) + windows(n, 4)
}

/// Keeps the first occurrence of each element.
pub open spec fn dedup(s: Seq<Seq<char>>) -> Seq<Seq<char>>
    decreases s.len(),
{
    if s.len() == 0 {
        seq![]
    } else {
        let d = dedup(s.drop_last());
        if d.contains(s.last()) {
            d
        } else {
            d.push(s.last())
        }
    }
}

/// The distinct query terms: every window of two to four characters of the
/// normalized query.
pub open spec fn query_terms(q: Seq<char>) -> Seq<Seq<char>> {
    dedup(all_windows(normalized_query(q)))
}

/// `n * n`, saturated at `u32::MAX`.
pub open spec fn sat_square(n: nat) -> u32 {
    if n * n > u32::MAX {
        u32::MAX
    } else {
        (n * n) as u32
    }
}

/// The content score: each term found in `text` adds the square of its length
/// (saturating).
pub open spec fn term_score(terms: Seq<Seq<char>>, text: Seq<char>) -> u32
    decreases terms.len(),
{
    if terms.len() == 0 {
        0
    } else {
        let prev = term_score(terms.drop_last(), text);
        let t = terms.last();
        if contains(text, t) {
            prev.saturating_add(sat_square(t.len()))
        } else {
            prev
        }
    }
}

/// The heading score: each term found in `text` adds twice the square of its
/// length (saturating).
pub open spec fn heading_term_score(terms: Seq<Seq<char>>, text: Seq<char>) -> u32
    decreases terms.len(),
{
    if terms.len() == 0 {
        0
    } else {
        let prev = heading_term_score(terms.drop_last(), text);
        let t = terms.last();
        if contains(text, t) {
            prev.saturating_add(sat_square(t.len()).saturating_add(sat_square(t.len())))
        } else {
            prev
        }
    }
}

/// The keyword relevance of `content` to the query.
pub open spec fn content_relevance(q: Seq<char>, content: Seq<char>) -> u32 {
    term_score(query_terms(q), match_form(content))
}

/// The keyword relevance of a heading to the query.
pub open spec fn heading_relevance(q: Seq<char>, heading: Seq<char>) -> u32 {
    heading_term_score(query_terms(q), match_form(heading))
}

fn windows_into(out: &mut Vec<Vec<char>>, n: &Vec<char>, k: usize)
    requires
        1 <= k <= 4,
    ensures
        views_of(final(out)@) == views_of(old(out)@) + windows(n@, k as nat),
{
    let ghost start = views_of(out@);
    if n.len() < k {
        assert(views_of(out@) =~= start + windows(n@, k as nat));
        return;
    }
    let count = n.len() - k + 1;
    let mut i: usize = 0;
    while i < count
        invariant
            count == n.len() - k + 1,
            k <= n.len(),
            i <= count,
            views_of(out@) == start + windows(n@, k as nat).take(i as int),
        decreases count - i,
    {
        let w = slice_chars(n, i, i + k);
        let ghost before = views_of(out@);
        out.push(w);
        assert(views_of(out@) =~= before.push(w@));
        i = i + 1;
        assert(views_of(out@) =~= start + windows(n@, k as nat).take(i as int));
    }
    assert(windows(n@, k as nat).take(count as int) =~= windows(n@, k as nat));
}

pub fn contains_term(list: &Vec<Vec<char>>, t: &Vec<char>) -> (r: bool)
    ensures
        r == views_of(list@).contains(t@),
{
    let mut i: usize = 0;
    while i < list.len()
        invariant
            i <= list.len(),
            forall|j: int| 0 <= j < i ==> views_of(list@)[j] != t@,
        decreases list.len() - i,
    {
        if crate::text::eq_chars(&list[i], t) {
            assert(views_of(list@)[i as int] == t@);
            return true;
        }
        i = i + 1;
    }
    false
}

/// The distinct terms of a query, in the order of [`query_terms`].
pub fn query_terms_of(q: &Vec<char>) -> (r: Vec<Vec<char>>)
    ensures
        views_of(r@) == query_terms(q@),
{
    let take = if q.len() < MAX_QUERY_CHARS {
        q.len()
    } else {
        MAX_QUERY_CHARS
    };
    let head = slice_chars(q, 0, take);
    assert(head@ =~= query_head(q@));
    let n = match_form_chars(&head);
    let mut all: Vec<Vec<char>> = Vec::new();
    assert(views_of(all@) =~= Seq::<Seq<char>>::empty());
    windows_into(&mut all, &n, 2);
    windows_into(&mut all, &n, 3);
    windows_into(&mut all, &n, 4);
    assert(views_of(all@) =~= all_windows(n@));
    let mut out: Vec<Vec<char>> = Vec::new();
    let mut i: usize = 0;
    assert(views_of(out@) =~= dedup(views_of(all@).take(0)));
    while i < all.len()
        invariant
            i <= all.len(),
            views_of(all@) == all_windows(n@),
            views_of(out@) == dedup(views_of(all@).take(i as int)),
        decreases all.len() - i,
    {
        let ghost prefix = views_of(all@).take(i + 1);
        assert(prefix.drop_last() =~= views_of(all@).take(i as int));
        assert(prefix.last() == all@[i as int]@);
        if !contains_term(&out, &all[i]) {
            let t = slice_chars(&all[i], 0, all[i].len());
            assert(t@ =~= all@[i as int]@);
            let ghost before = views_of(out@);
            out.push(t);
            assert(views_of(out@) =~= before.push(t@));
        }
        i = i + 1;
    }
    assert(views_of(all@).take(all.len() as int) =~= views_of(all@));
    out
}

fn square_sat(n: usize) -> (r: u32)
    ensures
        r == sat_square(n as nat),
{
    if n > 65535 {
        assert(n * n > u32::MAX) by (nonlinear_arith)
            requires
                n > 65535,
        ;
        u32::MAX
    } else {
        assert(n * n <= 65535 * 65535) by (nonlinear_arith)
            requires
                n <= 65535,
        ;
        ((n as u64) * (n as u64)) as u32
    }
}

/// The content score of normalized text against the given terms.
pub fn term_score_of(terms: &Vec<Vec<char>>, text: &Vec<char>) -> (r: u32)
    ensures
        r == term_score(views_of(terms@), text@),
{
    let mut score: u32 = 0;
    let mut i: usize = 0;
    assert(views_of(terms@).take(0) =~= Seq::<Seq<char>>::empty());
    while i < terms.len()
        invariant
            i <= terms.len(),
            score == term_score(views_of(terms@).take(i as int), text@),
        decreases terms.len() - i,
    {
        let ghost prefix = views_of(terms@).take(i + 1);
        assert(prefix.drop_last() =~= views_of(terms@).take(i as int));
        if contains_chars(text, &terms[i]) {
            score = score.saturating_add(square_sat(terms[i].len()));
        }
        i = i + 1;
    }
    assert(views_of(terms@).take(terms.len() as int) =~= views_of(terms@));
    score
}

/// The heading score of normalized text against the given terms.
pub fn heading_term_score_of(terms: &Vec<Vec<char>>, text: &Vec<char>) -> (r: u32)
    ensures
        r == heading_term_score(views_of(terms@), text@),
{
    let mut score: u32 = 0;
    let mut i: usize = 0;
    assert(views_of(terms@).take(0) =~= Seq::<Seq<char>>::empty());
    while i < terms.len()
        invariant
            i <= terms.len(),
            score == heading_term_score(views_of(terms@).take(i as int), text@),
        decreases terms.len() - i,
    {
        let ghost prefix = views_of(terms@).take(i + 1);
        assert(prefix.drop_last() =~= views_of(terms@).take(i as int));
        if contains_chars(text, &terms[i]) {
            let w = square_sat(terms[i].len());
            score = score.saturating_add(w.saturating_add(w));
        }
        i = i + 1;
    }
    assert(views_of(terms@).take(terms.len() as int) =~= views_of(terms@));
    score
}

/// The keyword relevance of content to a query.
pub fn content_relevance_of(terms: &Vec<Vec<char>>, content: &Vec<char>) -> (r: u32)
    ensures
        r == term_score(views_of(terms@), match_form(content@)),
{
    let n = match_form_chars(content);
    term_score_of(terms, &n)
}

/// The keyword relevance of a heading to a query.
pub fn heading_relevance_of(terms: &Vec<Vec<char>>, heading: &Vec<char>) -> (r: u32)
    ensures
        r == heading_term_score(views_of(terms@), match_form(heading@)),
{
    let n = match_form_chars(heading);
    heading_term_score_of(terms, &n)
}

/// The index of the first occurrence of `p` in `s`.
pub open spec fn first_occurrence(s: Seq<char>, p: Seq<char>) -> int {
    choose|i: int| occurs_at(s, p, i) && forall|j: int| 0 <= j < i ==> !occurs_at(s, p, j)
}

/// The query windows from the longest to the shortest.
pub open spec fn longest_first(q: Seq<char>) -> Seq<Seq<char>> {
    let n = normalized_query(q);
    windows(n, 4) + windows(n, 3) + windows(n, 2)
}

/// The first term, in the order given, that occurs in `text`, and where it
/// first occurs.
pub open spec fn first_term_match(terms: Seq<Seq<char>>, text: Seq<char>) -> Option<int>
    decreases terms.len(),
{
    if terms.len() == 0 {
        None
    } else if contains(text, terms[0]) {
        Some(first_occurrence(text, terms[0]))
    } else {
        first_term_match(terms.drop_first(), text)
    }
}

/// Where a query first matches the lowercased value: a longest query term that
/// occurs there, earliest in the query among those, at its first occurrence.
pub open spec fn first_match_offset(value: Seq<char>, q: Seq<char>) -> Option<int> {
    first_term_match(longest_first(q), str_lowercase(value))
}

fn first_term_match_of(terms: &Vec<Vec<char>>, text: &Vec<char>) -> (r: Option<usize>)
    ensures
        match r {
            Some(i) => first_term_match(views_of(terms@), text@) == Some(i as int),
            None => first_term_match(views_of(terms@), text@) is None,
        },
{
    let mut i: usize = 0;
    assert(views_of(terms@).skip(0) =~= views_of(terms@));
    while i < terms.len()
        invariant
            i <= terms.len(),
            first_term_match(views_of(terms@), text@) == first_term_match(
                views_of(terms@).skip(i as int),
                text@,
            ),
        decreases terms.len() - i,
    {
        let ghost rest = views_of(terms@).skip(i as int);
        assert(rest[0] == terms@[i as int]@);
        assert(rest.drop_first() =~= views_of(terms@).skip(i + 1));
        match find_from(text, &terms[i], 0) {
            Some(k) => {
                assert(contains(text@, terms@[i as int]@));
                let ghost p = terms@[i as int]@;
                let ghost c = first_occurrence(text@, p);
                assert(occurs_at(text@, p, k as int) && forall|j: int|
                    0 <= j < k ==> !occurs_at(text@, p, j));
                assert(occurs_at(text@, p, c) && forall|j: int|
                    0 <= j < c ==> !occurs_at(text@, p, j));
                assert(c == k) by {
                    if c < k {
                        assert(!occurs_at(text@, p, c));
                    } else if c > k {
                        assert(!occurs_at(text@, p, k as int));
                    }
                };
                return Some(k);
            },
            None => {
                assert(!contains(text@, terms@[i as int]@)) by {
                    if contains(text@, terms@[i as int]@) {
                        let j = choose|j: int| occurs_at(text@, terms@[i as int]@, j);
                        assert(0 <= j);
                    }
                };
            },
        }
        i = i + 1;
    }
    assert(views_of(terms@).skip(i as int) =~= Seq::<Seq<char>>::empty());
    None
}

/// `first_match_char_offset`: where the query first matches the value.
pub fn first_match_offset_of(value: &Vec<char>, q: &Vec<char>) -> (r: Option<usize>)
    ensures
        match r {
            Some(i) => first_match_offset(value@, q@) == Some(i as int),
            None => first_match_offset(value@, q@) is None,
        },
{
    let vs = crate::text::string_of(value);
    let lower = crate::text::lowercase_str(vs.as_str());
    let lower_chars = crate::text::chars_of(lower.as_str());
    let take = if q.len() < MAX_QUERY_CHARS {
        q.len()
    } else {
        MAX_QUERY_CHARS
    };
    let head = slice_chars(q, 0, take);
    assert(head@ =~= query_head(q@));
    let n = match_form_chars(&head);
    let mut ordered: Vec<Vec<char>> = Vec::new();
    assert(views_of(ordered@) =~= Seq::<Seq<char>>::empty());
    windows_into(&mut ordered, &n, 4);
    windows_into(&mut ordered, &n, 3);
    windows_into(&mut ordered, &n, 2);
    assert(views_of(ordered@) =~= longest_first(q@));
    first_term_match_of(&ordered, &lower_chars)
}

} // verus!
