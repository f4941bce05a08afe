//! Splitting project and reference text into planning blocks and chunks.
use vstd::prelude::*;
use crate::text::{
    crlf_to_lf, crlf_to_lf_chars, is_blank, join, join_chars, lines, lines_of, slice_chars,
    trim, trim_end, trim_end_chars, views_of,
};
use crate::planning::terms::contains_term;

verus! {

/// The longest reference block, in characters.
pub const MAX_REFERENCE_BLOCK_CHARS: usize = 1200;

/// The longest project chunk, in characters.
pub const MAX_PROJECT_CHUNK_CHARS: usize = 600;

/// A block of planning context: an identifier, a heading and the text.
pub struct PlanningBlock {
    pub id: Vec<char>,
    pub heading: Vec<char>,
    pub content: Vec<char>,
}

impl View for PlanningBlock {
    type V = (Seq<char>, Seq<char>, Seq<char>);

    open spec fn view(&self) -> (Seq<char>, Seq<char>, Seq<char>) {
        (self.id@, self.heading@, self.content@)
    }
}

/// The views of a sequence of blocks.
pub open spec fn blocks_view(bs: Seq<PlanningBlock>) -> Seq<(Seq<char>, Seq<char>, Seq<char>)> {
    bs.map_values(|b: PlanningBlock| b@)
}

/// A line that holds only white space.
pub open spec fn blank_line(l: Seq<char>) -> bool {
    trim(l).len() == 0
}

/// The lines kept by `compact_lines`: trailing white space removed, blank lines
/// and repeated lines dropped, first occurrences kept in order.
pub open spec fn compact_kept(ls: Seq<Seq<char>>) -> Seq<Seq<char>>
    decreases ls.len(),
{
    if ls.len() == 0 {
        seq![]
    } else {
        let d = compact_kept(ls.drop_last());
        let l = trim_end(ls.last());
        if blank_line(l) || d.contains(l) {
            d
        } else {
            d.push(l)
        }
    }
}

/// The distinct non-blank lines of a text, joined by line breaks.
pub open spec fn compact_lines(v: Seq<char>) -> Seq<char> {
    join(compact_kept(lines(v)), "\n"@)
}

/// `compact_lines`.
pub fn compact_lines_of(v: &Vec<char>) -> (r: Vec<char>)
    ensures
        r@ == compact_lines(v@),
{
    let ls = lines_of(v);
    let mut kept: Vec<Vec<char>> = Vec::new();
    let mut i: usize = 0;
    assert(views_of(ls@).take(0) =~= Seq::<Seq<char>>::empty());
    assert(views_of(kept@) =~= Seq::<Seq<char>>::empty());
    while i < ls.len()
        invariant
            i <= ls.len(),
            views_of(kept@) == compact_kept(views_of(ls@).take(i as int)),
        decreases ls.len() - i,
    {
        let ghost prefix = views_of(ls@).take(i + 1);
        assert(prefix.drop_last() =~= views_of(ls@).take(i as int));
        assert(prefix.last() == ls@[i as int]@);
        let t = trim_end_chars(&ls[i]);
        if !is_blank(&t) && !contains_term(&kept, &t) {
            let ghost before = views_of(kept@);
            kept.push(t);
            assert(views_of(kept@) =~= before.push(t@));
        }
        i = i + 1;
    }
    assert(views_of(ls@).take(ls.len() as int) =~= views_of(ls@));
    join_chars(&kept, "\n")
}

/// A text cut into pieces of `m` characters, the last one shorter; a text of
/// at most `m` characters stays whole.
pub open spec fn chunks_of(s: Seq<char>, m: nat) -> Seq<Seq<char>>
    decreases s.len(),
{
    if m == 0 || s.len() <= m {
        seq![s]
    } else {
        seq![s.take(m as int)] + chunks_of(s.skip(m as int), m)
    }
}

/// `split_long_line`: a line cut into pieces of at most `m` characters.
pub fn split_long_line(v: &Vec<char>, m: usize) -> (r: Vec<Vec<char>>)
    requires
        m > 0,
    ensures
        views_of(r@) == chunks_of(v@, m as nat),
{
    let mut out: Vec<Vec<char>> = Vec::new();
    let mut i: usize = 0;
    assert(v@.skip(0) =~= v@);
    assert(views_of(out@) =~= Seq::<Seq<char>>::empty());
    while v.len() - i > m
        invariant
            m > 0,
            i <= v.len(),
            chunks_of(v@, m as nat) == views_of(out@) + chunks_of(v@.skip(i as int), m as nat),
        decreases v.len() - i,
    {
        let ghost rest = v@.skip(i as int);
        let piece = slice_chars(v, i, i + m);
        assert(piece@ =~= rest.take(m as int));
        assert(rest.skip(m as int) =~= v@.skip(i + m));
        let ghost before = views_of(out@);
        out.push(piece);
        assert(views_of(out@) =~= before.push(piece@));
        assert(before + (seq![rest.take(m as int)] + chunks_of(rest.skip(m as int), m as nat))
            =~= before.push(piece@) + chunks_of(v@.skip(i + m), m as nat));
        i = i + m;
    }
    let last = slice_chars(v, i, v.len());
    assert(last@ =~= v@.skip(i as int));
    let ghost before = views_of(out@);
    out.push(last);
    assert(views_of(out@) =~= before.push(last@));
    assert(before + seq![last@] =~= before.push(last@));
    out
}

/// The pieces that hold more than white space.
pub open spec fn nonblank_pieces(ps: Seq<Seq<char>>) -> Seq<Seq<char>>
    decreases ps.len(),
{
    if ps.len() == 0 {
        seq![]
    } else {
        let d = nonblank_pieces(ps.drop_last());
        if blank_line(ps.last()) {
            d
        } else {
            d.push(ps.last())
        }
    }
}

/// Closes the current chunk; a blank one is dropped.
pub open spec fn flush_chunk(chunks: Seq<Seq<char>>, cur: Seq<char>) -> (Seq<Seq<char>>, Seq<char>) {
    if blank_line(cur) {
        (chunks, seq![])
    } else {
        (chunks.push(cur), seq![])
    }
}

/// One line of a project section: trimmed lines are packed into chunks of at
/// most the chunk limit; a longer line is cut into pieces of its own.
pub open spec fn section_step(st: (Seq<Seq<char>>, Seq<char>), line: Seq<char>) -> (
    Seq<Seq<char>>,
    Seq<char>,
) {
    let t = trim(line);
    let max = MAX_PROJECT_CHUNK_CHARS as int;
    if t.len() == 0 {
        st
    } else if t.len() > max {
        let f = flush_chunk(st.0, st.1);
        (f.0 + nonblank_pieces(chunks_of(t, max as nat)), f.1)
    } else {
        let sep: int = if st.1.len() > 0 {
            1
        } else {
            0
        };
        let st2 = if st.1.len() + sep + t.len() > max {
            flush_chunk(st.0, st.1)
        } else {
            st
        };
        let cur = if st2.1.len() > 0 {
            st2.1.push('\n')
        } else {
            st2.1
        };
        (st2.0, cur + t)
    }
}

pub open spec fn section_fold(ls: Seq<Seq<char>>) -> (Seq<Seq<char>>, Seq<char>)
    decreases ls.len(),
{
    if ls.len() == 0 {
        (seq![], seq![])
    } else {
        section_step(section_fold(ls.drop_last()), ls.last())
    }
}

/// The chunks of a project section.
pub open spec fn section_chunks(v: Seq<char>) -> Seq<Seq<char>> {
    let st = section_fold(lines(crlf_to_lf(v)));
    flush_chunk(st.0, st.1).0
}

fn flush_chunk_exec(chunks: &mut Vec<Vec<char>>, cur: &mut Vec<char>)
    ensures
        views_of(final(chunks)@) == flush_chunk(views_of(old(chunks)@), old(cur)@).0,
        final(cur)@ == flush_chunk(views_of(old(chunks)@), old(cur)@).1,
{
    let ghost before = views_of(chunks@);
    if is_blank(cur) {
        *cur = Vec::new();
        assert(cur@ =~= Seq::<char>::empty());
    } else {
        let c = slice_chars(cur, 0, cur.len());
        assert(c@ =~= cur@);
        chunks.push(c);
        assert(views_of(chunks@) =~= before.push(c@));
        *cur = Vec::new();
        assert(cur@ =~= Seq::<char>::empty());
    }
}

fn push_nonblank(out: &mut Vec<Vec<char>>, pieces: Vec<Vec<char>>)
    ensures
        views_of(final(out)@) == views_of(old(out)@) + nonblank_pieces(views_of(pieces@)),
{
    let ghost start = views_of(out@);
    let mut i: usize = 0;
    assert(views_of(pieces@).take(0) =~= Seq::<Seq<char>>::empty());
    assert(views_of(out@) =~= start + nonblank_pieces(Seq::<Seq<char>>::empty()));
    while i < pieces.len()
        invariant
            i <= pieces.len(),
            views_of(out@) == start + nonblank_pieces(views_of(pieces@).take(i as int)),
        decreases pieces.len() - i,
    {
        let ghost prefix = views_of(pieces@).take(i + 1);
        assert(prefix.drop_last() =~= views_of(pieces@).take(i as int));
        assert(prefix.last() == pieces@[i as int]@);
        if !is_blank(&pieces[i]) {
            let p = slice_chars(&pieces[i], 0, pieces[i].len());
            assert(p@ =~= pieces@[i as int]@);
            let ghost before = views_of(out@);
            out.push(p);
            assert(views_of(out@) =~= before.push(p@));
            assert(start + nonblank_pieces(prefix) =~= before.push(p@));
        }
        i = i + 1;
    }
    assert(views_of(pieces@).take(pieces.len() as int) =~= views_of(pieces@));
}

/// `split_project_section_chunks` on characters.
pub fn section_chunks_of(v: &Vec<char>) -> (r: Vec<Vec<char>>)
    ensures
        views_of(r@) == section_chunks(v@),
{
    let normalized = crlf_to_lf_chars(v);
    let ls = lines_of(&normalized);
    let mut chunks: Vec<Vec<char>> = Vec::new();
    let mut cur: Vec<char> = Vec::new();
    let mut i: usize = 0;
    assert(views_of(ls@).take(0) =~= Seq::<Seq<char>>::empty());
    assert(views_of(chunks@) =~= Seq::<Seq<char>>::empty());
    assert(cur@ =~= Seq::<char>::empty());
    while i < ls.len()
        invariant
            i <= ls.len(),
            views_of(ls@) == lines(crlf_to_lf(v@)),
            (views_of(chunks@), cur@) == section_fold(views_of(ls@).take(i as int)),
        decreases ls.len() - i,
    {
        let ghost prefix = views_of(ls@).take(i + 1);
        assert(prefix.drop_last() =~= views_of(ls@).take(i as int));
        assert(prefix.last() == ls@[i as int]@);
        let t = crate::text::trim_chars(&ls[i]);
        if t.len() == 0 {
        } else if t.len() > MAX_PROJECT_CHUNK_CHARS {
            flush_chunk_exec(&mut chunks, &mut cur);
            let pieces = split_long_line(&t, MAX_PROJECT_CHUNK_CHARS);
            push_nonblank(&mut chunks, pieces);
        } else {
            let sep: usize = if cur.len() > 0 {
                1
            } else {
                0
            };
            if cur.len().saturating_add(sep).saturating_add(t.len()) > MAX_PROJECT_CHUNK_CHARS {
                flush_chunk_exec(&mut chunks, &mut cur);
            }
            if cur.len() > 0 {
                cur.push('\n');
            }
            crate::text::extend_chars(&mut cur, &t);
        }
        i = i + 1;
    }
    assert(views_of(ls@).take(ls.len() as int) =~= views_of(ls@));
    flush_chunk_exec(&mut chunks, &mut cur);
    chunks
}

} // verus!

verus! {

/// The index of the first `c` in `s`.
pub open spec fn first_index_of(s: Seq<char>, c: char) -> Option<int>
    decreases s.len(),
{
    if s.len() == 0 {
        None
    } else {
        match first_index_of(s.drop_last(), c) {
            Some(i) => Some(i),
            None => if s.last() == c {
                Some(s.len() - 1)
            } else {
                None
            },
        }
    }
}

proof fn lemma_first_index_prefix(s: Seq<char>, c: char, n: int)
    requires
        0 <= n <= s.len(),
        first_index_of(s.take(n), c) is Some,
    ensures
        first_index_of(s, c) == first_index_of(s.take(n), c),
    decreases s.len() - n,
{
    if n == s.len() {
        assert(s.take(n) =~= s);
    } else {
        assert(s.drop_last().take(n) =~= s.take(n));
        lemma_first_index_prefix(s.drop_last(), c, n);
    }
}

pub fn first_index_of_exec(s: &Vec<char>, c: char) -> (r: Option<usize>)
    ensures
        match r {
            Some(i) => i < s.len() && first_index_of(s@, c) == Some(i as int),
            None => first_index_of(s@, c) is None,
        },
{
    let mut i: usize = 0;
    assert(s@.take(0) =~= Seq::<char>::empty());
    while i < s.len()
        invariant
            i <= s.len(),
            first_index_of(s@.take(i as int), c) is None,
        decreases s.len() - i,
    {
        assert(s@.take(i + 1).drop_last() =~= s@.take(i as int));
        if s[i] == c {
            proof {
                lemma_first_index_prefix(s@, c, i + 1);
            }
            return Some(i);
        }
        i = i + 1;
    }
    assert(s@.take(s.len() as int) =~= s@);
    None
}

/// A character allowed in a section identifier.
pub open spec fn section_id_char(c: char) -> bool {
    crate::text::is_ascii_alnum(c) || c == '-' || c == '_'
}

/// A section identifier: ASCII letters, digits, `-` and `_`, at least one.
pub open spec fn is_section_id(s: Seq<char>) -> bool {
    s.len() > 0 && forall|i: int| 0 <= i < s.len() ==> section_id_char(#[trigger] s[i])
}

fn is_section_id_exec(s: &Vec<char>, end: usize) -> (r: bool)
    requires
        end <= s.len(),
    ensures
        r == is_section_id(s@.take(end as int)),
{
    if end == 0 {
        return false;
    }
    let mut i: usize = 0;
    while i < end
        invariant
            i <= end <= s.len(),
            forall|j: int| 0 <= j < i ==> section_id_char(#[trigger] s@[j]),
        decreases end - i,
    {
        let c = s[i];
        if !(crate::text::is_ascii_alphanumeric(c) || c == '-' || c == '_') {
            assert(!section_id_char(s@.take(end as int)[i as int]));
            return false;
        }
        i = i + 1;
    }
    true
}

/// A project line that opens a section: `id:` followed by the first content.
pub open spec fn section_head(line: Seq<char>) -> Option<(Seq<char>, Seq<char>)> {
    match first_index_of(line, ':') {
        Some(p) => if is_section_id(line.take(p)) {
            Some((line.take(p), line.skip(p + 1)))
        } else {
            None
        },
        None => None,
    }
}

/// Closes the open section, if any.
pub open spec fn close_section(
    bs: Seq<(Seq<char>, Seq<char>)>,
    cur: Option<(Seq<char>, Seq<char>)>,
) -> Seq<(Seq<char>, Seq<char>)> {
    match cur {
        Some(b) => bs.push(b),
        None => bs,
    }
}

/// One line of project context: a section line opens a section, other lines
/// extend the open one and are dropped before the first section.
pub open spec fn project_step(
    st: (Seq<(Seq<char>, Seq<char>)>, Option<(Seq<char>, Seq<char>)>),
    line: Seq<char>,
) -> (Seq<(Seq<char>, Seq<char>)>, Option<(Seq<char>, Seq<char>)>) {
    match section_head(line) {
        Some(h) => (close_section(st.0, st.1), Some((h.0, h.1.push('\n')))),
        None => match st.1 {
            Some(b) => (st.0, Some((b.0, b.1 + line.push('\n')))),
            None => st,
        },
    }
}

pub open spec fn project_fold(ls: Seq<Seq<char>>) -> (
    Seq<(Seq<char>, Seq<char>)>,
    Option<(Seq<char>, Seq<char>)>,
)
    decreases ls.len(),
{
    if ls.len() == 0 {
        (seq![], None)
    } else {
        project_step(project_fold(ls.drop_last()), ls.last())
    }
}

/// The raw sections of a project context: identifier and text.
pub open spec fn project_sections(v: Seq<char>) -> Seq<(Seq<char>, Seq<char>)> {
    let st = project_fold(lines(crlf_to_lf(v)));
    close_section(st.0, st.1)
}

/// Adds a block unless its content is empty or its match form repeats a kept one.
pub open spec fn distinct_step(
    k: Seq<(Seq<char>, Seq<char>, Seq<char>)>,
    b: (Seq<char>, Seq<char>, Seq<char>),
) -> Seq<(Seq<char>, Seq<char>, Seq<char>)> {
    if b.2.len() == 0 || exists|j: int|
        0 <= j < k.len() && crate::text::match_form(#[trigger] k[j].2) == crate::text::match_form(
            b.2,
        ) {
        k
    } else {
        k.push(b)
    }
}

/// Blocks kept: non-empty content whose match form is new.
pub open spec fn keep_distinct(bs: Seq<(Seq<char>, Seq<char>, Seq<char>)>) -> Seq<
    (Seq<char>, Seq<char>, Seq<char>),
>
    decreases bs.len(),
{
    if bs.len() == 0 {
        seq![]
    } else {
        distinct_step(keep_distinct(bs.drop_last()), bs.last())
    }
}

/// Each raw section as a block with compacted text.
pub open spec fn compacted_sections(raw: Seq<(Seq<char>, Seq<char>)>) -> Seq<
    (Seq<char>, Seq<char>, Seq<char>),
> {
    raw.map_values(|p: (Seq<char>, Seq<char>)| (p.0, Seq::<char>::empty(), compact_lines(p.1)))
}

/// `parse_project_context`: the distinct sections of a project context; a
/// non-blank text without sections becomes one block.
pub open spec fn project_blocks(v: Seq<char>) -> Seq<(Seq<char>, Seq<char>, Seq<char>)> {
    let kept = keep_distinct(compacted_sections(project_sections(v)));
    if kept.len() == 0 && !blank_line(v) {
        seq![("project-context"@, Seq::<char>::empty(), compact_lines(v))]
    } else {
        kept
    }
}

/// Adds a block unless its content is empty or repeats a kept one.
fn push_distinct(
    out: &mut Vec<PlanningBlock>,
    seen: &mut Vec<Vec<char>>,
    b: PlanningBlock,
)
    requires
        views_of(old(seen)@) == blocks_view(old(out)@).map_values(
            |x: (Seq<char>, Seq<char>, Seq<char>)| crate::text::match_form(x.2),
        ),
    ensures
        views_of(final(seen)@) == blocks_view(final(out)@).map_values(
            |x: (Seq<char>, Seq<char>, Seq<char>)| crate::text::match_form(x.2),
        ),
        blocks_view(final(out)@) == distinct_step(blocks_view(old(out)@), b@),
{
    let ghost k = blocks_view(out@);
    let norm = crate::text::match_form_chars(&b.content);
    if b.content.len() == 0 {
        return;
    }
    if contains_term(seen, &norm) {
        assert(exists|j: int|
            0 <= j < k.len() && crate::text::match_form(#[trigger] k[j].2) == crate::text::match_form(
                b@.2,
            )) by {
            let j = choose|j: int| 0 <= j < seen@.len() && views_of(seen@)[j] == norm@;
            assert(views_of(seen@)[j] == crate::text::match_form(k[j].2));
        };
        return;
    }
    assert(!exists|j: int|
        0 <= j < k.len() && crate::text::match_form(#[trigger] k[j].2) == crate::text::match_form(
            b@.2,
        )) by {
        if exists|j: int|
            0 <= j < k.len() && crate::text::match_form(#[trigger] k[j].2)
                == crate::text::match_form(b@.2) {
            let j = choose|j: int|
                0 <= j < k.len() && crate::text::match_form(#[trigger] k[j].2)
                    == crate::text::match_form(b@.2);
            assert(views_of(seen@)[j] == norm@);
        }
    };
    let ghost sb = views_of(seen@);
    seen.push(norm);
    assert(views_of(seen@) =~= sb.push(norm@));
    out.push(b);
    assert(blocks_view(out@) =~= k.push(b@));
    assert(views_of(seen@) =~= blocks_view(out@).map_values(
        |x: (Seq<char>, Seq<char>, Seq<char>)| crate::text::match_form(x.2),
    ));
}

} // verus!

verus! {

/// The views of raw sections.
pub open spec fn pairs_view(v: Seq<(Vec<char>, Vec<char>)>) -> Seq<(Seq<char>, Seq<char>)> {
    v.map_values(|p: (Vec<char>, Vec<char>)| (p.0@, p.1@))
}

fn close_section_exec(
    raw: &mut Vec<(Vec<char>, Vec<char>)>,
    has_cur: bool,
    cur_id: Vec<char>,
    cur_content: Vec<char>,
)
    ensures
        pairs_view(final(raw)@) == close_section(
            pairs_view(old(raw)@),
            if has_cur {
                Some((cur_id@, cur_content@))
            } else {
                None
            },
        ),
{
    let ghost before = pairs_view(raw@);
    if has_cur {
        let ghost p = (cur_id@, cur_content@);
        raw.push((cur_id, cur_content));
        assert(pairs_view(raw@) =~= before.push(p));
    }
}

fn project_sections_of(v: &Vec<char>) -> (r: Vec<(Vec<char>, Vec<char>)>)
    ensures
        pairs_view(r@) == project_sections(v@),
{
    let normalized = crlf_to_lf_chars(v);
    let ls = lines_of(&normalized);
    let mut raw: Vec<(Vec<char>, Vec<char>)> = Vec::new();
    let mut has_cur = false;
    let mut cur_id: Vec<char> = Vec::new();
    let mut cur_content: Vec<char> = Vec::new();
    let mut i: usize = 0;
    assert(views_of(ls@).take(0) =~= Seq::<Seq<char>>::empty());
    assert(pairs_view(raw@) =~= Seq::<(Seq<char>, Seq<char>)>::empty());
    while i < ls.len()
        invariant
            i <= ls.len(),
            views_of(ls@) == lines(crlf_to_lf(v@)),
            (
                pairs_view(raw@),
                if has_cur {
                    Some((cur_id@, cur_content@))
                } else {
                    None
                },
            ) == project_fold(views_of(ls@).take(i as int)),
        decreases ls.len() - i,
    {
        let ghost prefix = views_of(ls@).take(i + 1);
        assert(prefix.drop_last() =~= views_of(ls@).take(i as int));
        assert(prefix.last() == ls@[i as int]@);
        let line = &ls[i];
        let mut head: Option<usize> = None;
        match first_index_of_exec(line, ':') {
            Some(p) => {
                if is_section_id_exec(line, p) {
                    head = Some(p);
                }
            },
            None => {},
        }
        match head {
            Some(p) => {
                let id = slice_chars(line, 0, p);
                let mut content = slice_chars(line, p + 1, line.len());
                assert(id@ =~= line@.take(p as int));
                assert(content@ =~= line@.skip(p + 1));
                content.push('\n');
                let old_id = cur_id;
                let old_content = cur_content;
                close_section_exec(&mut raw, has_cur, old_id, old_content);
                cur_id = id;
                cur_content = content;
                has_cur = true;
            },
            None => {
                if has_cur {
                    let ghost before = cur_content@;
                    crate::text::extend_chars(&mut cur_content, line);
                    cur_content.push('\n');
                    assert(cur_content@ =~= before + line@.push('\n'));
                }
            },
        }
        i = i + 1;
    }
    assert(views_of(ls@).take(ls.len() as int) =~= views_of(ls@));
    close_section_exec(&mut raw, has_cur, cur_id, cur_content);
    raw
}

/// `parse_project_context`: the distinct sections of a project context, each
/// with compacted text; a non-blank text without sections becomes one block.
pub fn parse_project_context(v: &Vec<char>) -> (r: Vec<PlanningBlock>)
    ensures
        blocks_view(r@) == project_blocks(v@),
{
    let raw = project_sections_of(v);
    let mut out: Vec<PlanningBlock> = Vec::new();
    let mut seen: Vec<Vec<char>> = Vec::new();
    let ghost cs = compacted_sections(pairs_view(raw@));
    let mut j: usize = 0;
    assert(cs.take(0) =~= Seq::<(Seq<char>, Seq<char>, Seq<char>)>::empty());
    assert(blocks_view(out@) =~= Seq::<(Seq<char>, Seq<char>, Seq<char>)>::empty());
    assert(views_of(seen@) =~= blocks_view(out@).map_values(
        |x: (Seq<char>, Seq<char>, Seq<char>)| crate::text::match_form(x.2),
    ));
    while j < raw.len()
        invariant
            j <= raw.len(),
            cs == compacted_sections(pairs_view(raw@)),
            blocks_view(out@) == keep_distinct(cs.take(j as int)),
            views_of(seen@) == blocks_view(out@).map_values(
                |x: (Seq<char>, Seq<char>, Seq<char>)| crate::text::match_form(x.2),
            ),
        decreases raw.len() - j,
    {
        assert(cs.take(j + 1).drop_last() =~= cs.take(j as int));
        let id = slice_chars(&raw[j].0, 0, raw[j].0.len());
        assert(id@ =~= raw@[j as int].0@);
        let content = compact_lines_of(&raw[j].1);
        let b = PlanningBlock { id, heading: Vec::new(), content };
        assert(b@ =~= cs.take(j + 1).last());
        push_distinct(&mut out, &mut seen, b);
        j = j + 1;
    }
    assert(cs.take(raw.len() as int) =~= cs);
    if out.len() == 0 && !is_blank(v) {
        let id = crate::text::chars_of("project-context");
        let content = compact_lines_of(v);
        let mut single: Vec<PlanningBlock> = Vec::new();
        single.push(PlanningBlock { id, heading: Vec::new(), content });
        assert(blocks_view(single@) =~= project_blocks(v@));
        return single;
    }
    out
}

/// The heading of a reference block: its first line, trimmed, if short.
pub open spec fn heading_of(content: Seq<char>) -> Seq<char> {
    let ls = lines(content);
    if ls.len() == 0 {
        seq![]
    } else if trim(ls[0]).len() <= 80 {
        trim(ls[0])
    } else {
        seq![]
    }
}

/// Closes the current reference block; an empty one leaves the state alone.
pub open spec fn ref_flush(st: (Seq<(Seq<char>, Seq<char>, Seq<char>)>, Seq<char>)) -> (
    Seq<(Seq<char>, Seq<char>, Seq<char>)>,
    Seq<char>,
) {
    let content = compact_lines(st.1);
    if content.len() == 0 {
        st
    } else {
        (
            st.0.push(
                ("reference-"@ + crate::text::decimal((st.0.len() + 1) as nat), heading_of(content), content),
            ),
            seq![],
        )
    }
}

/// A line that starts a new reference block.
pub open spec fn is_reference_heading(line: Seq<char>) -> bool {
    let t = trim(line);
    (t.len() > 0 && t[0] == '#') || crate::text::starts_with(t, "===== 文件："@) || (t.len() > 0
        && t.last() == ':' && t.len() <= 48)
}

/// Appends pieces of a line to the current block, closing it when full.
pub open spec fn ref_pieces(
    st: (Seq<(Seq<char>, Seq<char>, Seq<char>)>, Seq<char>),
    ps: Seq<Seq<char>>,
) -> (Seq<(Seq<char>, Seq<char>, Seq<char>)>, Seq<char>)
    decreases ps.len(),
{
    if ps.len() == 0 {
        st
    } else {
        let s = ref_pieces(st, ps.drop_last());
        let c = (s.0, s.1 + ps.last().push('\n'));
        if c.1.len() >= MAX_REFERENCE_BLOCK_CHARS {
            ref_flush(c)
        } else {
            c
        }
    }
}

/// One line of reference text.
pub open spec fn ref_step(st: (Seq<(Seq<char>, Seq<char>, Seq<char>)>, Seq<char>), line: Seq<char>) -> (
    Seq<(Seq<char>, Seq<char>, Seq<char>)>,
    Seq<char>,
) {
    if blank_line(line) {
        ref_flush(st)
    } else {
        let st1 = if is_reference_heading(line) && !blank_line(st.1) {
            ref_flush(st)
        } else {
            st
        };
        ref_pieces(st1, chunks_of(line, MAX_REFERENCE_BLOCK_CHARS as nat))
    }
}

pub open spec fn ref_fold(ls: Seq<Seq<char>>) -> (
    Seq<(Seq<char>, Seq<char>, Seq<char>)>,
    Seq<char>,
)
    decreases ls.len(),
{
    if ls.len() == 0 {
        (seq![], seq![])
    } else {
        ref_step(ref_fold(ls.drop_last()), ls.last())
    }
}

/// `parse_reference_context`: reference text cut at blank lines, headings and
/// the block limit, the distinct blocks kept.
pub open spec fn reference_blocks(v: Seq<char>) -> Seq<(Seq<char>, Seq<char>, Seq<char>)> {
    keep_distinct(ref_flush(ref_fold(lines(crlf_to_lf(v)))).0)
}

/// A copy of a block.
pub fn copy_block(b: &PlanningBlock) -> (r: PlanningBlock)
    ensures
        r@ == b@,
{
    PlanningBlock {
        id: slice_chars(&b.id, 0, b.id.len()),
        heading: slice_chars(&b.heading, 0, b.heading.len()),
        content: slice_chars(&b.content, 0, b.content.len()),
    }
}

fn ref_flush_exec(blocks: &mut Vec<PlanningBlock>, cur: &mut Vec<char>)
    ensures
        (blocks_view(final(blocks)@), final(cur)@) == ref_flush(
            (blocks_view(old(blocks)@), old(cur)@),
        ),
{
    let content = compact_lines_of(cur);
    if content.len() == 0 {
        return;
    }
    let ls = lines_of(&content);
    let mut heading: Vec<char> = Vec::new();
    if ls.len() > 0 {
        let t = crate::text::trim_chars(&ls[0]);
        if t.len() <= 80 {
            heading = t;
        }
    }
    assert(heading@ =~= heading_of(content@));
    let mut id = crate::text::chars_of("reference-");
    crate::text::push_decimal(&mut id, (blocks.len() as u128) + 1);
    let ghost before = blocks_view(blocks@);
    blocks.push(PlanningBlock { id, heading, content });
    assert(blocks_view(blocks@) =~= before.push(blocks@.last()@));
    *cur = Vec::new();
    assert(cur@ =~= Seq::<char>::empty());
}

fn is_reference_heading_exec(line: &Vec<char>) -> (r: bool)
    ensures
        r == is_reference_heading(line@),
{
    let t = crate::text::trim_chars(line);
    (t.len() > 0 && t[0] == '#') || crate::text::starts_with_str(&t, "===== 文件：") || (t.len()
        > 0 && t[t.len() - 1] == ':' && t.len() <= 48)
}

fn ref_pieces_exec(blocks: &mut Vec<PlanningBlock>, cur: &mut Vec<char>, ps: &Vec<Vec<char>>)
    ensures
        (blocks_view(final(blocks)@), final(cur)@) == ref_pieces(
            (blocks_view(old(blocks)@), old(cur)@),
            views_of(ps@),
        ),
{
    let ghost st0 = (blocks_view(blocks@), cur@);
    let mut k: usize = 0;
    assert(views_of(ps@).take(0) =~= Seq::<Seq<char>>::empty());
    while k < ps.len()
        invariant
            k <= ps.len(),
            (blocks_view(blocks@), cur@) == ref_pieces(st0, views_of(ps@).take(k as int)),
        decreases ps.len() - k,
    {
        let ghost prefix = views_of(ps@).take(k + 1);
        assert(prefix.drop_last() =~= views_of(ps@).take(k as int));
        assert(prefix.last() == ps@[k as int]@);
        crate::text::extend_chars(cur, &ps[k]);
        cur.push('\n');
        if cur.len() >= MAX_REFERENCE_BLOCK_CHARS {
            ref_flush_exec(blocks, cur);
        }
        k = k + 1;
    }
    assert(views_of(ps@).take(ps.len() as int) =~= views_of(ps@));
}

/// `parse_reference_context`: the distinct blocks of a reference text.
pub fn parse_reference_context(v: &Vec<char>) -> (r: Vec<PlanningBlock>)
    ensures
        blocks_view(r@) == reference_blocks(v@),
{
    let normalized = crlf_to_lf_chars(v);
    let ls = lines_of(&normalized);
    let mut blocks: Vec<PlanningBlock> = Vec::new();
    let mut cur: Vec<char> = Vec::new();
    let mut i: usize = 0;
    assert(views_of(ls@).take(0) =~= Seq::<Seq<char>>::empty());
    assert(blocks_view(blocks@) =~= Seq::<(Seq<char>, Seq<char>, Seq<char>)>::empty());
    assert(cur@ =~= Seq::<char>::empty());
    while i < ls.len()
        invariant
            i <= ls.len(),
            views_of(ls@) == lines(crlf_to_lf(v@)),
            (blocks_view(blocks@), cur@) == ref_fold(views_of(ls@).take(i as int)),
        decreases ls.len() - i,
    {
        let ghost prefix = views_of(ls@).take(i + 1);
        assert(prefix.drop_last() =~= views_of(ls@).take(i as int));
        assert(prefix.last() == ls@[i as int]@);
        if is_blank(&ls[i]) {
            ref_flush_exec(&mut blocks, &mut cur);
        } else {
            if is_reference_heading_exec(&ls[i]) && !is_blank(&cur) {
                ref_flush_exec(&mut blocks, &mut cur);
            }
            let pieces = split_long_line(&ls[i], MAX_REFERENCE_BLOCK_CHARS);
            ref_pieces_exec(&mut blocks, &mut cur, &pieces);
        }
        i = i + 1;
    }
    assert(views_of(ls@).take(ls.len() as int) =~= views_of(ls@));
    ref_flush_exec(&mut blocks, &mut cur);
    let ghost flushed = blocks_view(blocks@);
    let mut out: Vec<PlanningBlock> = Vec::new();
    let mut seen: Vec<Vec<char>> = Vec::new();
    assert(flushed.take(0) =~= Seq::<(Seq<char>, Seq<char>, Seq<char>)>::empty());
    assert(blocks_view(out@) =~= Seq::<(Seq<char>, Seq<char>, Seq<char>)>::empty());
    assert(views_of(seen@) =~= blocks_view(out@).map_values(
        |x: (Seq<char>, Seq<char>, Seq<char>)| crate::text::match_form(x.2),
    ));
    let n = blocks.len();
    let mut j: usize = 0;
    while j < n
        invariant
            j <= n == flushed.len(),
            blocks_view(blocks@) == flushed,
            blocks_view(out@) == keep_distinct(flushed.take(j as int)),
            views_of(seen@) == blocks_view(out@).map_values(
                |x: (Seq<char>, Seq<char>, Seq<char>)| crate::text::match_form(x.2),
            ),
        decreases n - j,
    {
        assert(flushed.take(j + 1).drop_last() =~= flushed.take(j as int));
        let b = copy_block(&blocks[j]);
        assert(b@ == flushed[j as int]);
        push_distinct(&mut out, &mut seen, b);
        j = j + 1;
    }
    assert(flushed.take(n as int) =~= flushed);
    out
}

} // verus!

verus! {

/// Every piece of `chunks_of(s, m)` holds at most `m` characters.
proof fn lemma_chunks_fit(s: Seq<char>, m: nat)
    requires
        m > 0,
    ensures
        forall|i: int| 0 <= i < chunks_of(s, m).len() ==> #[trigger] chunks_of(s, m)[i].len() <= m,
    decreases s.len(),
{
    if s.len() > m {
        lemma_chunks_fit(s.skip(m as int), m);
        let rest = chunks_of(s.skip(m as int), m);
        assert forall|i: int| 0 <= i < chunks_of(s, m).len() implies #[trigger] chunks_of(
            s,
            m,
        )[i].len() <= m by {
            if i > 0 {
                assert(chunks_of(s, m)[i] == rest[i - 1]);
            }
        }
    }
}

/// `nonblank_pieces` keeps only pieces of `ps`, and only those that are not blank.
proof fn lemma_nonblank_pieces(ps: Seq<Seq<char>>, m: nat)
    requires
        forall|i: int| 0 <= i < ps.len() ==> #[trigger] ps[i].len() <= m,
    ensures
        forall|i: int|
            0 <= i < nonblank_pieces(ps).len() ==> #[trigger] nonblank_pieces(ps)[i].len() <= m
                && !blank_line(nonblank_pieces(ps)[i]),
    decreases ps.len(),
{
    if ps.len() > 0 {
        let d = ps.drop_last();
        assert forall|i: int| 0 <= i < d.len() implies #[trigger] d[i].len() <= m by {
            assert(d[i] == ps[i]);
        }
        lemma_nonblank_pieces(d, m);
        let nd = nonblank_pieces(d);
        assert(ps.last() == ps[ps.len() - 1]);
        if !blank_line(ps.last()) {
            assert forall|i: int| 0 <= i < nd.push(ps.last()).len() implies #[trigger] nd.push(
                ps.last(),
            )[i].len() <= m && !blank_line(nd.push(ps.last())[i]) by {
                if i < nd.len() {
                    assert(nd.push(ps.last())[i] == nd[i]);
                }
            }
        }
    }
}

/// What a chunk list of a project section holds at every step: closed chunks
/// within the limit and not blank, an open chunk within the limit.
pub open spec fn chunks_within_limit(st: (Seq<Seq<char>>, Seq<char>)) -> bool {
    &&& forall|i: int|
        0 <= i < st.0.len() ==> #[trigger] st.0[i].len() <= MAX_PROJECT_CHUNK_CHARS
            && !blank_line(st.0[i])
    &&& st.1.len() <= MAX_PROJECT_CHUNK_CHARS
}

proof fn lemma_flush_keeps_limit(st: (Seq<Seq<char>>, Seq<char>))
    requires
        chunks_within_limit(st),
    ensures
        chunks_within_limit(flush_chunk(st.0, st.1)),
{
    let f = flush_chunk(st.0, st.1);
    if !blank_line(st.1) {
        assert forall|i: int| 0 <= i < f.0.len() implies #[trigger] f.0[i].len()
            <= MAX_PROJECT_CHUNK_CHARS && !blank_line(f.0[i]) by {
            if i < st.0.len() {
                assert(f.0[i] == st.0[i]);
            }
        }
    }
}

proof fn lemma_section_step_keeps_limit(st: (Seq<Seq<char>>, Seq<char>), line: Seq<char>)
    requires
        chunks_within_limit(st),
    ensures
        chunks_within_limit(section_step(st, line)),
{
    let t = trim(line);
    let max = MAX_PROJECT_CHUNK_CHARS as int;
    if t.len() == 0 {
    } else if t.len() > max {
        lemma_flush_keeps_limit(st);
        let f = flush_chunk(st.0, st.1);
        lemma_chunks_fit(t, max as nat);
        let ps = nonblank_pieces(chunks_of(t, max as nat));
        lemma_nonblank_pieces(chunks_of(t, max as nat), max as nat);
        let all = f.0 + ps;
        assert forall|i: int| 0 <= i < all.len() implies #[trigger] all[i].len() <= max
            && !blank_line(all[i]) by {
            if i < f.0.len() {
                assert(all[i] == f.0[i]);
            } else {
                assert(all[i] == ps[i - f.0.len()]);
            }
        }
    } else {
        let sep: int = if st.1.len() > 0 {
            1
        } else {
            0
        };
        if st.1.len() + sep + t.len() > max {
            lemma_flush_keeps_limit(st);
        }
    }
}

proof fn lemma_section_fold_keeps_limit(ls: Seq<Seq<char>>)
    ensures
        chunks_within_limit(section_fold(ls)),
    decreases ls.len(),
{
    if ls.len() > 0 {
        lemma_section_fold_keeps_limit(ls.drop_last());
        lemma_section_step_keeps_limit(section_fold(ls.drop_last()), ls.last());
    }
}

/// A project section is cut into chunks of at most the chunk limit, none of
/// them blank.
pub proof fn project_chunks_fit_the_limit(v: Seq<char>)
    ensures
        forall|i: int|
            0 <= i < section_chunks(v).len() ==> #[trigger] section_chunks(v)[i].len()
                <= MAX_PROJECT_CHUNK_CHARS && !blank_line(section_chunks(v)[i]),
{
    let st = section_fold(lines(crlf_to_lf(v)));
    lemma_section_fold_keeps_limit(lines(crlf_to_lf(v)));
    lemma_flush_keeps_limit(st);
}

} // verus!
