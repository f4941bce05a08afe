//! Rendering selected blocks within a character budget.
use vstd::prelude::*;
use crate::text::{chars_of, decimal, extend_chars, extend_str, join, join_chars, push_decimal, slice_chars, views_of};
use crate::planning::terms::{first_match_offset, first_match_offset_of};
use crate::planning::blocks::{PlanningBlock, blocks_view};

verus! {

/// The longest rendered project section, in characters.
pub const MAX_PROJECT_SECTION_CHARS: usize = 1200;

/// `a - b`, or zero.
pub open spec fn sat_sub(a: int, b: int) -> int {
    if a > b {
        a - b
    } else {
        0
    }
}

/// The smaller of two integers.
pub open spec fn min_int(a: int, b: int) -> int {
    if a < b {
        a
    } else {
        b
    }
}

/// The marker put where text was cut.
pub open spec fn truncation_marker() -> Seq<char> {
    "\n[片段已按预算截断]"@
}

/// `2 * n`, saturated at `usize::MAX`.
pub open spec fn sat_double(n: int) -> int {
    if 2 * n > usize::MAX {
        usize::MAX as int
    } else {
        2 * n
    }
}

/// `truncate_block`: a text that fits is kept; otherwise a window around the
/// first query match, or the head and tail around the truncation marker.
pub open spec fn truncate_block(value: Seq<char>, q: Seq<char>, max: int) -> Seq<char> {
    let len = value.len() as int;
    if len <= max {
        value
    } else {
        match first_match_offset(value, q) {
            Some(m) => {
                let window = sat_sub(max, 6);
                let start = min_int(sat_sub(m, window / 3), sat_sub(len, window));
                let end = min_int(start + window, len);
                (if start > 0 {
                    "..."@
                } else {
                    seq![]
                }) + value.subrange(start, end) + (if start + window < len {
                    "..."@
                } else {
                    seq![]
                })
            },
            None => {
                let marker = truncation_marker();
                if max <= marker.len() {
                    marker.take(max)
                } else {
                    let kept = max - marker.len();
                    let head = sat_double(kept) / 3;
                    let tail = kept - head;
                    value.take(head) + marker + value.skip(len - tail)
                }
            },
        }
    }
}

/// Shortens a text to at most about `max` characters, keeping the part that
/// matches the query.
pub fn truncate_block_of(value: &Vec<char>, q: &Vec<char>, max: usize) -> (r: Vec<char>)
    ensures
        r@ == truncate_block(value@, q@, max as int),
{
    let len = value.len();
    if len <= max {
        return slice_chars(value, 0, len);
    }
    match first_match_offset_of(value, q) {
        Some(m) => {
            let window = if max > 6 {
                max - 6
            } else {
                0
            };
            let a = if m > window / 3 {
                m - window / 3
            } else {
                0
            };
            let b = if len > window {
                len - window
            } else {
                0
            };
            let start = if a < b {
                a
            } else {
                b
            };
            let end = if start + window < len {
                start + window
            } else {
                len
            };
            let mut out: Vec<char> = Vec::new();
            if start > 0 {
                extend_str(&mut out, "...");
            }
            let excerpt = slice_chars(value, start, end);
            extend_chars(&mut out, &excerpt);
            if start + window < len {
                extend_str(&mut out, "...");
            }
            assert(out@ =~= truncate_block(value@, q@, max as int));
            out
        },
        None => {
            let marker = chars_of("\n[片段已按预算截断]");
            if max <= marker.len() {
                let r = slice_chars(&marker, 0, max);
                assert(r@ =~= truncate_block(value@, q@, max as int));
                return r;
            }
            let kept = max - marker.len();
            let doubled = if kept > usize::MAX / 2 {
                usize::MAX
            } else {
                kept * 2
            };
            let head = doubled / 3;
            let tail = kept - head;
            let mut out = slice_chars(value, 0, head);
            extend_chars(&mut out, &marker);
            let t = slice_chars(value, len - tail, len);
            extend_chars(&mut out, &t);
            assert(out@ =~= truncate_block(value@, q@, max as int));
            out
        },
    }
}

/// `a / b` for a positive divisor, the rest of the budget shared out.
pub open spec fn share(remaining: int, parts: int) -> int {
    remaining / parts
}

/// The rendered project sections from position `p` on, with `remaining`
/// characters left: each gets an equal share of what is left, capped at the
/// section limit; rendering stops when a share cannot hold the prefix.
pub open spec fn render_project_from(
    blocks: Seq<(Seq<char>, Seq<char>, Seq<char>)>,
    idx: Seq<int>,
    q: Seq<char>,
    remaining: int,
    p: int,
) -> Seq<Seq<char>>
    decreases idx.len() - p,
{
    if p < 0 || p >= idx.len() || remaining <= 0 {
        seq![]
    } else {
        let allowance = share(remaining, idx.len() - p);
        let block = blocks[idx[p]];
        let prefix = block.0 + ": "@;
        if allowance <= prefix.len() {
            seq![]
        } else {
            let limit = min_int(MAX_PROJECT_SECTION_CHARS as int, allowance);
            let text = prefix + truncate_block(block.2, q, sat_sub(limit, prefix.len() as int));
            seq![text] + render_project_from(
                blocks,
                idx,
                q,
                sat_sub(remaining, text.len() + 2int),
                p + 1,
            )
        }
    }
}

/// A count saturated at `u16::MAX`.
pub open spec fn sat_u16(n: int) -> u16 {
    if n > u16::MAX {
        u16::MAX
    } else {
        n as u16
    }
}

/// The indices as integers.
pub open spec fn ints(v: Seq<usize>) -> Seq<int> {
    v.map_values(|i: usize| i as int)
}

/// `render_project_blocks`: the selected sections, joined by blank lines, and
/// how many were rendered.
pub fn render_project_blocks(
    blocks: &Vec<PlanningBlock>,
    idx: &Vec<usize>,
    q: &Vec<char>,
    max: usize,
) -> (r: (Vec<char>, u16))
    requires
        forall|k: int| 0 <= k < idx.len() ==> #[trigger] idx@[k] < blocks.len(),
    ensures
        r.0@ == join(
            render_project_from(blocks_view(blocks@), ints(idx@), q@, max as int, 0),
            "\n\n"@,
        ),
        r.1 == sat_u16(
            render_project_from(blocks_view(blocks@), ints(idx@), q@, max as int, 0).len() as int,
        ),
{
    let ghost bv = blocks_view(blocks@);
    let ghost iv = ints(idx@);
    let ghost all = render_project_from(bv, iv, q@, max as int, 0);
    let mut rendered: Vec<Vec<char>> = Vec::new();
    let mut remaining = max;
    let mut included: u16 = 0;
    let mut p: usize = 0;
    assert(views_of(rendered@) + all =~= all);
    while p < idx.len()
        invariant
            p <= idx.len(),
            bv == blocks_view(blocks@),
            iv == ints(idx@),
            forall|k: int| 0 <= k < idx.len() ==> #[trigger] idx@[k] < blocks.len(),
            all == views_of(rendered@) + render_project_from(bv, iv, q@, remaining as int, p as int),
            included == sat_u16(rendered.len() as int),
        ensures
            all == views_of(rendered@),
            included == sat_u16(rendered.len() as int),
        decreases idx.len() - p,
    {
        if remaining == 0 {
            assert(views_of(rendered@) + Seq::<Seq<char>>::empty() =~= views_of(rendered@));
            break;
        }
        let block = &blocks[idx[p]];
        let parts = idx.len() - p;
        let allowance = remaining / parts;
        let mut text = slice_chars(&block.id, 0, block.id.len());
        extend_str(&mut text, ": ");
        let prefix_len = text.len();
        assert(text@ == bv[iv[p as int]].0 + ": "@);
        if allowance <= prefix_len {
            assert(views_of(rendered@) + Seq::<Seq<char>>::empty() =~= views_of(rendered@));
            break;
        }
        let limit = if MAX_PROJECT_SECTION_CHARS < allowance {
            MAX_PROJECT_SECTION_CHARS
        } else {
            allowance
        };
        let budget = if limit > prefix_len {
            limit - prefix_len
        } else {
            0
        };
        let content = truncate_block_of(&block.content, q, budget);
        extend_chars(&mut text, &content);
        let used = if text.len() < usize::MAX - 2 {
            text.len() + 2
        } else {
            usize::MAX
        };
        let next = if remaining > used {
            remaining - used
        } else {
            0
        };
        assert(next as int == sat_sub(remaining as int, text@.len() + 2int));
        let ghost before = views_of(rendered@);
        rendered.push(text);
        assert(views_of(rendered@) =~= before.push(rendered@.last()@));
        assert(before + render_project_from(bv, iv, q@, remaining as int, p as int) =~= views_of(
            rendered@,
        ) + render_project_from(bv, iv, q@, next as int, p + 1));
        included = included.saturating_add(1);
        remaining = next;
        p = p + 1;
        if p == idx.len() {
            assert(views_of(rendered@) + Seq::<Seq<char>>::empty() =~= views_of(rendered@));
        }
    }

    (join_chars(&rendered, "\n\n"), included)
}

/// The prefix of the `k`-th rendered reference block (counting from one).
pub open spec fn reference_prefix(k: int) -> Seq<char> {
    "[文件片段 "@ + decimal(k as nat) + "] "@
}

/// The rendered reference blocks from position `p` on.
pub open spec fn render_reference_from(
    blocks: Seq<(Seq<char>, Seq<char>, Seq<char>)>,
    idx: Seq<int>,
    q: Seq<char>,
    remaining: int,
    p: int,
) -> Seq<Seq<char>>
    decreases idx.len() - p,
{
    if p < 0 || p >= idx.len() || remaining <= 0 {
        seq![]
    } else {
        let allowance = share(remaining, idx.len() - p);
        let prefix = reference_prefix(p + 1);
        if allowance <= prefix.len() {
            seq![]
        } else {
            let text = prefix + truncate_block(blocks[idx[p]].2, q, allowance - prefix.len());
            seq![text] + render_reference_from(
                blocks,
                idx,
                q,
                sat_sub(remaining, text.len() + 2int),
                p + 1,
            )
        }
    }
}

/// The note on how many blocks were left out.
pub open spec fn omission_marker(omitted: int) -> Seq<char> {
    if omitted > 0 {
        "\n[已按相关度省略 "@ + decimal(omitted as nat) + " 个文件片段]"@
    } else {
        seq![]
    }
}

/// `render_reference_blocks`: the selected blocks, numbered and joined by
/// blank lines, the omission note appended when it fits.
pub open spec fn render_reference(
    blocks: Seq<(Seq<char>, Seq<char>, Seq<char>)>,
    idx: Seq<int>,
    q: Seq<char>,
    max: int,
) -> (Seq<char>, u16) {
    let marker = omission_marker(sat_sub(blocks.len() as int, idx.len() as int));
    let parts = render_reference_from(blocks, idx, q, sat_sub(max, marker.len() as int), 0);
    if parts.len() == 0 {
        (seq![], 0)
    } else {
        let body = join(parts, "\n\n"@);
        (
            if marker.len() > 0 && body.len() + marker.len() <= max {
                body + marker
            } else {
                body
            },
            sat_u16(parts.len() as int),
        )
    }
}

/// `render_reference_blocks`.
pub fn render_reference_blocks(
    blocks: &Vec<PlanningBlock>,
    idx: &Vec<usize>,
    q: &Vec<char>,
    max: usize,
) -> (r: (Vec<char>, u16))
    requires
        forall|k: int| 0 <= k < idx.len() ==> #[trigger] idx@[k] < blocks.len(),
    ensures
        (r.0@, r.1) == render_reference(blocks_view(blocks@), ints(idx@), q@, max as int),
{
    let ghost bv = blocks_view(blocks@);
    let ghost iv = ints(idx@);
    let omitted = if blocks.len() > idx.len() {
        blocks.len() - idx.len()
    } else {
        0
    };
    let mut marker: Vec<char> = Vec::new();
    if omitted > 0 {
        extend_str(&mut marker, "\n[已按相关度省略 ");
        push_decimal(&mut marker, omitted as u128);
        extend_str(&mut marker, " 个文件片段]");
    }
    assert(marker@ =~= omission_marker(sat_sub(bv.len() as int, iv.len() as int)));
    let budget = if max > marker.len() {
        max - marker.len()
    } else {
        0
    };
    let ghost all = render_reference_from(bv, iv, q@, budget as int, 0);
    let mut rendered: Vec<Vec<char>> = Vec::new();
    let mut remaining = budget;
    let mut included: u16 = 0;
    let mut p: usize = 0;
    assert(views_of(rendered@) + all =~= all);
    while p < idx.len()
        invariant
            p <= idx.len(),
            bv == blocks_view(blocks@),
            iv == ints(idx@),
            forall|k: int| 0 <= k < idx.len() ==> #[trigger] idx@[k] < blocks.len(),
            all == views_of(rendered@) + render_reference_from(bv, iv, q@, remaining as int, p as int),
            included == sat_u16(rendered.len() as int),
        ensures
            all == views_of(rendered@),
            included == sat_u16(rendered.len() as int),
        decreases idx.len() - p,
    {
        if remaining == 0 {
            assert(views_of(rendered@) + Seq::<Seq<char>>::empty() =~= views_of(rendered@));
            break;
        }
        let block = &blocks[idx[p]];
        let parts = idx.len() - p;
        let allowance = remaining / parts;
        let mut text: Vec<char> = Vec::new();
        extend_str(&mut text, "[文件片段 ");
        push_decimal(&mut text, (p as u128) + 1);
        extend_str(&mut text, "] ");
        let prefix_len = text.len();
        assert(text@ =~= reference_prefix(p + 1));
        if allowance <= prefix_len {
            assert(views_of(rendered@) + Seq::<Seq<char>>::empty() =~= views_of(rendered@));
            break;
        }
        let content = truncate_block_of(&block.content, q, allowance - prefix_len);
        extend_chars(&mut text, &content);
        let used = if text.len() < usize::MAX - 2 {
            text.len() + 2
        } else {
            usize::MAX
        };
        let next = if remaining > used {
            remaining - used
        } else {
            0
        };
        let ghost before = views_of(rendered@);
        rendered.push(text);
        assert(views_of(rendered@) =~= before.push(rendered@.last()@));
        assert(before + render_reference_from(bv, iv, q@, remaining as int, p as int) =~= views_of(
            rendered@,
        ) + render_reference_from(bv, iv, q@, next as int, p + 1));
        included = included.saturating_add(1);
        remaining = next;
        p = p + 1;
        if p == idx.len() {
            assert(views_of(rendered@) + Seq::<Seq<char>>::empty() =~= views_of(rendered@));
        }
    }

    if rendered.len() == 0 {
        return (Vec::new(), 0);
    }
    let mut output = join_chars(&rendered, "\n\n");
    if marker.len() > 0 && output.len() <= max && marker.len() <= max - output.len() {
        extend_chars(&mut output, &marker);
    }
    (output, included)
}

} // verus!

verus! {

/// A shortened block holds at most `max` characters, or six when `max` is
/// smaller than the two ellipses.
pub(crate) proof fn lemma_truncate_block_len(value: Seq<char>, q: Seq<char>, max: int)
    requires
        max >= 0,
    ensures
        truncate_block(value, q, max).len() <= (if max > 6 {
            max
        } else {
            6
        }),
{
    reveal_strlit("...");
    reveal_strlit("\n[片段已按预算截断]");
    let len = value.len() as int;
    if len > max {
        match first_match_offset(value, q) {
            Some(m) => {
                let window = sat_sub(max, 6);
                let start = min_int(sat_sub(m, window / 3), sat_sub(len, window));
                let end = min_int(start + window, len);
                assert(value.subrange(start, end).len() <= window);
            },
            None => {
                let marker = truncation_marker();
                assert(marker.len() == 11);
                if max > marker.len() {
                    let kept = max - marker.len();
                    let head = sat_double(kept) / 3;
                    assert(head <= kept);
                }
            },
        }
    }
}

/// Each rendered section from position `p` on fits the section limit plus
/// the two ellipses, and no more sections are rendered than were selected.
proof fn lemma_rendered_sections_fit(
    blocks: Seq<(Seq<char>, Seq<char>, Seq<char>)>,
    idx: Seq<int>,
    q: Seq<char>,
    remaining: int,
    p: int,
)
    requires
        0 <= p <= idx.len(),
        forall|k: int|
            0 <= k < idx.len() ==> 0 <= #[trigger] idx[k] < blocks.len() && blocks[idx[k]].0.len()
                + 2 < MAX_PROJECT_SECTION_CHARS,
    ensures
        render_project_from(blocks, idx, q, remaining, p).len() <= idx.len() - p,
        forall|i: int|
            0 <= i < render_project_from(blocks, idx, q, remaining, p).len() ==> (
            #[trigger] render_project_from(blocks, idx, q, remaining, p)[i]).len()
                <= MAX_PROJECT_SECTION_CHARS + 6,
    decreases idx.len() - p,
{
    reveal_strlit(": ");
    if p < idx.len() && remaining > 0 {
        let allowance = share(remaining, idx.len() - p);
        let block = blocks[idx[p]];
        let prefix = block.0 + ": "@;
        if allowance > prefix.len() {
            let limit = min_int(MAX_PROJECT_SECTION_CHARS as int, allowance);
            let budget = sat_sub(limit, prefix.len() as int);
            lemma_truncate_block_len(block.2, q, budget);
            let text = prefix + truncate_block(block.2, q, budget);
            let next = sat_sub(remaining, text.len() + 2int);
            lemma_rendered_sections_fit(blocks, idx, q, next, p + 1);
            let rest = render_project_from(blocks, idx, q, next, p + 1);
            let all = render_project_from(blocks, idx, q, remaining, p);
            assert(all == seq![text] + rest);
            assert forall|i: int| 0 <= i < all.len() implies (#[trigger] all[i]).len()
                <= MAX_PROJECT_SECTION_CHARS + 6 by {
                if i > 0 {
                    assert(all[i] == rest[i - 1]);
                }
            }
        }
    }
}

/// Parts of at most `k` characters, joined by `sep`, take at most
/// `parts.len() * (k + sep.len())` characters.
proof fn lemma_join_len(parts: Seq<Seq<char>>, sep: Seq<char>, k: int)
    requires
        k >= 0,
        forall|i: int| 0 <= i < parts.len() ==> (#[trigger] parts[i]).len() <= k,
    ensures
        join(parts, sep).len() <= parts.len() * (k + sep.len()),
    decreases parts.len(),
{
    let c = k + sep.len();
    if parts.len() == 1 {
        assert(parts[0].len() <= k);
    } else if parts.len() > 1 {
        let d = parts.drop_last();
        assert forall|i: int| 0 <= i < d.len() implies (#[trigger] d[i]).len() <= k by {
            assert(d[i] == parts[i]);
        }
        lemma_join_len(d, sep, k);
        assert(parts.last() == parts[parts.len() - 1]);
        let n = parts.len() as int;
        assert((n - 1) * c + c == n * c) by (nonlinear_arith);
    }
}

/// The rendered project context stays within the section limit: each
/// section holds at most the limit plus the two ellipses, and the whole,
/// blank lines between sections included, at most the limit plus eight per
/// selected section, where each selected section's identifier is shorter
/// than the limit.
pub proof fn project_sections_fit_the_limit(
    blocks: Seq<(Seq<char>, Seq<char>, Seq<char>)>,
    idx: Seq<int>,
    q: Seq<char>,
    max: int,
)
    requires
        forall|k: int|
            0 <= k < idx.len() ==> 0 <= #[trigger] idx[k] < blocks.len() && blocks[idx[k]].0.len()
                + 2 < MAX_PROJECT_SECTION_CHARS,
    ensures
        render_project_from(blocks, idx, q, max, 0).len() <= idx.len(),
        forall|i: int|
            0 <= i < render_project_from(blocks, idx, q, max, 0).len() ==> (
            #[trigger] render_project_from(blocks, idx, q, max, 0)[i]).len()
                <= MAX_PROJECT_SECTION_CHARS + 6,
        join(render_project_from(blocks, idx, q, max, 0), "\n\n"@).len() <= idx.len() * (
        MAX_PROJECT_SECTION_CHARS + 8),
{
    reveal_strlit("\n\n");
    let parts = render_project_from(blocks, idx, q, max, 0);
    lemma_rendered_sections_fit(blocks, idx, q, max, 0);
    lemma_join_len(parts, "\n\n"@, MAX_PROJECT_SECTION_CHARS + 6);
    let n = parts.len() as int;
    let m = idx.len() as int;
    assert(n * (MAX_PROJECT_SECTION_CHARS + 8) <= m * (MAX_PROJECT_SECTION_CHARS + 8)) by (
    nonlinear_arith)
        requires
            0 <= n <= m,
    ;
}

} // verus!
