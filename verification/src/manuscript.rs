//! Three-way merge of editor documents, block by block.
use vstd::prelude::*;
use crate::json::{
    json_array_len_at, json_content_items, json_content_texts, json_error_message,
    json_error_text, json_has, json_has_at, json_is_object_at, json_is_valid, json_len_at,
    json_object_at, json_parses, json_replace_content, json_same_value, json_values_equal,
    json_set_block_ids, json_str_at, json_string_at, json_with_block_ids, json_with_content,
    sha256_hex, sha256_hex_of,
};
use crate::ids::RecordId;
use crate::text::{chars_of, decimal, eq_chars, extend_chars, extend_str, push_decimal, string_of, views_of};

verus! {

/// Why a manuscript operation was refused.
#[derive(Debug, Clone, PartialEq, Eq)]
pub enum ManuscriptError {
    InvalidDocument(String),
    MissingChapter(RecordId),
    Conflict { expected: Option<RecordId>, actual: Option<RecordId> },
    Database(String),
}

/// A block changed differently on both sides: its id and its JSON text in the
/// base, the current version and the draft (absent where the block is).
#[derive(Debug, Clone, PartialEq, Eq)]
pub struct MergeConflict {
    pub block_id: String,
    pub base: Option<String>,
    pub current: Option<String>,
    pub draft: Option<String>,
}

/// The merged document and the conflicts met.
#[derive(Debug, Clone, PartialEq, Eq)]
pub struct MergeResult {
    pub document_json: String,
    pub conflicts: Vec<MergeConflict>,
}

/// A conflict as plain text: id, base, current, draft.
pub type ConflictView = (Seq<char>, Option<Seq<char>>, Option<Seq<char>>, Option<Seq<char>>);

pub open spec fn opt_view(o: Option<String>) -> Option<Seq<char>> {
    match o {
        Some(s) => Some(s@),
        None => None,
    }
}

pub open spec fn conflict_view(c: MergeConflict) -> ConflictView {
    (c.block_id@, opt_view(c.base), opt_view(c.current), opt_view(c.draft))
}

/// A block's id: its `attrs.blockId` string, or empty.
pub open spec fn block_key(block: Seq<char>) -> Seq<char> {
    match json_string_at(block, "/attrs/blockId"@) {
        Some(id) => id,
        None => seq![],
    }
}

/// The first block with the given id.
pub open spec fn find_block(blocks: Seq<Seq<char>>, id: Seq<char>) -> Option<Seq<char>>
    decreases blocks.len(),
{
    if blocks.len() == 0 {
        None
    } else if block_key(blocks[0]) == id {
        Some(blocks[0])
    } else {
        find_block(blocks.drop_first(), id)
    }
}

/// Two optional blocks are the same when both are missing, or both are there
/// with the same text or texts that read as equal JSON values.
pub open spec fn same_block(x: Option<Seq<char>>, y: Option<Seq<char>>) -> bool {
    match (x, y) {
        (Some(a), Some(b)) => a == b || json_same_value(a, b),
        (None, None) => true,
        _ => false,
    }
}

pub open spec fn opt_seq(o: Option<Seq<char>>) -> Seq<Seq<char>> {
    match o {
        Some(b) => seq![b],
        None => seq![],
    }
}

/// One step of the merge for a block of the draft or the current version: an
/// id already merged is skipped; a side that left the base unchanged yields
/// to the other; equal changes agree; otherwise the current version is kept
/// and a conflict recorded.
pub open spec fn merge_step(
    state: (Seq<Seq<char>>, Seq<ConflictView>),
    block: Seq<char>,
    b: Seq<Seq<char>>,
    c: Seq<Seq<char>>,
    d: Seq<Seq<char>>,
) -> (Seq<Seq<char>>, Seq<ConflictView>) {
    let id = block_key(block);
    let merged = state.0;
    if merged.map_values(|x: Seq<char>| block_key(x)).contains(id) {
        state
    } else {
        let bv = find_block(b, id);
        let cv = find_block(c, id);
        let dv = find_block(d, id);
        if same_block(cv, bv) {
            (merged + opt_seq(dv), state.1)
        } else if same_block(dv, bv) {
            (merged + opt_seq(cv), state.1)
        } else if same_block(cv, dv) {
            (merged + opt_seq(cv), state.1)
        } else {
            (merged + opt_seq(cv), state.1.push((id, bv, cv, dv)))
        }
    }
}

/// The merge over a sequence of blocks, in order.
pub open spec fn merge_blocks(
    blocks: Seq<Seq<char>>,
    b: Seq<Seq<char>>,
    c: Seq<Seq<char>>,
    d: Seq<Seq<char>>,
) -> (Seq<Seq<char>>, Seq<ConflictView>)
    decreases blocks.len(),
{
    if blocks.len() == 0 {
        (seq![], seq![])
    } else {
        merge_step(merge_blocks(blocks.drop_last(), b, c, d), blocks.last(), b, c, d)
    }
}

/// The three-way merge of the blocks: the draft's blocks, then the current
/// version's, each id once.
pub open spec fn merged_blocks(b: Seq<Seq<char>>, c: Seq<Seq<char>>, d: Seq<Seq<char>>) -> (Seq<Seq<char>>, Seq<ConflictView>) {
    merge_blocks(d + c, b, c, d)
}

/// What merging gives: the first text that is not JSON (base, current, draft)
/// is refused with the parser's message; otherwise the base document with
/// the merged blocks as its content, and the conflicts.
pub open spec fn merge_outcome(base: Seq<char>, current: Seq<char>, draft: Seq<char>) -> Result<(Seq<char>, Seq<ConflictView>), Seq<char>> {
    if !json_is_valid(base) {
        Err(json_error_message(base))
    } else if !json_is_valid(current) {
        Err(json_error_message(current))
    } else if !json_is_valid(draft) {
        Err(json_error_message(draft))
    } else {
        let m = merged_blocks(json_content_items(base), json_content_items(current), json_content_items(draft));
        Ok((json_with_content(base, m.0), m.1))
    }
}

fn key_of(block: &String) -> (r: Vec<char>)
    ensures
        r@ == block_key(block@),
{
    match json_str_at(block.as_str(), "/attrs/blockId") {
        Some(id) => chars_of(id.as_str()),
        None => Vec::new(),
    }
}

fn find_of(blocks: &Vec<String>, keys: &Vec<Vec<char>>, id: &Vec<char>) -> (r: Option<usize>)
    requires
        keys.len() == blocks.len(),
        forall|i: int| 0 <= i < keys.len() ==> #[trigger] keys@[i]@ == block_key(blocks@[i]@),
    ensures
        match r {
            Some(i) => i < blocks.len() && find_block(blocks@.map_values(|s: String| s@), id@) == Some(blocks@[i as int]@),
            None => find_block(blocks@.map_values(|s: String| s@), id@) is None,
        },
{
    let ghost all = blocks@.map_values(|s: String| s@);
    let mut i: usize = 0;
    assert(all.skip(0) =~= all);
    while i < blocks.len()
        invariant
            i <= blocks.len(),
            keys.len() == blocks.len(),
            all == blocks@.map_values(|s: String| s@),
            forall|j: int| 0 <= j < keys.len() ==> #[trigger] keys@[j]@ == block_key(blocks@[j]@),
            find_block(all, id@) == find_block(all.skip(i as int), id@),
        decreases blocks.len() - i,
    {
        assert(all.skip(i as int)[0] == blocks@[i as int]@);
        assert(all.skip(i as int).drop_first() =~= all.skip(i + 1));
        if eq_chars(&keys[i], id) {
            return Some(i);
        }
        i = i + 1;
    }
    assert(all.skip(i as int) =~= Seq::<Seq<char>>::empty());
    None
}

fn copy_of(blocks: &Vec<String>, i: Option<usize>) -> (r: Option<String>)
    requires
        i matches Some(k) ==> k < blocks.len(),
    ensures
        opt_view(r) == match i {
            Some(k) => Some(blocks@[k as int]@),
            None => None,
        },
{
    match i {
        Some(k) => Some(String::from_str(blocks[k].as_str())),
        None => None,
    }
}

fn keys_of(blocks: &Vec<String>) -> (r: Vec<Vec<char>>)
    ensures
        r.len() == blocks.len(),
        forall|i: int| 0 <= i < r.len() ==> #[trigger] r@[i]@ == block_key(blocks@[i]@),
{
    let mut r: Vec<Vec<char>> = Vec::new();
    let mut i: usize = 0;
    while i < blocks.len()
        invariant
            i <= blocks.len(),
            r.len() == i,
            forall|j: int| 0 <= j < i ==> #[trigger] r@[j]@ == block_key(blocks@[j]@),
        decreases blocks.len() - i,
    {
        r.push(key_of(&blocks[i]));
        i = i + 1;
    }
    r
}

fn has_key(keys: &Vec<Vec<char>>, id: &Vec<char>) -> (r: bool)
    ensures
        r == keys@.map_values(|k: Vec<char>| k@).contains(id@),
{
    let ghost ks = keys@.map_values(|k: Vec<char>| k@);
    let mut i: usize = 0;
    while i < keys.len()
        invariant
            i <= keys.len(),
            ks == keys@.map_values(|k: Vec<char>| k@),
            forall|j: int| 0 <= j < i ==> ks[j] != id@,
        decreases keys.len() - i,
    {
        if eq_chars(&keys[i], id) {
            assert(ks[i as int] == id@);
            return true;
        }
        i = i + 1;
    }
    assert forall|j: int| 0 <= j < ks.len() implies ks[j] != id@ by {}
    false
}

/// The merge state: merged blocks with their keys, and the conflicts.
struct MergeState {
    merged: Vec<String>,
    merged_keys: Vec<Vec<char>>,
    conflicts: Vec<MergeConflict>,
}

spec fn state_view(s: MergeState) -> (Seq<Seq<char>>, Seq<ConflictView>) {
    (s.merged@.map_values(|x: String| x@), s.conflicts@.map_values(|c: MergeConflict| conflict_view(c)))
}

spec fn state_ok(s: MergeState) -> bool {
    &&& s.merged_keys.len() == s.merged.len()
    &&& forall|i: int| 0 <= i < s.merged.len() ==> #[trigger] s.merged_keys@[i]@ == block_key(s.merged@[i]@)
    &&& forall|i: int| 0 <= i < s.merged.len() ==> json_is_valid(#[trigger] s.merged@[i]@)
}

struct Sides {
    b: Vec<String>,
    bk: Vec<Vec<char>>,
    c: Vec<String>,
    ck: Vec<Vec<char>>,
    d: Vec<String>,
    dk: Vec<Vec<char>>,
}

spec fn sides_ok(s: Sides) -> bool {
    &&& s.bk.len() == s.b.len()
    &&& s.ck.len() == s.c.len()
    &&& s.dk.len() == s.d.len()
    &&& forall|i: int| 0 <= i < s.b.len() ==> #[trigger] s.bk@[i]@ == block_key(s.b@[i]@)
    &&& forall|i: int| 0 <= i < s.c.len() ==> #[trigger] s.ck@[i]@ == block_key(s.c@[i]@)
    &&& forall|i: int| 0 <= i < s.d.len() ==> #[trigger] s.dk@[i]@ == block_key(s.d@[i]@)
    &&& forall|i: int| 0 <= i < s.c.len() ==> json_is_valid(#[trigger] s.c@[i]@)
    &&& forall|i: int| 0 <= i < s.d.len() ==> json_is_valid(#[trigger] s.d@[i]@)
}

spec fn strs(v: Seq<String>) -> Seq<Seq<char>> {
    v.map_values(|s: String| s@)
}

fn push_opt(st: &mut MergeState, side: &Vec<String>, keys: &Vec<Vec<char>>, i: Option<usize>)
    requires
        state_ok(*old(st)),
        keys.len() == side.len(),
        forall|j: int| 0 <= j < side.len() ==> #[trigger] keys@[j]@ == block_key(side@[j]@),
        forall|j: int| 0 <= j < side.len() ==> json_is_valid(#[trigger] side@[j]@),
        i matches Some(k) ==> k < side.len(),
    ensures
        state_ok(*final(st)),
        final(st).conflicts@ == old(st).conflicts@,
        state_view(*final(st)).0 == state_view(*old(st)).0 + opt_seq(
            match i {
                Some(k) => Some(side@[k as int]@),
                None => None,
            },
        ),
{
    match i {
        Some(k) => {
            let ghost before = st.merged@;
            st.merged.push(String::from_str(side[k].as_str()));
            st.merged_keys.push(eq_copy(&keys[k]));
            assert(st.merged@.map_values(|x: String| x@) =~= before.map_values(|x: String| x@).push(side@[k as int]@));
        },
        None => {
        },
    }
}

fn eq_copy(v: &Vec<char>) -> (r: Vec<char>)
    ensures
        r@ == v@,
{
    let mut r: Vec<char> = Vec::new();
    crate::text::extend_chars(&mut r, v);
    r
}

fn merge_one(st: &mut MergeState, sides: &Sides, block: &String, key: &Vec<char>)
    requires
        state_ok(*old(st)),
        sides_ok(*sides),
        key@ == block_key(block@),
    ensures
        state_ok(*final(st)),
        state_view(*final(st)) == merge_step(state_view(*old(st)), block@, strs(sides.b@), strs(sides.c@), strs(sides.d@)),
{
    let ghost merged_keys = state_view(*st).0.map_values(|x: Seq<char>| block_key(x));
    assert(st.merged_keys@.map_values(|k: Vec<char>| k@) =~= merged_keys);
    if has_key(&st.merged_keys, key) {
        return;
    }
    let bi = find_of(&sides.b, &sides.bk, key);
    let ci = find_of(&sides.c, &sides.ck, key);
    let di = find_of(&sides.d, &sides.dk, key);
    let bv = copy_of(&sides.b, bi);
    let cv = copy_of(&sides.c, ci);
    let dv = copy_of(&sides.d, di);
    let same_cb = opt_eq(&cv, &bv);
    let same_db = opt_eq(&dv, &bv);
    let same_cd = opt_eq(&cv, &dv);
    if same_cb {
        push_opt(st, &sides.d, &sides.dk, di);
    } else if same_db {
        push_opt(st, &sides.c, &sides.ck, ci);
    } else if same_cd {
        push_opt(st, &sides.c, &sides.ck, ci);
    } else {
        let ghost before = st.conflicts@;
        st.conflicts.push(MergeConflict { block_id: crate::text::string_of(key), base: bv, current: cv, draft: dv });
        assert(st.conflicts@.map_values(|c: MergeConflict| conflict_view(c)) =~= before.map_values(
            |c: MergeConflict| conflict_view(c),
        ).push((key@, find_block(strs(sides.b@), key@), find_block(strs(sides.c@), key@), find_block(strs(sides.d@), key@))));
        push_opt(st, &sides.c, &sides.ck, ci);
    }
}

fn opt_eq(a: &Option<String>, b: &Option<String>) -> (r: bool)
    ensures
        r == same_block(opt_view(*a), opt_view(*b)),
{
    match (a, b) {
        (Some(x), Some(y)) => crate::text::str_eq(x.as_str(), y.as_str()) || json_values_equal(x.as_str(), y.as_str()),
        (None, None) => true,
        _ => false,
    }
}

/// Merges a draft into the current version of a document against their
/// common base, block by block (blocks are matched by `attrs.blockId`): the
/// draft's blocks come first, then blocks only the current version has; a
/// block deleted on one side and untouched on the other is dropped; a block
/// changed differently on both sides keeps the current version and is
/// reported as a conflict.
pub fn merge_documents(base: &str, current: &str, draft: &str) -> (r: Result<MergeResult, ManuscriptError>)
    ensures
        match merge_outcome(base@, current@, draft@) {
            Err(m) => match r {
                Err(ManuscriptError::InvalidDocument(s)) => s@ == m,
                _ => false,
            },
            Ok((doc, conflicts)) => match r {
                Ok(m) => m.document_json@ == doc && m.conflicts@.map_values(|c: MergeConflict| conflict_view(c)) == conflicts,
                Err(_) => false,
            },
        },
{
    let b = match json_content_texts(base) {
        Some(items) => items,
        None => {
            return Err(ManuscriptError::InvalidDocument(json_error_text(base)));
        },
    };
    let c = match json_content_texts(current) {
        Some(items) => items,
        None => {
            return Err(ManuscriptError::InvalidDocument(json_error_text(current)));
        },
    };
    let d = match json_content_texts(draft) {
        Some(items) => items,
        None => {
            return Err(ManuscriptError::InvalidDocument(json_error_text(draft)));
        },
    };
    let bk = keys_of(&b);
    let ck = keys_of(&c);
    let dk = keys_of(&d);
    let sides = Sides { b, bk, c, ck, d, dk };
    let mut st = MergeState { merged: Vec::new(), merged_keys: Vec::new(), conflicts: Vec::new() };
    let ghost bs = strs(sides.b@);
    let ghost cs = strs(sides.c@);
    let ghost ds = strs(sides.d@);
    let ghost all = ds + cs;
    assert(state_view(st) =~= merge_blocks(all.take(0), bs, cs, ds));
    let mut i: usize = 0;
    while i < sides.d.len()
        invariant
            i <= sides.d.len(),
            sides_ok(sides),
            state_ok(st),
            bs == strs(sides.b@),
            cs == strs(sides.c@),
            ds == strs(sides.d@),
            all == ds + cs,
            state_view(st) == merge_blocks(all.take(i as int), bs, cs, ds),
        decreases sides.d.len() - i,
    {
        assert(all.take(i + 1).drop_last() =~= all.take(i as int));
        assert(all.take(i + 1).last() == sides.d@[i as int]@);
        merge_one(&mut st, &sides, &sides.d[i], &sides.dk[i]);
        i = i + 1;
    }
    let mut j: usize = 0;
    while j < sides.c.len()
        invariant
            j <= sides.c.len(),
            sides_ok(sides),
            state_ok(st),
            bs == strs(sides.b@),
            cs == strs(sides.c@),
            ds == strs(sides.d@),
            all == ds + cs,
            state_view(st) == merge_blocks(all.take(sides.d.len() + j), bs, cs, ds),
        decreases sides.c.len() - j,
    {
        assert(all.take(sides.d.len() + j + 1).drop_last() =~= all.take(sides.d.len() + j));
        assert(all.take(sides.d.len() + j + 1).last() == sides.c@[j as int]@);
        merge_one(&mut st, &sides, &sides.c[j], &sides.ck[j]);
        j = j + 1;
    }
    assert(all.take(sides.d.len() + sides.c.len()) =~= all);
    let document_json = json_replace_content(base, &st.merged);
    Ok(MergeResult { document_json, conflicts: st.conflicts })
}

// ---- block ids ----

/// A node other than the document root gets a block id when it has no
/// `attrs`, or has an `attrs` object without `blockId`.
pub open spec fn needs_block_id(data: Seq<char>, p: Seq<char>) -> bool {
    &&& json_string_at(data, p + "/type"@) != Some("doc"@)
    &&& (!json_has(data, p + "/attrs"@) || (json_object_at(data, p + "/attrs"@) && !json_has(
        data,
        p + "/attrs/blockId"@,
    )))
}

/// The objects under pointer `p` that get a block id, in document order (a
/// node before its `content` children). Nesting deeper than `fuel` levels is
/// not visited.
pub open spec fn id_nodes(data: Seq<char>, p: Seq<char>, fuel: nat) -> Seq<Seq<char>>
    decreases fuel, 0nat,
{
    if fuel == 0 || !json_object_at(data, p) {
        seq![]
    } else {
        let own = if needs_block_id(data, p) {
            seq![p]
        } else {
            seq![]
        };
        match json_array_len_at(data, p + "/content"@) {
            None => own,
            Some(n) => own + child_id_nodes(data, p, n as nat, (fuel - 1) as nat),
        }
    }
}

/// The nodes that get a block id under the first `n` children of `p`.
pub open spec fn child_id_nodes(data: Seq<char>, p: Seq<char>, n: nat, fuel: nat) -> Seq<Seq<char>>
    decreases fuel, n + 1,
{
    if n == 0 {
        seq![]
    } else {
        child_id_nodes(data, p, (n - 1) as nat, fuel) + id_nodes(data, p + "/content/"@ + decimal((n - 1) as nat), fuel)
    }
}

/// `block-<k>`.
pub open spec fn block_label(k: nat) -> Seq<char> {
    "block-"@ + decimal(k)
}

/// The ids `block-1`, `block-2`, ..., `block-<n>`.
pub open spec fn block_labels(n: nat) -> Seq<Seq<char>> {
    Seq::new(n, |i: int| block_label((i + 1) as nat))
}

/// `normalize_document`: a document whose root type is `doc`, written back
/// by the parser with a block id on every node that lacks one, or why it is
/// refused. (A JSON text nests no deeper than it is long, so visiting to that
/// depth visits every node.)
pub open spec fn normalized(data: Seq<char>) -> Result<Seq<char>, Seq<char>> {
    if !json_is_valid(data) {
        Err(json_error_message(data))
    } else if json_string_at(data, "/type"@) != Some("doc"@) {
        Err("root type must be doc"@)
    } else {
        let nodes = id_nodes(data, seq![], data.len());
        Ok(json_with_block_ids(data, nodes, block_labels(nodes.len())))
    }
}

fn pointer(p: &Vec<char>, suffix: &str) -> (r: String)
    ensures
        r@ == p@ + suffix@,
{
    let mut v = crate::text::slice_chars(p, 0, p.len());
    extend_str(&mut v, suffix);
    string_of(&v)
}

fn needs_block_id_of(data: &str, p: &Vec<char>) -> (r: bool)
    ensures
        r == needs_block_id(data@, p@),
{
    let type_p = pointer(p, "/type");
    let is_doc = match json_str_at(data, type_p.as_str()) {
        Some(t) => crate::text::str_eq(t.as_str(), "doc"),
        None => false,
    };
    if is_doc {
        return false;
    }
    let attrs_p = pointer(p, "/attrs");
    if !json_has_at(data, attrs_p.as_str()) {
        return true;
    }
    let id_p = pointer(p, "/attrs/blockId");
    json_is_object_at(data, attrs_p.as_str()) && !json_has_at(data, id_p.as_str())
}

fn collect_id_nodes(data: &str, p: &Vec<char>, fuel: usize, out: &mut Vec<Vec<char>>)
    ensures
        views_of(final(out)@) == views_of(old(out)@) + id_nodes(data@, p@, fuel as nat),
    decreases fuel, 0nat,
{
    let ghost start = views_of(out@);
    let whole = string_of(p);
    if fuel == 0 || !json_is_object_at(data, whole.as_str()) {
        assert(views_of(out@) =~= start + id_nodes(data@, p@, fuel as nat));
        return;
    }
    if needs_block_id_of(data, p) {
        let copy = crate::text::slice_chars(p, 0, p.len());
        assert(copy@ =~= p@);
        let ghost before = out@;
        out.push(copy);
        assert(views_of(out@) =~= views_of(before).push(p@));
        assert(views_of(out@) =~= start + seq![p@]);
    } else {
        assert(views_of(out@) =~= start + Seq::<Seq<char>>::empty());
    }
    let ghost own = views_of(out@).skip(start.len() as int);
    assert(views_of(out@) =~= start + own);
    let content_p = pointer(p, "/content");
    match json_len_at(data, content_p.as_str()) {
        None => {
            assert(views_of(out@) =~= start + id_nodes(data@, p@, fuel as nat));
        },
        Some(n) => {
            let mut i: usize = 0;
            assert(views_of(out@) =~= start + own + child_id_nodes(data@, p@, 0, (fuel - 1) as nat));
            while i < n
                invariant
                    i <= n,
                    fuel > 0,
                    views_of(out@) == start + own + child_id_nodes(data@, p@, i as nat, (fuel - 1) as nat),
                decreases n - i,
            {
                let mut child = crate::text::slice_chars(p, 0, p.len());
                assert(child@ =~= p@);
                extend_str(&mut child, "/content/");
                push_decimal(&mut child, i as u128);
                assert(child@ =~= p@ + "/content/"@ + decimal(i as nat));
                collect_id_nodes(data, &child, fuel - 1, out);
                i = i + 1;
                assert(views_of(out@) =~= start + own + child_id_nodes(data@, p@, i as nat, (fuel - 1) as nat));
            }
            assert(views_of(out@) =~= start + id_nodes(data@, p@, fuel as nat));
        },
    }
}

/// Gives every node of an editor document that lacks one a block id
/// (`block-1`, `block-2`, ... in document order) and writes the document
/// back as canonical JSON; refuses text that is not JSON or whose root type
/// is not `doc`.
pub fn normalize_document(document_json: &str) -> (r: Result<String, ManuscriptError>)
    ensures
        match normalized(document_json@) {
            Ok(t) => r matches Ok(s) && s@ == t,
            Err(m) => r matches Err(ManuscriptError::InvalidDocument(s)) && s@ == m,
        },
{
    if !json_parses(document_json) {
        return Err(ManuscriptError::InvalidDocument(json_error_text(document_json)));
    }
    let is_doc = match json_str_at(document_json, "/type") {
        Some(t) => crate::text::str_eq(t.as_str(), "doc"),
        None => false,
    };
    if !is_doc {
        return Err(ManuscriptError::InvalidDocument(String::from_str("root type must be doc")));
    }
    let root: Vec<char> = Vec::new();
    let mut nodes: Vec<Vec<char>> = Vec::new();
    let len = chars_of(document_json).len();
    collect_id_nodes(document_json, &root, len, &mut nodes);
    assert(views_of(nodes@) =~= id_nodes(document_json@, seq![], document_json@.len()));
    let ghost ids = views_of(nodes@);
    let mut pointers: Vec<String> = Vec::new();
    let mut labels: Vec<String> = Vec::new();
    let mut i: usize = 0;
    while i < nodes.len()
        invariant
            i <= nodes.len(),
            ids == views_of(nodes@),
            pointers.len() == i,
            labels.len() == i,
            pointers@.map_values(|s: String| s@) == ids.take(i as int),
            labels@.map_values(|s: String| s@) == block_labels(ids.len()).take(i as int),
        decreases nodes.len() - i,
    {
        let mut label = chars_of("block-");
        push_decimal(&mut label, (i + 1) as u128);
        let node = string_of(&nodes[i]);
        let ghost before_p = pointers@;
        let ghost before_l = labels@;
        pointers.push(node);
        labels.push(string_of(&label));
        assert(pointers@.map_values(|s: String| s@) =~= before_p.map_values(|s: String| s@).push(ids[i as int]));
        assert(ids.take(i + 1) =~= ids.take(i as int).push(ids[i as int]));
        assert(labels@.map_values(|s: String| s@) =~= before_l.map_values(|s: String| s@).push(block_label((i + 1) as nat)));
        assert(block_labels(ids.len()).take(i + 1) =~= block_labels(ids.len()).take(i as int).push(block_label((i + 1) as nat)));
        i = i + 1;
    }
    assert(ids.take(nodes.len() as int) =~= ids);
    assert(block_labels(ids.len()).take(nodes.len() as int) =~= block_labels(ids.len()));
    Ok(json_set_block_ids(document_json, &pointers, &labels))
}

/// Checks that a text is an editor document (see `normalize_document`).
pub fn validate_document(document_json: &str) -> (r: Result<(), ManuscriptError>)
    ensures
        match normalized(document_json@) {
            Ok(_) => r is Ok,
            Err(m) => r matches Err(ManuscriptError::InvalidDocument(s)) && s@ == m,
        },
{
    match normalize_document(document_json) {
        Ok(_) => Ok(()),
        Err(e) => Err(e),
    }
}

/// Checks a save of a chapter's document against the base revision the
/// editor started from, and gives the document to store (normalized) and its
/// SHA-256 hex digest: the document must be valid, the chapter must exist,
/// and an expected base must be the chapter's current revision.
pub fn check_manuscript_save(
    chapter_id: RecordId,
    chapter_exists: bool,
    base_revision_id: Option<RecordId>,
    current_revision_id: Option<RecordId>,
    document_json: &str,
) -> (r: Result<(String, String), ManuscriptError>)
    ensures
        match normalized(document_json@) {
            Err(m) => r matches Err(ManuscriptError::InvalidDocument(s)) && s@ == m,
            Ok(d) => if !chapter_exists {
                r == Err::<(String, String), ManuscriptError>(ManuscriptError::MissingChapter(chapter_id))
            } else if base_revision_id is Some && base_revision_id != current_revision_id {
                r == Err::<(String, String), ManuscriptError>(
                    ManuscriptError::Conflict { expected: base_revision_id, actual: current_revision_id },
                )
            } else {
                r matches Ok((doc, hash)) && doc@ == d && hash@ == sha256_hex_of(d)
            },
        },
{
    let document = match normalize_document(document_json) {
        Ok(d) => d,
        Err(e) => {
            return Err(e);
        },
    };
    if !chapter_exists {
        return Err(ManuscriptError::MissingChapter(chapter_id));
    }
    match base_revision_id {
        Some(expected) => {
            if base_revision_id != current_revision_id {
                return Err(ManuscriptError::Conflict { expected: Some(expected), actual: current_revision_id });
            }
        },
        None => {},
    }
    let hash = sha256_hex(document.as_str());
    Ok((document, hash))
}

proof fn lemma_find_block(blocks: Seq<Seq<char>>, id: Seq<char>)
    ensures
        find_block(blocks, id) matches Some(x) ==> block_key(x) == id,
    decreases blocks.len(),
{
    if blocks.len() > 0 && block_key(blocks[0]) != id {
        lemma_find_block(blocks.drop_first(), id);
    }
}

proof fn lemma_unchanged_side(blocks: Seq<Seq<char>>, b: Seq<Seq<char>>, c: Seq<Seq<char>>, d: Seq<Seq<char>>)
    requires
        c == b || d == b,
    ensures
        merge_blocks(blocks, b, c, d).1.len() == 0,
    decreases blocks.len(),
{
    if blocks.len() > 0 {
        lemma_unchanged_side(blocks.drop_last(), b, c, d);
    }
}

/// A merge in which one side left the base's blocks unchanged reports no
/// conflict.
pub proof fn unchanged_side_merges_cleanly(base: Seq<char>, current: Seq<char>, draft: Seq<char>)
    requires
        json_is_valid(base),
        json_is_valid(current),
        json_is_valid(draft),
        json_content_items(current) == json_content_items(base) || json_content_items(draft)
            == json_content_items(base),
    ensures
        merge_outcome(base, current, draft) matches Ok((_, conflicts)) && conflicts.len() == 0,
{
    let b = json_content_items(base);
    let c = json_content_items(current);
    let d = json_content_items(draft);
    lemma_unchanged_side(d + c, b, c, d);
}

/// The ids of the merged blocks, in order.
pub open spec fn merged_keys(m: Seq<Seq<char>>) -> Seq<Seq<char>> {
    m.map_values(|x: Seq<char>| block_key(x))
}

proof fn lemma_merged_keys_distinct(blocks: Seq<Seq<char>>, b: Seq<Seq<char>>, c: Seq<Seq<char>>, d: Seq<Seq<char>>)
    ensures
        forall|i: int, j: int|
            0 <= i < j < merge_blocks(blocks, b, c, d).0.len() ==> block_key(
                #[trigger] merge_blocks(blocks, b, c, d).0[i],
            ) != block_key(#[trigger] merge_blocks(blocks, b, c, d).0[j]),
    decreases blocks.len(),
{
    if blocks.len() > 0 {
        let prev = merge_blocks(blocks.drop_last(), b, c, d);
        lemma_merged_keys_distinct(blocks.drop_last(), b, c, d);
        let block = blocks.last();
        let id = block_key(block);
        lemma_find_block(b, id);
        lemma_find_block(c, id);
        lemma_find_block(d, id);
        let now = merge_blocks(blocks, b, c, d);
        assert(now == merge_step(prev, block, b, c, d));
        if !merged_keys(prev.0).contains(id) {
            assert forall|i: int, j: int| 0 <= i < j < now.0.len() implies block_key(#[trigger] now.0[i])
                != block_key(#[trigger] now.0[j]) by {
                if j >= prev.0.len() {
                    assert(block_key(now.0[j]) == id);
                    assert(now.0[i] == prev.0[i]);
                    assert(merged_keys(prev.0)[i] == block_key(prev.0[i]));
                } else {
                    assert(now.0[i] == prev.0[i]);
                    assert(now.0[j] == prev.0[j]);
                }
            }
        }
    }
}

/// Every block id occurs at most once among the merged blocks.
pub proof fn merged_block_ids_are_unique(b: Seq<Seq<char>>, c: Seq<Seq<char>>, d: Seq<Seq<char>>)
    ensures
        forall|i: int, j: int|
            0 <= i < j < merged_blocks(b, c, d).0.len() ==> block_key(#[trigger] merged_blocks(b, c, d).0[i])
                != block_key(#[trigger] merged_blocks(b, c, d).0[j]),
{
    lemma_merged_keys_distinct(d + c, b, c, d);
}

/// The block ids are distinct.
pub open spec fn distinct_keys(bs: Seq<Seq<char>>) -> bool {
    forall|i: int, j: int| 0 <= i < j < bs.len() ==> block_key(#[trigger] bs[i]) != block_key(#[trigger] bs[j])
}

proof fn lemma_find_own(bs: Seq<Seq<char>>, i: int)
    requires
        distinct_keys(bs),
        0 <= i < bs.len(),
    ensures
        find_block(bs, block_key(bs[i])) == Some(bs[i]),
    decreases i,
{
    if i > 0 {
        let f = bs.drop_first();
        assert(block_key(bs[0]) != block_key(bs[i]));
        assert(f[i - 1] == bs[i]);
        assert forall|a: int, b: int| 0 <= a < b < f.len() implies block_key(#[trigger] f[a]) != block_key(#[trigger] f[b]) by {
            assert(f[a] == bs[a + 1]);
            assert(f[b] == bs[b + 1]);
        }
        lemma_find_own(f, i - 1);
    }
}

proof fn lemma_find_absent(bs: Seq<Seq<char>>, id: Seq<char>)
    requires
        forall|j: int| 0 <= j < bs.len() ==> block_key(#[trigger] bs[j]) != id,
    ensures
        find_block(bs, id) is None,
    decreases bs.len(),
{
    if bs.len() > 0 {
        let f = bs.drop_first();
        assert(block_key(bs[0]) != id);
        assert forall|j: int| 0 <= j < f.len() implies block_key(#[trigger] f[j]) != id by {
            assert(f[j] == bs[j + 1]);
        }
        lemma_find_absent(f, id);
    }
}

/// Merging the draft's blocks in order against an unchanged current version
/// takes each of them.
proof fn lemma_draft_prefix(b: Seq<Seq<char>>, d: Seq<Seq<char>>, i: int)
    requires
        distinct_keys(d),
        0 <= i <= d.len(),
    ensures
        merge_blocks(d.take(i), b, b, d) == (d.take(i), Seq::<ConflictView>::empty()),
    decreases i,
{
    if i > 0 {
        lemma_draft_prefix(b, d, i - 1);
        assert(d.take(i).drop_last() =~= d.take(i - 1));
        assert(d.take(i).last() == d[i - 1]);
        let prev = d.take(i - 1);
        let id = block_key(d[i - 1]);
        let pk = prev.map_values(|x: Seq<char>| block_key(x));
        assert(!pk.contains(id)) by {
            if pk.contains(id) {
                let k = choose|k: int| 0 <= k < pk.len() && #[trigger] pk[k] == id;
                assert(pk[k] == block_key(prev[k]));
                assert(prev[k] == d[k]);
                assert(block_key(d[k]) == block_key(d[i - 1]));
            }
        }
        lemma_find_own(d, i - 1);
        assert(same_block(find_block(b, id), find_block(b, id)));
        assert(prev + opt_seq(Some(d[i - 1])) =~= d.take(i));
    } else {
        assert(d.take(0) =~= Seq::<Seq<char>>::empty());
    }
}

/// Then the unchanged current version's blocks add nothing: those the draft
/// kept are merged already, and the others the draft deleted.
proof fn lemma_current_suffix(b: Seq<Seq<char>>, d: Seq<Seq<char>>, j: int)
    requires
        distinct_keys(d),
        0 <= j <= b.len(),
    ensures
        merge_blocks(d + b.take(j), b, b, d) == (d, Seq::<ConflictView>::empty()),
    decreases j,
{
    if j > 0 {
        lemma_current_suffix(b, d, j - 1);
        assert((d + b.take(j)).drop_last() =~= d + b.take(j - 1));
        assert((d + b.take(j)).last() == b[j - 1]);
        let id = block_key(b[j - 1]);
        if !d.map_values(|x: Seq<char>| block_key(x)).contains(id) {
            assert forall|k: int| 0 <= k < d.len() implies block_key(#[trigger] d[k]) != id by {
                assert(d.map_values(|x: Seq<char>| block_key(x))[k] == block_key(d[k]));
            }
            lemma_find_absent(d, id);
            assert(same_block(find_block(b, id), find_block(b, id)));
            assert(d + opt_seq(None) =~= d);
        }
    } else {
        lemma_draft_prefix(b, d, d.len() as int);
        assert(d.take(d.len() as int) =~= d);
        assert(b.take(0) =~= Seq::<Seq<char>>::empty());
        assert(d + b.take(0) =~= d);
    }
}

/// When the current version still holds the base's blocks, merging a draft
/// whose block ids are distinct gives exactly the draft's blocks, in the
/// draft's order, and no conflict.
pub proof fn unchanged_current_takes_the_draft(base: Seq<char>, current: Seq<char>, draft: Seq<char>)
    requires
        json_is_valid(base),
        json_is_valid(current),
        json_is_valid(draft),
        json_content_items(current) == json_content_items(base),
        distinct_keys(json_content_items(draft)),
    ensures
        merge_outcome(base, current, draft) == Ok::<(Seq<char>, Seq<ConflictView>), Seq<char>>(
            (json_with_content(base, json_content_items(draft)), Seq::<ConflictView>::empty()),
        ),
{
    let b = json_content_items(base);
    let d = json_content_items(draft);
    lemma_current_suffix(b, d, b.len() as int);
    assert(b.take(b.len() as int) =~= b);
}

/// The position of the first draft block with the given id; the number of
/// draft blocks when none has it.
pub open spec fn draft_pos(d: Seq<Seq<char>>, id: Seq<char>) -> int
    decreases d.len(),
{
    if d.len() == 0 {
        0
    } else if block_key(d[0]) == id {
        0
    } else {
        1 + draft_pos(d.drop_first(), id)
    }
}

proof fn lemma_draft_pos(d: Seq<Seq<char>>, id: Seq<char>)
    ensures
        0 <= draft_pos(d, id) <= d.len(),
        draft_pos(d, id) < d.len() ==> block_key(d[draft_pos(d, id)]) == id,
        forall|p: int| 0 <= p < draft_pos(d, id) ==> block_key(#[trigger] d[p]) != id,
    decreases d.len(),
{
    if d.len() > 0 && block_key(d[0]) != id {
        let f = d.drop_first();
        lemma_draft_pos(f, id);
        assert forall|p: int| 0 <= p < draft_pos(d, id) implies block_key(#[trigger] d[p]) != id by {
            if p > 0 {
                assert(d[p] == f[p - 1]);
            }
        }
        if draft_pos(d, id) < d.len() {
            assert(d[draft_pos(d, id)] == f[draft_pos(f, id)]);
        }
    }
}

proof fn lemma_draft_pos_own(d: Seq<Seq<char>>, i: int)
    requires
        distinct_keys(d),
        0 <= i < d.len(),
    ensures
        draft_pos(d, block_key(d[i])) == i,
{
    let id = block_key(d[i]);
    lemma_draft_pos(d, id);
    let p = draft_pos(d, id);
    if p < i {
        assert(block_key(d[p]) == block_key(d[i]));
    }
    if p > i {
        assert(block_key(d[i]) != id);
    }
}

proof fn lemma_find_present(bs: Seq<Seq<char>>, j: int)
    requires
        0 <= j < bs.len(),
    ensures
        find_block(bs, block_key(bs[j])) is Some,
    decreases j,
{
    if j > 0 && block_key(bs[0]) != block_key(bs[j]) {
        assert(bs.drop_first()[j - 1] == bs[j]);
        lemma_find_present(bs.drop_first(), j - 1);
    }
}

proof fn lemma_keys_push(m: Seq<Seq<char>>, o: Option<Seq<char>>, id: Seq<char>)
    ensures
        m.map_values(|x: Seq<char>| block_key(x)).contains(id) ==> (m + opt_seq(o)).map_values(
            |x: Seq<char>| block_key(x),
        ).contains(id),
        o matches Some(x) && block_key(x) == id ==> (m + opt_seq(o)).map_values(|x: Seq<char>| block_key(x)).contains(id),
{
    let n = m + opt_seq(o);
    let mk = m.map_values(|x: Seq<char>| block_key(x));
    let nk = n.map_values(|x: Seq<char>| block_key(x));
    if mk.contains(id) {
        let k = choose|k: int| 0 <= k < mk.len() && #[trigger] mk[k] == id;
        assert(n[k] == m[k]);
        assert(nk[k] == id);
    }
    if o matches Some(x) && block_key(x) == id {
        assert(n[m.len() as int] == o.unwrap());
        assert(nk[m.len() as int] == id);
    }
}

/// While the draft's blocks are merged, each merged block sits at an
/// earlier draft position than the next, all before position `i`, and every
/// draft block so far that the current version also has is merged.
proof fn lemma_draft_phase(b: Seq<Seq<char>>, c: Seq<Seq<char>>, d: Seq<Seq<char>>, i: int)
    requires
        distinct_keys(d),
        0 <= i <= d.len(),
    ensures
        forall|s: int| 0 <= s < merge_blocks(d.take(i), b, c, d).0.len() ==> draft_pos(
            d,
            block_key(#[trigger] merge_blocks(d.take(i), b, c, d).0[s]),
        ) < i,
        forall|s: int, t: int| 0 <= s < t < merge_blocks(d.take(i), b, c, d).0.len() ==> draft_pos(
            d,
            block_key(#[trigger] merge_blocks(d.take(i), b, c, d).0[s]),
        ) < draft_pos(d, block_key(#[trigger] merge_blocks(d.take(i), b, c, d).0[t])),
        forall|p: int| 0 <= p < i && find_block(c, block_key(#[trigger] d[p])) is Some ==> merge_blocks(
            d.take(i),
            b,
            c,
            d,
        ).0.map_values(|x: Seq<char>| block_key(x)).contains(block_key(d[p])),
    decreases i,
{
    if i > 0 {
        lemma_draft_phase(b, c, d, i - 1);
        let prev = merge_blocks(d.take(i - 1), b, c, d);
        let m = prev.0;
        assert(d.take(i).drop_last() =~= d.take(i - 1));
        assert(d.take(i).last() == d[i - 1]);
        let id = block_key(d[i - 1]);
        let now = merge_blocks(d.take(i), b, c, d);
        assert(now == merge_step(prev, d[i - 1], b, c, d));
        lemma_draft_pos_own(d, i - 1);
        if !m.map_values(|x: Seq<char>| block_key(x)).contains(id) {
            let bv = find_block(b, id);
            let cv = find_block(c, id);
            let dv = find_block(d, id);
            lemma_find_block(b, id);
            lemma_find_block(c, id);
            lemma_find_block(d, id);
            lemma_find_own(d, i - 1);
            let o = if same_block(cv, bv) {
                dv
            } else {
                cv
            };
            assert(now.0 == m + opt_seq(o));
            lemma_keys_push(m, o, id);
            assert forall|p: int| 0 <= p < i && find_block(c, block_key(#[trigger] d[p])) is Some implies now.0.map_values(
                |x: Seq<char>| block_key(x),
            ).contains(block_key(d[p])) by {
                lemma_keys_push(m, o, block_key(d[p]));
            }
            assert forall|s: int| 0 <= s < now.0.len() implies draft_pos(d, block_key(#[trigger] now.0[s])) < i by {
                if s < m.len() {
                    assert(now.0[s] == m[s]);
                } else {
                    assert(now.0[s] == o.unwrap());
                }
            }
            assert forall|s: int, t: int| 0 <= s < t < now.0.len() implies draft_pos(d, block_key(#[trigger] now.0[s]))
                < draft_pos(d, block_key(#[trigger] now.0[t])) by {
                assert(now.0[s] == m[s]);
                if t < m.len() {
                    assert(now.0[t] == m[t]);
                } else {
                    assert(now.0[t] == o.unwrap());
                }
            }
        } else {
            assert(now == prev);
        }
    } else {
        assert(d.take(0) =~= Seq::<Seq<char>>::empty());
    }
}

/// Then the current version's blocks add only blocks the draft lacks.
proof fn lemma_current_phase(b: Seq<Seq<char>>, c: Seq<Seq<char>>, d: Seq<Seq<char>>, j: int)
    requires
        distinct_keys(d),
        0 <= j <= c.len(),
    ensures
        forall|s: int, t: int| 0 <= s < t < merge_blocks(d + c.take(j), b, c, d).0.len() ==> {
            let ps = draft_pos(d, block_key(#[trigger] merge_blocks(d + c.take(j), b, c, d).0[s]));
            let pt = draft_pos(d, block_key(#[trigger] merge_blocks(d + c.take(j), b, c, d).0[t]));
            ps < pt || (ps == d.len() && pt == d.len())
        },
        forall|p: int| 0 <= p < d.len() && find_block(c, block_key(#[trigger] d[p])) is Some ==> merge_blocks(
            d + c.take(j),
            b,
            c,
            d,
        ).0.map_values(|x: Seq<char>| block_key(x)).contains(block_key(d[p])),
    decreases j,
{
    if j > 0 {
        lemma_current_phase(b, c, d, j - 1);
        let prev = merge_blocks(d + c.take(j - 1), b, c, d);
        let m = prev.0;
        assert((d + c.take(j)).drop_last() =~= d + c.take(j - 1));
        assert((d + c.take(j)).last() == c[j - 1]);
        let id = block_key(c[j - 1]);
        let now = merge_blocks(d + c.take(j), b, c, d);
        assert(now == merge_step(prev, c[j - 1], b, c, d));
        if !m.map_values(|x: Seq<char>| block_key(x)).contains(id) {
            lemma_find_present(c, j - 1);
            lemma_draft_pos(d, id);
            if draft_pos(d, id) < d.len() {
                let p = draft_pos(d, id);
                assert(block_key(d[p]) == id);
                assert(false);
            }
            let bv = find_block(b, id);
            let cv = find_block(c, id);
            let dv = find_block(d, id);
            lemma_find_block(b, id);
            lemma_find_block(c, id);
            lemma_find_block(d, id);
            let o = if same_block(cv, bv) {
                dv
            } else {
                cv
            };
            assert(now.0 == m + opt_seq(o));
            assert forall|p: int| 0 <= p < d.len() && find_block(c, block_key(#[trigger] d[p])) is Some implies now.0.map_values(
                |x: Seq<char>| block_key(x),
            ).contains(block_key(d[p])) by {
                lemma_keys_push(m, o, block_key(d[p]));
            }
            assert forall|s: int, t: int| 0 <= s < t < now.0.len() implies {
                let ps = draft_pos(d, block_key(#[trigger] now.0[s]));
                let pt = draft_pos(d, block_key(#[trigger] now.0[t]));
                ps < pt || (ps == d.len() && pt == d.len())
            } by {
                assert(now.0[s] == m[s]);
                lemma_draft_pos(d, block_key(m[s]));
                if t < m.len() {
                    assert(now.0[t] == m[t]);
                } else {
                    assert(now.0[t] == o.unwrap());
                }
            }
        } else {
            assert(now == prev);
        }
    } else {
        lemma_draft_phase(b, c, d, d.len() as int);
        assert(d.take(d.len() as int) =~= d);
        assert(d + c.take(0) =~= d);
        let m = merge_blocks(d, b, c, d).0;
        assert forall|s: int, t: int| 0 <= s < t < m.len() implies {
            let ps = draft_pos(d, block_key(#[trigger] m[s]));
            let pt = draft_pos(d, block_key(#[trigger] m[t]));
            ps < pt || (ps == d.len() && pt == d.len())
        } by {}
    }
}

/// The merged blocks keep the draft's order: a block the draft has comes
/// before every block the draft has later, and the blocks only the current
/// version has come last.
pub proof fn merge_keeps_the_draft_order(b: Seq<Seq<char>>, c: Seq<Seq<char>>, d: Seq<Seq<char>>)
    requires
        distinct_keys(d),
    ensures
        forall|s: int, t: int| 0 <= s < t < merged_blocks(b, c, d).0.len() ==> {
            let ps = draft_pos(d, block_key(#[trigger] merged_blocks(b, c, d).0[s]));
            let pt = draft_pos(d, block_key(#[trigger] merged_blocks(b, c, d).0[t]));
            ps < pt || (ps == d.len() && pt == d.len())
        },
{
    lemma_current_phase(b, c, d, c.len() as int);
    assert(c.take(c.len() as int) =~= c);
}

} // verus!
