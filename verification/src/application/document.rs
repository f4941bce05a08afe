//! The plain text of an editor document given as JSON.
use vstd::prelude::*;
use crate::json::{
    json_array_len_at, json_error_message, json_error_text, json_is_valid, json_len_at,
    json_parses, json_str_at, json_string_at,
};
use crate::text::{chars_of, decimal, extend_chars, extend_str, push_decimal, string_of, trim, trim_chars};

verus! {

/// The text of the node at pointer `p` and its children: a text node's text,
/// then its children in order, then a line break after a paragraph. Nesting
/// deeper than `fuel` levels is not read.
pub open spec fn node_text(data: Seq<char>, p: Seq<char>, fuel: nat) -> Seq<char>
    decreases fuel, 0nat,
{
    if fuel == 0 {
        seq![]
    } else {
        let own = if json_string_at(data, p + "/type"@) == Some("text"@) {
            match json_string_at(data, p + "/text"@) {
                Some(t) => t,
                None => seq![],
            }
        } else {
            seq![]
        };
        match json_array_len_at(data, p + "/content"@) {
            None => own,
            Some(n) => own + children_text(data, p, n as nat, (fuel - 1) as nat) + if json_string_at(
                data,
                p + "/type"@,
            ) == Some("paragraph"@) {
                "\n"@
            } else {
                seq![]
            },
        }
    }
}

/// The text of the first `n` children of the node at `p`.
pub open spec fn children_text(data: Seq<char>, p: Seq<char>, n: nat, fuel: nat) -> Seq<char>
    decreases fuel, n + 1,
{
    if n == 0 {
        seq![]
    } else {
        children_text(data, p, (n - 1) as nat, fuel) + node_text(
            data,
            p + "/content/"@ + decimal((n - 1) as nat),
            fuel,
        )
    }
}

/// `document_text`: the trimmed text of a document whose root type is `doc`,
/// or why it cannot be read. (A JSON text nests no deeper than it is long, so
/// reading to that depth reads the whole document.)
pub open spec fn document_text(data: Seq<char>) -> Result<Seq<char>, Seq<char>> {
    if !json_is_valid(data) {
        Err(json_error_message(data))
    } else if json_string_at(data, "/type"@) != Some("doc"@) {
        Err("root type must be doc"@)
    } else {
        Ok(trim(node_text(data, seq![], data.len())))
    }
}

fn is_str_at(data: &str, pointer: &Vec<char>, value: &str) -> (r: bool)
    ensures
        r == (json_string_at(data@, pointer@) == Some(value@)),
{
    let p = string_of(pointer);
    match json_str_at(data, p.as_str()) {
        Some(s) => crate::text::str_eq(s.as_str(), value),
        None => false,
    }
}

fn with_suffix(p: &Vec<char>, s: &str) -> (r: Vec<char>)
    ensures
        r@ == p@ + s@,
{
    let mut r = crate::text::slice_chars(p, 0, p.len());
    extend_str(&mut r, s);
    r
}

fn node_text_into(data: &str, p: &Vec<char>, fuel: usize, out: &mut Vec<char>)
    ensures
        final(out)@ == old(out)@ + node_text(data@, p@, fuel as nat),
    decreases fuel, 0nat,
{
    if fuel == 0 {
        assert(final(out)@ =~= old(out)@ + node_text(data@, p@, fuel as nat));
        return;
    }
    let ghost start = out@;
    let type_p = with_suffix(p, "/type");
    if is_str_at(data, &type_p, "text") {
        let text_p = string_of(&with_suffix(p, "/text"));
        match json_str_at(data, text_p.as_str()) {
            Some(t) => extend_str(out, t.as_str()),
            None => {},
        }
    }
    let ghost own = out@.skip(start.len() as int);
    assert(out@ =~= start + own);
    let content_p = string_of(&with_suffix(p, "/content"));
    match json_len_at(data, content_p.as_str()) {
        None => {
            assert(out@ =~= start + node_text(data@, p@, fuel as nat));
        },
        Some(n) => {
            let mut i: usize = 0;
            let ghost mid = out@;
            assert(mid =~= start + own + children_text(data@, p@, 0, (fuel - 1) as nat));
            while i < n
                invariant
                    i <= n,
                    fuel > 0,
                    out@ == start + own + children_text(data@, p@, i as nat, (fuel - 1) as nat),
                decreases n - i,
            {
                let mut child = with_suffix(p, "/content/");
                push_decimal(&mut child, i as u128);
                node_text_into(data, &child, fuel - 1, out);
                i = i + 1;
                assert(out@ =~= start + own + children_text(data@, p@, i as nat, (fuel - 1) as nat));
            }
            if is_str_at(data, &type_p, "paragraph") {
                out.push('\n');
            }
            assert(out@ =~= start + node_text(data@, p@, fuel as nat)) by {
                reveal_strlit("\n");
            };
        },
    }
}

/// Reads the plain text of an editor document given as JSON.
pub fn document_text_of(document_json: &str) -> (r: Result<String, String>)
    ensures
        match r {
            Ok(t) => document_text(document_json@) == Ok::<Seq<char>, Seq<char>>(t@),
            Err(e) => document_text(document_json@) == Err::<Seq<char>, Seq<char>>(e@),
        },
{
    if !json_parses(document_json) {
        return Err(json_error_text(document_json));
    }
    let root_type = Vec::new();
    let type_p = with_suffix(&root_type, "/type");
    if !is_str_at(document_json, &type_p, "doc") {
        return Err(String::from_str("root type must be doc"));
    }
    let mut out: Vec<char> = Vec::new();
    let len = chars_of(document_json).len();
    node_text_into(document_json, &root_type, len, &mut out);
    assert(out@ =~= node_text(document_json@, seq![], document_json@.len()));
    Ok(string_of(&trim_chars(&out)))
}

} // verus!
