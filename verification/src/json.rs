//! What `serde_json` reads from JSON text.
use vstd::prelude::*;
use crate::ids::hex_digit;

verus! {

/// Whether `serde_json` reads the text as a JSON value.
pub uninterp spec fn json_is_valid(data: Seq<char>) -> bool;

/// The string that `serde_json` finds at a JSON pointer, if a string is there.
pub uninterp spec fn json_string_at(data: Seq<char>, pointer: Seq<char>) -> Option<Seq<char>>;

/// The unsigned integer that `serde_json` finds at a JSON pointer, if one is
/// there.
pub uninterp spec fn json_u64_at(data: Seq<char>, pointer: Seq<char>) -> Option<u64>;

/// For an array at a JSON pointer, the `text` string of each item (if it has
/// one), as `serde_json` reads them.
pub uninterp spec fn json_texts_at(data: Seq<char>, pointer: Seq<char>) -> Option<Seq<Option<Seq<char>>>>;

/// `serde_json::from_str::<serde_json::Value>(data).is_ok()`.
#[verifier::external_body]
pub(crate) fn json_parses(data: &str) -> (r: bool)
    ensures
        r == json_is_valid(data@),
{
    serde_json::from_str::<serde_json::Value>(data).is_ok()
}

/// `Value::pointer` followed by `Value::as_str` on the parsed text.
#[verifier::external_body]
pub(crate) fn json_str_at(data: &str, pointer: &str) -> (r: Option<String>)
    ensures
        match r {
            Some(s) => json_string_at(data@, pointer@) == Some(s@),
            None => json_string_at(data@, pointer@) is None,
        },
{
    let value: serde_json::Value = match serde_json::from_str(data) {
        Ok(value) => value,
        Err(_) => return None,
    };
    match value.pointer(pointer) {
        Some(found) => found.as_str().map(str::to_owned),
        None => None,
    }
}

/// `Value::pointer` followed by `Value::as_u64` on the parsed text.
#[verifier::external_body]
pub(crate) fn json_number_at(data: &str, pointer: &str) -> (r: Option<u64>)
    ensures
        r == json_u64_at(data@, pointer@),
{
    let value: serde_json::Value = match serde_json::from_str(data) {
        Ok(value) => value,
        Err(_) => return None,
    };
    match value.pointer(pointer) {
        Some(found) => found.as_u64(),
        None => None,
    }
}

/// `Value::pointer` followed by `Value::as_array`, and for each item
/// `get("text")` with `as_str`, on the parsed text.
#[verifier::external_body]
pub(crate) fn json_text_items_at(data: &str, pointer: &str) -> (r: Option<Vec<Option<String>>>)
    ensures
        match r {
            Some(items) => json_texts_at(data@, pointer@) == Some(
                items@.map_values(|o: Option<String>| match o {
                    Some(s) => Some(s@),
                    None => None,
                }),
            ),
            None => json_texts_at(data@, pointer@) is None,
        },
{
    let value: serde_json::Value = match serde_json::from_str(data) {
        Ok(value) => value,
        Err(_) => return None,
    };
    let items = value.pointer(pointer)?.as_array()?;
    Some(items.iter().map(|item| item.get("text").and_then(serde_json::Value::as_str).map(str::to_owned)).collect())
}

/// The length of the array that `serde_json` finds at a JSON pointer, if an
/// array is there.
pub uninterp spec fn json_array_len_at(data: Seq<char>, pointer: Seq<char>) -> Option<usize>;

/// The message of the error that `serde_json` reports for a text it cannot
/// read as JSON.
pub uninterp spec fn json_error_message(data: Seq<char>) -> Seq<char>;

/// `Value::pointer` followed by `Value::as_array` and `len` on the parsed text.
#[verifier::external_body]
pub(crate) fn json_len_at(data: &str, pointer: &str) -> (r: Option<usize>)
    ensures
        r == json_array_len_at(data@, pointer@),
{
    let value: serde_json::Value = match serde_json::from_str(data) {
        Ok(value) => value,
        Err(_) => return None,
    };
    value.pointer(pointer).and_then(serde_json::Value::as_array).map(Vec::len)
}

/// The `Display` text of the error of `serde_json::from_str::<Value>(data)`;
/// empty when the text parses.
#[verifier::external_body]
pub(crate) fn json_error_text(data: &str) -> (r: String)
    ensures
        !json_is_valid(data@) ==> r@ == json_error_message(data@),
{
    match serde_json::from_str::<serde_json::Value>(data) {
        Ok(_) => String::new(),
        Err(error) => error.to_string(),
    }
}

/// The lowercase hexadecimal SHA-256 digest of the UTF-8 bytes of a text.
pub uninterp spec fn sha256_hex_of(text: Seq<char>) -> Seq<char>;

/// `format!("{:x}", sha2::Sha256::digest(text.as_bytes()))`: the 32 digest
/// bytes as 64 lowercase hex digits.
#[verifier::external_body]
pub(crate) fn sha256_hex(text: &str) -> (r: String)
    ensures
        r@ == sha256_hex_of(text@),
        r@.len() == 64,
{
    format!("{:x}", <sha2::Sha256 as sha2::Digest>::digest(text.as_bytes()))
}

/// For a text that `serde_json` reads as JSON: the items of the root's
/// `content` array (none when the root has no such array), each written back
/// as JSON text by `serde_json::to_string`.
pub uninterp spec fn json_content_items(data: Seq<char>) -> Seq<Seq<char>>;

/// The text `serde_json` writes for a document whose root object's
/// `content` is replaced by the given JSON items (a root that is not an
/// object is written back unchanged).
pub uninterp spec fn json_with_content(data: Seq<char>, items: Seq<Seq<char>>) -> Seq<char>;

/// `serde_json::from_str::<Value>`, then `get("content")`, `as_array`, and
/// `serde_json::to_string` of each item; `None` when the text is not JSON.
/// Each item's text is JSON again.
#[verifier::external_body]
pub(crate) fn json_content_texts(data: &str) -> (r: Option<Vec<String>>)
    ensures
        r is None <==> !json_is_valid(data@),
        match r {
            Some(items) => {
                &&& items@.map_values(|s: String| s@) == json_content_items(data@)
                &&& forall|i: int| 0 <= i < items.len() ==> json_is_valid(#[trigger] items@[i]@)
            },
            None => true,
        },
{
    let value: serde_json::Value = serde_json::from_str(data).ok()?;
    let items = value.get("content").and_then(serde_json::Value::as_array).cloned().unwrap_or_default();
    Some(items.iter().map(serde_json::Value::to_string).collect())
}

/// `serde_json::from_str::<Value>` of the document and of each item, the
/// items set as the root object's `content`, and `serde_json::to_string`.
#[verifier::external_body]
pub(crate) fn json_replace_content(data: &str, items: &Vec<String>) -> (r: String)
    requires
        json_is_valid(data@),
        forall|i: int| 0 <= i < items.len() ==> json_is_valid(#[trigger] items@[i]@),
    ensures
        r@ == json_with_content(data@, items@.map_values(|s: String| s@)),
{
    let mut value: serde_json::Value = serde_json::from_str(data).unwrap_or_default();
    let parsed: Vec<serde_json::Value> = items.iter().map(|item| serde_json::from_str(item).unwrap_or_default()).collect();
    if let Some(object) = value.as_object_mut() {
        object.insert("content".to_owned(), serde_json::Value::Array(parsed));
    }
    value.to_string()
}

/// How `serde_json` writes one character inside a string: quote and
/// backslash escaped, the five common control characters by letter, the
/// other control characters as `\u00` and two lowercase hexadecimal digits,
/// everything else as it is.
pub open spec fn json_escaped(c: char) -> Seq<char> {
    if c == '"' {
        seq!['\\', '"']
    } else if c == '\\' {
        seq!['\\', '\\']
    } else if c == '\x08' {
        seq!['\\', 'b']
    } else if c == '\t' {
        seq!['\\', 't']
    } else if c == '\n' {
        seq!['\\', 'n']
    } else if c == '\x0c' {
        seq!['\\', 'f']
    } else if c == '\r' {
        seq!['\\', 'r']
    } else if (c as int) < 32 {
        seq!['\\', 'u', '0', '0', hex_digit(c as int / 16), hex_digit(c as int % 16)]
    } else {
        seq![c]
    }
}

/// A text with each character written as `json_escaped` writes it.
pub open spec fn json_escaped_text(s: Seq<char>) -> Seq<char>
    decreases s.len(),
{
    if s.len() == 0 {
        seq![]
    } else {
        json_escaped_text(s.drop_last()) + json_escaped(s.last())
    }
}

/// The JSON string literal that `serde_json` writes for a text: the escaped
/// text in double quotes.
#[verifier::opaque]
pub open spec fn json_quoted(text: Seq<char>) -> Seq<char> {
    seq!['"'] + json_escaped_text(text) + seq!['"']
}

/// The lowercase hexadecimal digit of a value below 16.
fn hex_char(d: u8) -> (c: char)
    requires
        d < 16,
    ensures
        c == hex_digit(d as int),
{
    if d < 10 {
        (48u8 + d) as char
    } else {
        (87u8 + d) as char
    }
}

/// Appends a character as `serde_json` writes it inside a string.
fn push_escaped(out: &mut Vec<char>, c: char)
    ensures
        final(out)@ == old(out)@ + json_escaped(c),
{
    let ghost before = out@;
    if c == '"' {
        out.push('\\');
        out.push('"');
    } else if c == '\\' {
        out.push('\\');
        out.push('\\');
    } else if c == '\x08' {
        out.push('\\');
        out.push('b');
    } else if c == '\t' {
        out.push('\\');
        out.push('t');
    } else if c == '\n' {
        out.push('\\');
        out.push('n');
    } else if c == '\x0c' {
        out.push('\\');
        out.push('f');
    } else if c == '\r' {
        out.push('\\');
        out.push('r');
    } else if (c as u32) < 32 {
        let v = c as u8;
        out.push('\\');
        out.push('u');
        out.push('0');
        out.push('0');
        out.push(hex_char(v / 16));
        out.push(hex_char(v % 16));
    } else {
        out.push(c);
    }
    assert(out@ =~= before + json_escaped(c));
}

/// A text as a JSON string literal, written as `serde_json` writes it.
pub(crate) fn json_quote(text: &str) -> (r: String)
    ensures
        r@ == json_quoted(text@),
{
    let chars = crate::text::chars_of(text);
    let mut out: Vec<char> = Vec::new();
    out.push('"');
    let mut i: usize = 0;
    assert(chars@.take(0) =~= Seq::<char>::empty());
    while i < chars.len()
        invariant
            i <= chars.len(),
            chars@ == text@,
            out@ == seq!['"'] + json_escaped_text(chars@.take(i as int)),
        decreases chars.len() - i,
    {
        assert(chars@.take(i + 1).drop_last() =~= chars@.take(i as int));
        assert(chars@.take(i + 1).last() == chars@[i as int]);
        push_escaped(&mut out, chars[i]);
        i = i + 1;
    }
    assert(chars@.take(chars.len() as int) =~= chars@);
    out.push('"');
    proof {
        reveal(json_quoted);
    }
    assert(out@ =~= json_quoted(text@));
    crate::text::string_of(&out)
}

/// Whether a JSON pointer resolves in the text `serde_json` reads.
pub uninterp spec fn json_has(data: Seq<char>, pointer: Seq<char>) -> bool;

/// Whether a JSON pointer resolves to an object in the text `serde_json`
/// reads.
pub uninterp spec fn json_object_at(data: Seq<char>, pointer: Seq<char>) -> bool;

/// The text `serde_json` writes for a JSON text after setting, in turn for
/// each node pointer and its id, the string `attrs.blockId` of the object at
/// that pointer (creating an empty `attrs` object when it has none); object
/// keys are written in order.
pub uninterp spec fn json_with_block_ids(data: Seq<char>, nodes: Seq<Seq<char>>, ids: Seq<Seq<char>>) -> Seq<char>;

/// `Value::pointer(..).is_some()` on the parsed text.
#[verifier::external_body]
pub(crate) fn json_has_at(data: &str, pointer: &str) -> (r: bool)
    ensures
        r == json_has(data@, pointer@),
{
    match serde_json::from_str::<serde_json::Value>(data) {
        Ok(value) => value.pointer(pointer).is_some(),
        Err(_) => false,
    }
}

/// `Value::pointer(..)` followed by `Value::is_object` on the parsed text.
#[verifier::external_body]
pub(crate) fn json_is_object_at(data: &str, pointer: &str) -> (r: bool)
    ensures
        r == json_object_at(data@, pointer@),
{
    match serde_json::from_str::<serde_json::Value>(data) {
        Ok(value) => value.pointer(pointer).map_or(false, serde_json::Value::is_object),
        Err(_) => false,
    }
}

/// Parses the text once, sets `attrs.blockId` of the object at each pointer
/// to the id at the same place (`Value::pointer_mut`, `Map::entry(..).or_insert`
/// for `attrs`, `Map::insert` for the id), and writes the value once with
/// `Value::to_string`.
#[verifier::external_body]
pub(crate) fn json_set_block_ids(data: &str, nodes: &Vec<String>, ids: &Vec<String>) -> (r: String)
    requires
        json_is_valid(data@),
        nodes.len() == ids.len(),
    ensures
        r@ == json_with_block_ids(data@, nodes@.map_values(|s: String| s@), ids@.map_values(|s: String| s@)),
{
    let mut value: serde_json::Value = serde_json::from_str(data).unwrap_or_default();
    for (node, id) in nodes.iter().zip(ids.iter()) {
        if let Some(object) = value.pointer_mut(node).and_then(serde_json::Value::as_object_mut) {
            let attrs = object.entry("attrs").or_insert(serde_json::Value::Object(serde_json::Map::new()));
            if let Some(attrs) = attrs.as_object_mut() {
                attrs.insert("blockId".to_owned(), serde_json::Value::String(id.clone()));
            }
        }
    }
    value.to_string()
}

/// Whether `serde_json` reads both texts as JSON and the two values are
/// equal (`Value`'s `==`: numbers by their `serde_json` representation, so
/// `1` and `1.0` differ, and objects by their entries).
pub uninterp spec fn json_same_value(a: Seq<char>, b: Seq<char>) -> bool;

/// Parses both texts and compares the values with `Value`'s `==`; false
/// when either is not JSON.
#[verifier::external_body]
pub(crate) fn json_values_equal(a: &str, b: &str) -> (r: bool)
    ensures
        r == json_same_value(a@, b@),
{
    match (serde_json::from_str::<serde_json::Value>(a), serde_json::from_str::<serde_json::Value>(b)) {
        (Ok(x), Ok(y)) => x == y,
        _ => false,
    }
}

} // verus!
