//! JSON text: quoting a string as a JSON literal, and reading the members of
//! a JSON object.

use vstd::prelude::*;

use crate::text::{chars_eq_str, chars_of};

verus! {

/// A lower-case hexadecimal digit.
pub open spec fn hex_lower(d: int) -> char {
    if d < 10 {
        (d + 48) as char
    } else {
        (d + 87) as char
    }
}

/// How one character is written inside a JSON string literal: quote and
/// backslash are escaped, the usual control characters get their short
/// escapes, the other control characters below U+0020 are written as
/// `\u00xx`, and every other character stands for itself.
pub open spec fn json_escape_char(c: char) -> Seq<char> {
    if c == '"' {
        seq!['\\', '"']
    } else if c == '\\' {
        seq!['\\', '\\']
    } else if c == '\x08' {
        seq!['\\', 'b']
    } else if c == '\t' {
        seq!['\\', 't']
    } else if c == '\n' {
        seq!['\\', 'n']
    } else if c == '\x0c' {
        seq!['\\', 'f']
    } else if c == '\r' {
        seq!['\\', 'r']
    } else if (c as int) < 32 {
        seq!['\\', 'u', '0', '0', hex_lower((c as int) / 16), hex_lower((c as int) % 16)]
    } else {
        seq![c]
    }
}

/// The escaped contents of a JSON string literal.
pub open spec fn json_escape(s: Seq<char>) -> Seq<char>
    decreases s.len(),
{
    if s.len() == 0 {
        Seq::empty()
    } else {
        json_escape(s.drop_last()) + json_escape_char(s.last())
    }
}

/// A text written as a JSON string literal.
pub open spec fn json_quoted(s: Seq<char>) -> Seq<char> {
    seq!['"'] + json_escape(s) + seq!['"']
}

/// `serde_json::to_string` on a string slice: the JSON string literal, with
/// the escapes that `serde_json`'s serializer writes (its `ESCAPE` table).
/// Serializing a `str` cannot fail.
#[verifier::external_body]
pub fn json_quote(s: &str) -> (r: String)
    ensures
        r@ == json_quoted(s@),
{
    match serde_json::to_string(s) {
        Ok(t) => t,
        Err(_) => String::new(),
    }
}

/// What `serde_json` reads from a text when that text is a JSON object: its
/// members in document order (the dependency set of this crate turns on
/// `serde_json`'s `preserve_order`), each as its key, its contents when it is
/// a JSON string, and its compact JSON text. `None` for any other text.
pub uninterp spec fn json_object_members(text: Seq<char>) -> Option<Seq<(Seq<char>, Option<Seq<char>>, Seq<char>)>>;

/// The character views of one member.
pub open spec fn member_view(m: (String, Option<String>, String)) -> (Seq<char>, Option<Seq<char>>, Seq<char>) {
    (
        m.0@,
        match m.1 {
            Some(s) => Some(s@),
            None => None,
        },
        m.2@,
    )
}

/// The character views of a list of members.
pub open spec fn member_views(v: Seq<(String, Option<String>, String)>) -> Seq<(Seq<char>, Option<Seq<char>>, Seq<char>)> {
    v.map_values(|m: (String, Option<String>, String)| member_view(m))
}

/// `serde_json::from_str::<serde_json::Value>`, then the members of the value
/// when it is an object: each key with `Value::as_str` and `Value::to_string`
/// of its value. The result is named by `json_object_members`.
#[verifier::external_body]
pub fn parse_json_object(text: &str) -> (r: Option<Vec<(String, Option<String>, String)>>)
    ensures
        match r {
            Some(v) => json_object_members(text@) == Some(member_views(v@)),
            None => json_object_members(text@) is None,
        },
{
    match serde_json::from_str::<serde_json::Value>(text) {
        Ok(serde_json::Value::Object(map)) => {
            let mut out = Vec::new();
            for (k, v) in map.iter() {
                out.push((k.clone(), v.as_str().map(String::from), v.to_string()));
            }
            Some(out)
        },
        _ => None,
    }
}

/// The first member with the given key: its string contents, if it is a
/// string, and its JSON text.
pub open spec fn member_lookup(
    ms: Seq<(Seq<char>, Option<Seq<char>>, Seq<char>)>,
    key: Seq<char>,
) -> Option<(Option<Seq<char>>, Seq<char>)>
    decreases ms.len(),
{
    if ms.len() == 0 {
        None
    } else if ms[0].0 == key {
        Some((ms[0].1, ms[0].2))
    } else {
        member_lookup(ms.drop_first(), key)
    }
}

/// Finds the first member with the given key.
pub fn find_member(ms: &Vec<(String, Option<String>, String)>, key: &str) -> (r: Option<(Option<String>, String)>)
    ensures
        match r {
            Some((s, t)) => member_lookup(member_views(ms@), key@) == Some(
                (
                    match s {
                        Some(x) => Some(x@),
                        None => None,
                    },
                    t@,
                ),
            ),
            None => member_lookup(member_views(ms@), key@) is None,
        },
{
    let mut i: usize = 0;
    assert(member_views(ms@).skip(0) =~= member_views(ms@));
    while i < ms.len()
        invariant
            i <= ms.len(),
            member_lookup(member_views(ms@), key@) == member_lookup(member_views(ms@).skip(i as int), key@),
        decreases ms.len() - i,
    {
        let ghost rest = member_views(ms@).skip(i as int);
        assert(rest[0] == member_view(ms@[i as int]));
        assert(rest.drop_first() =~= member_views(ms@).skip(i + 1));
        let k = chars_of(ms[i].0.as_str());
        if chars_eq_str(k.as_slice(), key) {
            let s = match &ms[i].1 {
                Some(x) => Some(x.clone()),
                None => None,
            };
            return Some((s, ms[i].2.clone()));
        }
        i = i + 1;
    }
    None
}

/// The compact JSON text of the value a text holds, when the text is JSON:
/// what `serde_json` writes back for what it reads (members in document
/// order).
pub uninterp spec fn json_compact(text: Seq<char>) -> Option<Seq<char>>;

/// `serde_json::from_str::<serde_json::Value>`, then `Value::to_string` of the
/// value read; `None` when the text is not JSON. The result is named by
/// `json_compact`.
#[verifier::external_body]
pub fn json_compact_text(text: &str) -> (r: Option<String>)
    ensures
        match r {
            Some(t) => json_compact(text@) == Some(t@),
            None => json_compact(text@) is None,
        },
{
    match serde_json::from_str::<serde_json::Value>(text) {
        Ok(v) => Some(v.to_string()),
        Err(_) => None,
    }
}

} // verus!
