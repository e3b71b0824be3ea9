//! JSON text: string quoting and the reading of a request body, both by `serde_json`.
use vstd::prelude::*;

verus! {

pub open spec fn hex_digit(d: u32) -> char {
    if d < 10 {
        ((d + 48) as u32) as char
    } else {
        ((d + 87) as u32) as char
    }
}

/// How `serde_json` writes one character inside a string: `"` and `\` are
/// backslash-escaped, the control characters below U+0020 take their short
/// escape (`\b \t \n \f \r`) or `\u00XX` in lowercase hex, and every other
/// character stands for itself.
pub open spec fn json_char(c: char) -> Seq<char> {
    let u = c as u32;
    if c == '"' {
        seq!['\\', '"']
    } else if c == '\\' {
        seq!['\\', '\\']
    } else if u == 0x08 {
        seq!['\\', 'b']
    } else if u == 0x09 {
        seq!['\\', 't']
    } else if u == 0x0a {
        seq!['\\', 'n']
    } else if u == 0x0c {
        seq!['\\', 'f']
    } else if u == 0x0d {
        seq!['\\', 'r']
    } else if u < 0x20 {
        seq!['\\', 'u', '0', '0', hex_digit(u / 16), hex_digit(u % 16)]
    } else {
        seq![c]
    }
}

pub open spec fn json_escape(s: Seq<char>) -> Seq<char>
    decreases s.len(),
{
    if s.len() == 0 {
        Seq::empty()
    } else {
        json_escape(s.drop_last()) + json_char(s.last())
    }
}

/// The JSON text of a string value.
pub open spec fn json_string(s: Seq<char>) -> Seq<char> {
    seq!['"'] + json_escape(s) + seq!['"']
}

/// `serde_json::to_string(s)` for a string: `s` in quotes, escaped as
/// `json_char` says (serde_json's `format_escaped_str`). Serializing a string
/// cannot fail.
#[verifier::external_body]
pub(crate) fn json_quote(s: &str) -> (r: String)
    ensures
        r@ == json_string(s@),
{
    serde_json::to_string(s).unwrap_or_default()
}

/// `{"<key>":<value as a JSON string>}`, as `serde_json::json!` writes a
/// one-member object.
pub open spec fn json_object1(key: Seq<char>, value: Seq<char>) -> Seq<char> {
    seq!['{'] + json_string(key) + seq![':'] + json_string(value) + seq!['}']
}

/// `{"error":"<msg>"}`.
pub fn json_err(msg: &str) -> (r: String)
    ensures
        r@ == json_object1("error"@, msg@),
{
    let mut r = String::from_str("{");
    let k = json_quote("error");
    r.append(k.as_str());
    r.append(":");
    let v = json_quote(msg);
    r.append(v.as_str());
    r.append("}");
    proof {
        reveal_strlit("{");
        reveal_strlit(":");
        reveal_strlit("}");
        assert(r@ =~= json_object1("error"@, msg@));
    }
    r
}

/// What `serde_json::from_str::<serde_json::Value>` makes of a text, as far as
/// a configuration body is read: an error message, a non-object (`None`), or
/// the object's members in the map's order, each with its value as a `u64`
/// when it is a non-negative integer.
pub uninterp spec fn parsed_json_members(body: Seq<char>) -> Result<
    Option<Seq<(Seq<char>, Option<u64>)>>,
    Seq<char>,
>;

pub open spec fn members_view(r: Result<Option<Vec<(String, Option<u64>)>>, String>) -> Result<
    Option<Seq<(Seq<char>, Option<u64>)>>,
    Seq<char>,
> {
    match r {
        Ok(Some(v)) => Ok(Some(v.deep_view())),
        Ok(None) => Ok(None),
        Err(e) => Err(e@),
    }
}

/// Parse a request body with `serde_json::from_str::<serde_json::Value>`: the
/// error's message (its `Display`), `None` for any value that is not an
/// object, or the object's keys (as `serde_json::Map` iterates them) each with
/// `Value::as_u64` of its value. The contract names the result and says no more.
#[verifier::external_body]
pub(crate) fn json_members(body: &str) -> (r: Result<Option<Vec<(String, Option<u64>)>>, String>)
    ensures
        members_view(r) == parsed_json_members(body@),
{
    match serde_json::from_str::<serde_json::Value>(body) {
        Err(e) => Err(e.to_string()),
        Ok(serde_json::Value::Object(m)) => Ok(
            Some(m.iter().map(|(k, v)| (k.clone(), v.as_u64())).collect()),
        ),
        Ok(_) => Ok(None),
    }
}

} // verus!
