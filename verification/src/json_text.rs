//! JSON text for outgoing messages: strings are quoted by `serde_json`,
//! objects and arrays are framed here, compact, with object keys in sorted
//! order as `serde_json` writes its maps.

use vstd::prelude::*;

verus! {

broadcast use vstd::string::group_string_axioms;

/// A lower-case hexadecimal digit.
pub open spec fn hex_digit(n: int) -> char {
    if n < 10 {
        (48 + n) as char
    } else {
        (87 + n) as char
    }
}

/// How `serde_json` writes one character inside a string: quote and
/// backslash behind a backslash, backspace, tab, line feed, form feed and
/// carriage return as `\b \t \n \f \r`, other control characters below
/// U+0020 as `\u00XX` in lower-case hexadecimal, every other character as
/// it is.
pub open spec fn escaped_char(c: char) -> Seq<char> {
    let n = c as int;
    if c == '"' {
        seq!['\\', '"']
    } else if c == '\\' {
        seq!['\\', '\\']
    } else if n == 0x08 {
        seq!['\\', 'b']
    } else if n == 0x09 {
        seq!['\\', 't']
    } else if n == 0x0A {
        seq!['\\', 'n']
    } else if n == 0x0C {
        seq!['\\', 'f']
    } else if n == 0x0D {
        seq!['\\', 'r']
    } else if n < 0x20 {
        seq!['\\', 'u', '0', '0', hex_digit(n / 16), hex_digit(n % 16)]
    } else {
        seq![c]
    }
}

/// The characters of a text, each written as `serde_json` writes it.
pub open spec fn escaped(s: Seq<char>) -> Seq<char>
    decreases s.len(),
{
    if s.len() == 0 {
        Seq::empty()
    } else {
        escaped(s.drop_last()) + escaped_char(s.last())
    }
}

/// What `serde_json::to_string` writes for a string: the escaped text
/// between double quotes.
pub open spec fn json_quoted(s: Seq<char>) -> Seq<char> {
    seq!['"'] + escaped(s) + seq!['"']
}

/// `serde_json::to_string` on a `&str`: the text quoted and escaped as
/// `json_quoted` states (serde_json's `format_escaped_str`). The source of `serde_json` serializes a string into a `Vec<u8>`,
/// whose writes never fail, so the call always returns `Ok`.
#[verifier::external_body]
fn serde_quote(s: &str) -> (r: Result<String, String>)
    ensures
        r is Ok,
        r matches Ok(q) ==> q@ == json_quoted(s@),
{
    match serde_json::to_string(s) {
        Ok(q) => Ok(q),
        Err(e) => Err(e.to_string()),
    }
}

/// The JSON text of a string.
pub fn quote(s: &str) -> (r: String)
    ensures
        r@ == json_quoted(s@),
{
    match serde_quote(s) {
        Ok(q) => q,
        Err(_) => String::new(),
    }
}

/// Items joined by commas.
pub open spec fn comma_joined(items: Seq<Seq<char>>) -> Seq<char>
    decreases items.len(),
{
    if items.len() == 0 {
        Seq::empty()
    } else if items.len() == 1 {
        items[0]
    } else {
        comma_joined(items.drop_last()) + ","@ + items.last()
    }
}

/// A JSON array of strings.
pub open spec fn string_array(items: Seq<Seq<char>>) -> Seq<char> {
    "["@ + comma_joined(items.map_values(|s: Seq<char>| json_quoted(s))) + "]"@
}

/// `"key":value`.
pub open spec fn member_text(key: Seq<char>, value: Seq<char>) -> Seq<char> {
    json_quoted(key) + ":"@ + value
}

/// The JSON text of an array of strings.
pub fn array_of_strings(items: &Vec<String>) -> (r: String)
    ensures
        r@ == string_array(items@.map_values(|s: String| s@)),
{
    let ghost views = items@.map_values(|s: String| s@);
    let ghost quoted = views.map_values(|s: Seq<char>| json_quoted(s));
    let mut body = String::new();
    let mut i: usize = 0;
    while i < items.len()
        invariant
            i <= items@.len(),
            views == items@.map_values(|s: String| s@),
            quoted == views.map_values(|s: Seq<char>| json_quoted(s)),
            body@ == comma_joined(quoted.take(i as int)),
        decreases items@.len() - i,
    {
        assert(quoted.take(i + 1).drop_last() =~= quoted.take(i as int));
        if i > 0 {
            body.append(",");
        }
        let q = quote(items[i].as_str());
        body.append(q.as_str());
        proof {
            if i == 0 {
                assert(quoted.take(1) =~= seq![quoted[0]]);
            }
        }
        i = i + 1;
    }
    assert(quoted.take(items@.len() as int) =~= quoted);
    let mut out = "[".to_string();
    out.append(body.as_str());
    out.append("]");
    out
}

/// Appends `"key":value` to a text.
pub fn push_member(out: &mut String, key: &str, value: &str)
    ensures
        final(out)@ == old(out)@ + member_text(key@, value@),
{
    let q = quote(key);
    out.append(q.as_str());
    out.append(":");
    out.append(value);
}

} // verus!
