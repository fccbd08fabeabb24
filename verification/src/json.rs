//! What the bridge needs of JSON: reading members and texts out of a parsed value, and
//! writing a text as a JSON string.
//!
//! The values are those of `serde_json`, which parses and prints them. Nothing here looks
//! inside a `Value`: `json_member` and `json_text` name what `Value::get` and `Value::as_str`
//! answer, and the contracts of this library speak of a value through these two names.

use vstd::prelude::*;
use serde_json::Value;

verus! {

/// `serde_json::Value`, a parsed JSON value of any shape.
#[verifier::external_type_specification]
#[verifier::external_body]
pub struct ExValue(serde_json::Value);

/// The member that the JSON value `v` has under `key`: the value stored under that key if `v`
/// is an object that holds the key, and none if it holds no such key or is no object.
pub uninterp spec fn json_member(v: Value, key: Seq<char>) -> Option<Value>;

/// The text of the JSON value `v`, if `v` is a string, and none if it is anything else.
pub uninterp spec fn json_text(v: Value) -> Option<Seq<char>>;

/// `Value::get` of `serde_json` with a string as the index. The contract names the answer:
/// it is `json_member` of the value and the key, so the same value and key always give the
/// same member.
#[verifier::external_body]
pub(crate) fn member<'a>(v: &'a Value, key: &str) -> (r: Option<&'a Value>)
    ensures
        match r {
            Some(m) => json_member(*v, key@) == Some(*m),
            None => json_member(*v, key@) is None,
        },
{
    v.get(key)
}

/// `Value::as_str` of `serde_json`. The contract names the answer: it is `json_text` of the
/// value.
#[verifier::external_body]
pub(crate) fn text<'a>(v: &'a Value) -> (r: Option<&'a str>)
    ensures
        match r {
            Some(t) => json_text(*v) == Some(t@),
            None => json_text(*v) is None,
        },
{
    v.as_str()
}

/// The text of the member of `v` under `key`, if `v` has that member and it is a string.
pub open spec fn text_at(v: Value, key: Seq<char>) -> Option<Seq<char>> {
    match json_member(v, key) {
        Some(m) => json_text(m),
        None => None,
    }
}

/// `found`, or `default` where nothing was found.
pub open spec fn text_or(found: Option<Seq<char>>, default: Seq<char>) -> Seq<char> {
    match found {
        Some(t) => t,
        None => default,
    }
}

/// Reads the text of the member of `v` under `key`.
pub fn member_text<'a>(v: &'a Value, key: &str) -> (r: Option<&'a str>)
    ensures
        match r {
            Some(t) => text_at(*v, key@) == Some(t@),
            None => text_at(*v, key@) is None,
        },
{
    match member(v, key) {
        Some(m) => text(m),
        None => None,
    }
}

/// The hexadecimal digit for `n`, in lower case, for `n` below sixteen.
pub open spec fn hex_digit(n: nat) -> char {
    if n < 10 {
        (n + 0x30) as char
    } else {
        (n + 0x57) as char
    }
}

/// How one character stands inside a JSON string. The quotation mark and the backslash get a
/// backslash before them. The control characters below the blank are written as a backslash
/// and a letter where JSON has one for them (`b`, `t`, `n`, `f`, `r`), and the others as
/// `\u00` and two hexadecimal digits. Every other character stands for itself.
pub open spec fn escape_of(c: char) -> Seq<char> {
    let n = c as u32;
    if c == '"' {
        seq!['\\', '"']
    } else if c == '\\' {
        seq!['\\', '\\']
    } else if n == 0x08 {
        seq!['\\', 'b']
    } else if n == 0x09 {
        seq!['\\', 't']
    } else if n == 0x0A {
        seq!['\\', 'n']
    } else if n == 0x0C {
        seq!['\\', 'f']
    } else if n == 0x0D {
        seq!['\\', 'r']
    } else if n < 0x20 {
        seq!['\\', 'u', '0', '0', hex_digit((n / 16) as nat), hex_digit((n % 16) as nat)]
    } else {
        seq![c]
    }
}

/// The characters of `s` as they stand inside a JSON string.
pub open spec fn escaped(s: Seq<char>) -> Seq<char>
    decreases s.len(),
{
    if s.len() == 0 {
        Seq::empty()
    } else {
        escape_of(s[0]) + escaped(s.skip(1))
    }
}

/// `s` as a JSON string: its escaped characters between two quotation marks.
pub open spec fn quoted(s: Seq<char>) -> Seq<char> {
    seq!['"'] + escaped(s) + seq!['"']
}

/// `serde_json::to_string` for a `str`. The contract claims that the call succeeds, as it
/// writes into memory and a string has nothing that could not be written, and that it returns
/// the JSON string for `s` as `quoted` states it: the escapes of `serde_json`'s table, in
/// lower case, and every other character unchanged.
#[verifier::external_body]
pub(crate) fn quote(s: &str) -> (r: Option<String>)
    ensures
        r is Some,
        r.unwrap()@ == quoted(s@),
{
    serde_json::to_string(s).ok()
}

/// Appends `s` as a JSON string.
pub fn push_quoted(out: &mut String, s: &str)
    ensures
        final(out)@ == old(out)@ + quoted(s@),
{
    match quote(s) {
        Some(q) => {
            out.append(q.as_str());
        },
        None => {},
    }
}

/// The number that a hexadecimal digit stands for.
pub open spec fn hex_value(c: char) -> Option<nat> {
    if '0' <= c <= '9' {
        Some((c as u32 - 0x30) as nat)
    } else if 'a' <= c <= 'f' {
        Some((c as u32 - 0x57) as nat)
    } else {
        None
    }
}

/// The character that a backslash and `c` stand for, where they stand for one.
pub open spec fn short_escape(c: char) -> Option<char> {
    if c == '"' {
        Some('"')
    } else if c == '\\' {
        Some('\\')
    } else if c == 'b' {
        Some(0x08 as char)
    } else if c == 't' {
        Some(0x09 as char)
    } else if c == 'n' {
        Some(0x0A as char)
    } else if c == 'f' {
        Some(0x0C as char)
    } else if c == 'r' {
        Some(0x0D as char)
    } else {
        None
    }
}

/// `c` put before the text that was read, if one was read.
pub open spec fn after(c: char, read: Option<(Seq<char>, Seq<char>)>) -> Option<
    (Seq<char>, Seq<char>),
> {
    match read {
        Some((s, rest)) => Some((seq![c] + s, rest)),
        None => None,
    }
}

/// Reads the inside of a JSON string from the start of `t` up to the quotation mark that
/// closes it: the text that it stands for, and what follows the closing mark. It reads the
/// escapes that `escape_of` writes, and nothing where `t` holds another escape or no closing
/// mark.
pub open spec fn unescaped(t: Seq<char>) -> Option<(Seq<char>, Seq<char>)>
    decreases t.len(),
{
    if t.len() == 0 {
        None
    } else if t[0] == '"' {
        Some((Seq::empty(), t.skip(1)))
    } else if t[0] != '\\' {
        after(t[0], unescaped(t.skip(1)))
    } else if t.len() < 2 {
        None
    } else if t[1] != 'u' {
        match short_escape(t[1]) {
            Some(c) => after(c, unescaped(t.skip(2))),
            None => None,
        }
    } else if t.len() >= 6 && t[2] == '0' && t[3] == '0' {
        match (hex_value(t[4]), hex_value(t[5])) {
            (Some(high), Some(low)) => after((high * 16 + low) as char, unescaped(t.skip(6))),
            _ => None,
        }
    } else {
        None
    }
}

/// Reads a JSON string from the start of `t`: the text that it stands for, and what follows it.
pub open spec fn unquoted(t: Seq<char>) -> Option<(Seq<char>, Seq<char>)> {
    if t.len() > 0 && t[0] == '"' {
        unescaped(t.skip(1))
    } else {
        None
    }
}

/// Reading one written character gives it back, and goes on with what follows it.
pub proof fn lemma_unescaped_escape(c: char, tail: Seq<char>)
    ensures
        unescaped(escape_of(c) + tail) == after(c, unescaped(tail)),
{
    let e = escape_of(c);
    let t = e + tail;
    let n = c as u32;
    if e.len() == 1 {
        assert(t.skip(1) == tail);
    } else if e.len() == 2 {
        assert(t.skip(2) == tail);
        assert(short_escape(t[1]) == Some(c));
    } else {
        assert(t.skip(6) == tail);
        let high = (n / 16) as nat;
        let low = (n % 16) as nat;
        assert(hex_value(t[4]) == Some(high));
        assert(hex_value(t[5]) == Some(low));
        assert((high * 16 + low) as char == c);
    }
}

/// Reading the inside of a written string gives the text back, whatever follows the string.
pub proof fn lemma_unescaped_escaped(s: Seq<char>, rest: Seq<char>)
    ensures
        unescaped(escaped(s) + seq!['"'] + rest) == Some((s, rest)),
    decreases s.len(),
{
    let t = escaped(s) + seq!['"'] + rest;
    if s.len() == 0 {
        assert(t.skip(1) == rest);
    } else {
        let tail = escaped(s.skip(1)) + seq!['"'] + rest;
        lemma_unescaped_escaped(s.skip(1), rest);
        lemma_unescaped_escape(s[0], tail);
        assert(t == escape_of(s[0]) + tail);
        assert(seq![s[0]] + s.skip(1) == s);
    }
}

/// Reading a written string gives the text back, whatever follows the string.
pub proof fn lemma_unquoted_quoted(s: Seq<char>, rest: Seq<char>)
    ensures
        unquoted(quoted(s) + rest) == Some((s, rest)),
{
    let t = quoted(s) + rest;
    lemma_unescaped_escaped(s, rest);
    assert(t.skip(1) == escaped(s) + seq!['"'] + rest);
}

} // verus!
