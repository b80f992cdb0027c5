use vstd::prelude::*;
use vstd::string::*;

verus! {

/// The error type of `serde_json`'s serialisation functions.
#[verifier::external_type_specification]
#[verifier::external_body]
pub struct ExJsonError(serde_json::Error);

/// A JSON value as the formatting logic reads it.
///
/// A number is held as the text by which JSON writes it (the decimal or
/// exponent form that `serde_json` prints); the members of an object are held
/// in the order in which they are listed.
#[derive(Debug)]
pub enum JsonValue {
    Null,
    Bool(bool),
    Number(String),
    String(String),
    Array(Vec<JsonValue>),
    Object(Vec<(String, JsonValue)>),
}

/// Lower-case hexadecimal digit of `n` (for `0 <= n < 16`).
pub open spec fn hex_digit(n: int) -> char {
    if n < 10 {
        (('0' as int) + n) as char
    } else {
        (('a' as int) + (n - 10)) as char
    }
}

/// How one character is written inside a JSON string literal: the quote,
/// the backslash and the control characters below U+0020 are escaped (the
/// usual short forms where JSON has one, `\u00XX` otherwise); every other
/// character stands for itself.
pub open spec fn escaped_char(c: char) -> Seq<char> {
    if c == '"' {
        seq!['\\', '"']
    } else if c == '\\' {
        seq!['\\', '\\']
    } else if c == '\u{8}' {
        seq!['\\', 'b']
    } else if c == '\t' {
        seq!['\\', 't']
    } else if c == '\n' {
        seq!['\\', 'n']
    } else if c == '\u{c}' {
        seq!['\\', 'f']
    } else if c == '\r' {
        seq!['\\', 'r']
    } else if (c as int) < 0x20 {
        seq!['\\', 'u', '0', '0', hex_digit((c as int) / 16), hex_digit((c as int) % 16)]
    } else {
        seq![c]
    }
}

/// The characters of `s`, each escaped.
pub open spec fn escaped(s: Seq<char>) -> Seq<char>
    decreases s.len(),
{
    if s.len() == 0 {
        seq![]
    } else {
        escaped(s.drop_last()) + escaped_char(s.last())
    }
}

/// The JSON string literal that denotes `s`.
pub open spec fn quoted(s: Seq<char>) -> Seq<char> {
    seq!['"'] + escaped(s) + seq!['"']
}

/// The pretty JSON text of a value as `serde_json::to_string_pretty` writes
/// it, for a value that starts after the indentation `indent`: an empty array
/// or object is `[]` or `{}`; otherwise each element or member stands on a
/// line of its own, indented two spaces further, and the closing bracket
/// returns to `indent`; a member is its key, `": "` and its value.
pub open spec fn pretty(v: JsonValue, indent: Seq<char>) -> Seq<char>
    decreases v,
{
    match v {
        JsonValue::Array(items) => if items@.len() == 0 {
            "[]"@
        } else {
            "["@ + pretty_items(items@, indent + "  "@) + "\n"@ + indent + "]"@
        },
        JsonValue::Object(entries) => if entries@.len() == 0 {
            "{}"@
        } else {
            "{"@ + pretty_entries(entries@, indent + "  "@) + "\n"@ + indent + "}"@
        },
        _ => compact(v),
    }
}

/// The line break that starts the element at position `i`: a plain line
/// break before the first, `,` and a line break before the others.
pub open spec fn pretty_break(i: int) -> Seq<char> {
    if i == 0 {
        "\n"@
    } else {
        ",\n"@
    }
}

/// The elements of a non-empty array, each on its own line after `inner`.
pub open spec fn pretty_items(items: Seq<JsonValue>, inner: Seq<char>) -> Seq<char>
    decreases items,
{
    if items.len() == 0 {
        seq![]
    } else {
        pretty_items(items.drop_last(), inner) + pretty_break(items.len() - 1) + inner + pretty(
            items.last(),
            inner,
        )
    }
}

/// The members of a non-empty object, each on its own line after `inner`.
pub open spec fn pretty_entries(entries: Seq<(String, JsonValue)>, inner: Seq<char>) -> Seq<char>
    decreases entries,
{
    if entries.len() == 0 {
        seq![]
    } else {
        pretty_entries(entries.drop_last(), inner) + pretty_break(entries.len() - 1) + inner
            + quoted(entries.last().0@) + ": "@ + pretty(entries.last().1, inner)
    }
}

/// `serde_json::to_string` applied to a string slice.
///
/// Claimed: the call succeeds and yields the string between double quotes,
/// with `"`, `\` and the characters below U+0020 escaped as `quoted` says
/// (the escape table and `write_char_escape` of `serde_json::ser`); the
/// serialisation of a `str` writes into a `Vec<u8>`, which cannot fail.
#[verifier::external_body]
fn json_string_literal(s: &str) -> (r: Result<String, serde_json::Error>)
    ensures
        r is Ok,
        r matches Ok(t) ==> t@ == quoted(s@),
{
    serde_json::to_string(s)
}

/// The compact JSON text of a value (no whitespace), as `serde_json` writes
/// it: members and elements in their order, separated by `,`, keys and
/// strings as JSON string literals.
pub open spec fn compact(v: JsonValue) -> Seq<char>
    decreases v,
{
    match v {
        JsonValue::Null => "null"@,
        JsonValue::Bool(b) => if b {
            "true"@
        } else {
            "false"@
        },
        JsonValue::Number(n) => n@,
        JsonValue::String(s) => quoted(s@),
        JsonValue::Array(items) => "["@ + compact_items(items@) + "]"@,
        JsonValue::Object(entries) => "{"@ + compact_entries(entries@) + "}"@,
    }
}

/// The compact texts of `items`, separated by `,`.
pub open spec fn compact_items(items: Seq<JsonValue>) -> Seq<char>
    decreases items,
{
    if items.len() == 0 {
        seq![]
    } else if items.len() == 1 {
        compact(items[0])
    } else {
        compact_items(items.drop_last()) + ","@ + compact(items.last())
    }
}

/// The compact members `"key":value` of an object, separated by `,`.
pub open spec fn compact_entries(entries: Seq<(String, JsonValue)>) -> Seq<char>
    decreases entries,
{
    if entries.len() == 0 {
        seq![]
    } else if entries.len() == 1 {
        quoted(entries[0].0@) + ":"@ + compact(entries[0].1)
    } else {
        compact_entries(entries.drop_last()) + ","@ + quoted(entries.last().0@) + ":"@ + compact(
            entries.last().1,
        )
    }
}


/// The JSON string literal of `s`; `""` should the serialiser fail, which it
/// does not for a string.
pub fn string_literal(s: &str) -> (r: String)
    ensures
        r@ == quoted(s@),
{
    match json_string_literal(s) {
        Ok(t) => t,
        Err(_) => String::from_str("\"\""),
    }
}

/// Appends the compact JSON text of `v` to `out`.
pub fn push_compact(v: &JsonValue, out: &mut String)
    ensures
        final(out)@ == old(out)@ + compact(*v),
    decreases v, 1nat,
{
    match v {
        JsonValue::Null => out.append("null"),
        JsonValue::Bool(b) => if *b {
            out.append("true")
        } else {
            out.append("false")
        },
        JsonValue::Number(n) => out.append(n.as_str()),
        JsonValue::String(s) => {
            let q = string_literal(s.as_str());
            out.append(q.as_str());
        },
        JsonValue::Array(items) => {
            out.append("[");
            push_compact_items(items, out);
            out.append("]");
        },
        JsonValue::Object(entries) => {
            out.append("{");
            push_compact_entries(entries, out);
            out.append("}");
        },
    }
}

/// Appends the compact texts of `items`, separated by `,`.
pub fn push_compact_items(items: &Vec<JsonValue>, out: &mut String)
    ensures
        final(out)@ == old(out)@ + compact_items(items@),
    decreases items, 0nat,
{
    let ghost start = out@;
    let mut i: usize = 0;
    while i < items.len()
        invariant
            i <= items@.len(),
            out@ == start + compact_items(items@.take(i as int)),
        decreases items@.len() - i,
    {
        assert(items@.take(i + 1).drop_last() =~= items@.take(i as int));
        if i > 0 {
            out.append(",");
        }
        proof {
            assert(decreases_to!(items => items@));
            assert(decreases_to!(items@ => items@[i as int]));
        }
        push_compact(&items[i], out);
        i += 1;
    }
    assert(items@.take(items@.len() as int) =~= items@);
}

/// Appends the compact members of an object, separated by `,`.
fn push_compact_entries(entries: &Vec<(String, JsonValue)>, out: &mut String)
    ensures
        final(out)@ == old(out)@ + compact_entries(entries@),
    decreases entries, 0nat,
{
    let ghost start = out@;
    let mut i: usize = 0;
    while i < entries.len()
        invariant
            i <= entries@.len(),
            out@ == start + compact_entries(entries@.take(i as int)),
        decreases entries@.len() - i,
    {
        assert(entries@.take(i + 1).drop_last() =~= entries@.take(i as int));
        if i > 0 {
            out.append(",");
        }
        let q = string_literal(entries[i].0.as_str());
        out.append(q.as_str());
        out.append(":");
        proof {
            assert(decreases_to!(entries => entries@));
            assert(decreases_to!(entries@ => entries@[i as int]));
            assert(decreases_to!(entries@[i as int] => entries@[i as int].1));
        }
        push_compact(&entries[i].1, out);
        i += 1;
    }
    assert(entries@.take(entries@.len() as int) =~= entries@);
}

/// Appends the pretty JSON text of `v`, which starts after `indent`.
pub fn push_pretty(v: &JsonValue, indent: &str, out: &mut String)
    ensures
        final(out)@ == old(out)@ + pretty(*v, indent@),
    decreases v, 1nat,
{
    match v {
        JsonValue::Array(items) => {
            if items.len() == 0 {
                out.append("[]");
            } else {
                let mut inner = String::from_str(indent);
                inner.append("  ");
                out.append("[");
                push_pretty_items(items, inner.as_str(), out);
                out.append("\n");
                out.append(indent);
                out.append("]");
            }
        },
        JsonValue::Object(entries) => {
            if entries.len() == 0 {
                out.append("{}");
            } else {
                let mut inner = String::from_str(indent);
                inner.append("  ");
                out.append("{");
                push_pretty_entries(entries, inner.as_str(), out);
                out.append("\n");
                out.append(indent);
                out.append("}");
            }
        },
        _ => push_compact(v, out),
    }
}

/// Appends the elements of an array, each on its own line after `inner`.
fn push_pretty_items(items: &Vec<JsonValue>, inner: &str, out: &mut String)
    ensures
        final(out)@ == old(out)@ + pretty_items(items@, inner@),
    decreases items, 0nat,
{
    let ghost start = out@;
    let mut i: usize = 0;
    while i < items.len()
        invariant
            i <= items@.len(),
            out@ == start + pretty_items(items@.take(i as int), inner@),
        decreases items@.len() - i,
    {
        assert(items@.take(i + 1).drop_last() =~= items@.take(i as int));
        if i == 0 {
            out.append("\n");
        } else {
            out.append(",\n");
        }
        out.append(inner);
        proof {
            assert(decreases_to!(items => items@));
            assert(decreases_to!(items@ => items@[i as int]));
        }
        push_pretty(&items[i], inner, out);
        i += 1;
    }
    assert(items@.take(items@.len() as int) =~= items@);
}

/// Appends the members of an object, each on its own line after `inner`.
fn push_pretty_entries(entries: &Vec<(String, JsonValue)>, inner: &str, out: &mut String)
    ensures
        final(out)@ == old(out)@ + pretty_entries(entries@, inner@),
    decreases entries, 0nat,
{
    let ghost start = out@;
    let mut i: usize = 0;
    while i < entries.len()
        invariant
            i <= entries@.len(),
            out@ == start + pretty_entries(entries@.take(i as int), inner@),
        decreases entries@.len() - i,
    {
        assert(entries@.take(i + 1).drop_last() =~= entries@.take(i as int));
        if i == 0 {
            out.append("\n");
        } else {
            out.append(",\n");
        }
        out.append(inner);
        let q = string_literal(entries[i].0.as_str());
        out.append(q.as_str());
        out.append(": ");
        proof {
            assert(decreases_to!(entries => entries@));
            assert(decreases_to!(entries@ => entries@[i as int]));
            assert(decreases_to!(entries@[i as int] => entries@[i as int].1));
        }
        push_pretty(&entries[i].1, inner, out);
        i += 1;
    }
    assert(entries@.take(entries@.len() as int) =~= entries@);
}

/// The compact JSON text of `v`.
pub fn to_compact_json(v: &JsonValue) -> (r: String)
    ensures
        r@ == compact(*v),
{
    let mut out = String::new();
    push_compact(v, &mut out);
    assert(out@ =~= compact(*v));
    out
}

/// The pretty JSON text of `v`, starting at the left margin.
pub fn to_pretty_json(v: &JsonValue) -> (r: String)
    ensures
        r@ == pretty(*v, seq![]),
{
    let mut out = String::new();
    push_pretty(v, "", &mut out);
    proof {
        reveal_strlit("");
    }
    assert(out@ =~= pretty(*v, seq![]));
    out
}

} // verus!
