use vstd::prelude::*;
use vstd::string::*;
use vstd::utf8::is_ascii_chars;

use crate::json::{
    compact, compact_items, push_compact_items, string_literal, to_compact_json, JsonValue,
};
use crate::text::{decimal, join, join_strings, push_decimal, spaces, views};

verus! {

/// The indentation written for a nesting position `indent`: that many
/// spaces, but never more than 32.
pub open spec fn indent_of(indent: nat) -> Seq<char> {
    if indent < 32 {
        spaces(indent)
    } else {
        spaces(32)
    }
}

/// Null, booleans, numbers and strings are primitive; arrays and objects are
/// not.
pub open spec fn primitive(v: JsonValue) -> bool {
    !(v is Array) && !(v is Object)
}

const SPACES: &'static str = "                                ";

/// The indentation for nesting position `indent` (at most 32 spaces).
pub fn indent_str(indent: usize) -> (r: &'static str)
    ensures
        r@ == indent_of(indent as nat),
{
    proof {
        reveal_strlit("                                ");
        assert(SPACES@ =~= spaces(32));
        assert(is_ascii_chars(SPACES@));
    }
    let n = if indent < 32 {
        indent
    } else {
        32
    };
    let r = SPACES.substring_ascii(0, n);
    assert(r@ =~= indent_of(indent as nat));
    r
}

/// Whether `v` is primitive.
pub fn is_primitive(v: &JsonValue) -> (r: bool)
    ensures
        r == primitive(*v),
{
    match v {
        JsonValue::Null | JsonValue::Bool(_) | JsonValue::Number(_) | JsonValue::String(_) => true,
        _ => false,
    }
}

/// The text of a single value: its compact JSON text.
pub fn render_scalar(v: &JsonValue) -> (r: String)
    ensures
        r@ == compact(*v),
{
    match v {
        JsonValue::Null => String::from_str("null"),
        JsonValue::Bool(b) => if *b {
            String::from_str("true")
        } else {
            String::from_str("false")
        },
        JsonValue::Number(n) => n.clone(),
        JsonValue::String(s) => string_literal(s.as_str()),
        _ => to_compact_json(v),
    }
}

/// The keys of an object, in order.
pub open spec fn keys(entries: Seq<(String, JsonValue)>) -> Seq<Seq<char>> {
    entries.map_values(|e: (String, JsonValue)| e.0@)
}

/// `k` is a key of the object.
pub open spec fn has_key(entries: Seq<(String, JsonValue)>, k: Seq<char>) -> bool {
    exists|i: int| 0 <= i < entries.len() && (#[trigger] entries[i]).0@ == k
}

/// `item` can be a row of a table with the columns `headers`: it is an
/// object with as many members as there are columns, every column is one of
/// its keys, and every member value is primitive.
pub open spec fn fits_row(item: JsonValue, headers: Seq<Seq<char>>) -> bool {
    match item {
        JsonValue::Object(entries) => {
            &&& entries@.len() == headers.len()
            &&& forall|k: int| 0 <= k < headers.len() ==> has_key(entries@, #[trigger] headers[k])
            &&& forall|k: int| 0 <= k < entries@.len() ==> primitive(#[trigger] entries@[k].1)
        },
        _ => false,
    }
}

/// The columns of an array laid out as a table: the keys of its first
/// element, when the array is non-empty, its first element is a non-empty
/// object and every element fits a row with those columns; `None` otherwise.
pub open spec fn table_headers(items: Seq<JsonValue>) -> Option<Seq<Seq<char>>> {
    if items.len() == 0 {
        None
    } else {
        match items[0] {
            JsonValue::Object(first) => if first@.len() == 0 {
                None
            } else if forall|i: int| 0 <= i < items.len() ==> fits_row(#[trigger] items[i], keys(first@)) {
                Some(keys(first@))
            } else {
                None
            },
            _ => None,
        }
    }
}

/// Whether the object has the key `key`.
fn contains_key(entries: &Vec<(String, JsonValue)>, key: &String) -> (r: bool)
    ensures
        r == has_key(entries@, key@),
{
    let mut i: usize = 0;
    while i < entries.len()
        invariant
            i <= entries@.len(),
            forall|j: int| 0 <= j < i ==> (#[trigger] entries@[j]).0@ != key@,
        decreases entries@.len() - i,
    {
        if entries[i].0 == *key {
            return true;
        }
        i += 1;
    }
    false
}

/// Whether every member value of the object is primitive.
fn all_values_primitive(entries: &Vec<(String, JsonValue)>) -> (r: bool)
    ensures
        r == forall|k: int| 0 <= k < entries@.len() ==> primitive(#[trigger] entries@[k].1),
{
    let mut i: usize = 0;
    while i < entries.len()
        invariant
            i <= entries@.len(),
            forall|k: int| 0 <= k < i ==> primitive(#[trigger] entries@[k].1),
        decreases entries@.len() - i,
    {
        if !is_primitive(&entries[i].1) {
            return false;
        }
        i += 1;
    }
    true
}

/// Whether `item` fits a row of a table with the columns `headers`.
fn row_fits(item: &JsonValue, headers: &Vec<String>) -> (r: bool)
    ensures
        r == fits_row(*item, views(headers@)),
{
    match item {
        JsonValue::Object(entries) => {
            if entries.len() != headers.len() {
                return false;
            }
            let mut k: usize = 0;
            while k < headers.len()
                invariant
                    *item == JsonValue::Object(*entries),
                    entries@.len() == headers@.len(),
                    k <= headers@.len(),
                    forall|j: int| 0 <= j < k ==> has_key(entries@, #[trigger] views(headers@)[j]),
                decreases headers@.len() - k,
            {
                if !contains_key(entries, &headers[k]) {
                    assert(views(headers@)[k as int] == headers@[k as int]@);
                    return false;
                }
                k += 1;
            }
            all_values_primitive(entries)
        },
        _ => false,
    }
}

/// The columns of `items` when the array can be laid out as a table.
pub fn tabular_headers(items: &Vec<JsonValue>) -> (r: Option<Vec<String>>)
    ensures
        match r {
            Some(h) => table_headers(items@) == Some(views(h@)),
            None => table_headers(items@) is None,
        },
{
    if items.len() == 0 {
        return None;
    }
    let first = match &items[0] {
        JsonValue::Object(first) => first,
        _ => return None,
    };
    if first.len() == 0 {
        return None;
    }
    let mut headers: Vec<String> = Vec::new();
    let mut k: usize = 0;
    while k < first.len()
        invariant
            k <= first@.len(),
            headers@.len() == k,
            views(headers@) =~= keys(first@.take(k as int)),
        decreases first@.len() - k,
    {
        let key = first[k].0.clone();
        headers.push(key);
        k += 1;
        assert forall|j: int| 0 <= j < k implies #[trigger] views(headers@)[j] == keys(
            first@.take(k as int),
        )[j] by {
            if j < k - 1 {
                assert(views(headers@)[j] == headers@[j]@);
                assert(keys(first@.take(k - 1))[j] == first@[j].0@);
            }
        }
        assert(views(headers@) =~= keys(first@.take(k as int)));
    }
    assert(first@.take(first@.len() as int) =~= first@);
    let mut i: usize = 0;
    while i < items.len()
        invariant
            i <= items@.len(),
            items@.len() > 0,
            items@[0] == JsonValue::Object(*first),
            views(headers@) =~= keys(first@),
            forall|j: int| 0 <= j < i ==> fits_row(#[trigger] items@[j], keys(first@)),
        decreases items@.len() - i,
    {
        if !row_fits(&items[i], &headers) {
            return None;
        }
        i += 1;
    }
    Some(headers)
}

/// The value of the first member of the object with key `k`.
pub open spec fn lookup(entries: Seq<(String, JsonValue)>, k: Seq<char>) -> Option<JsonValue>
    decreases entries.len(),
{
    if entries.len() == 0 {
        None
    } else if entries[0].0@ == k {
        Some(entries[0].1)
    } else {
        lookup(entries.drop_first(), k)
    }
}

/// The members of `v` when it is an object; none otherwise.
pub open spec fn members(v: JsonValue) -> Seq<(String, JsonValue)> {
    match v {
        JsonValue::Object(entries) => entries@,
        _ => seq![],
    }
}

/// The cell of a table row under column `k`: the compact text of the member
/// with that key, `null` when there is none.
pub open spec fn cell(entries: Seq<(String, JsonValue)>, k: Seq<char>) -> Seq<char> {
    match lookup(entries, k) {
        Some(v) => compact(v),
        None => "null"@,
    }
}

/// The cells of a row under the columns `headers`, separated by `,`.
pub open spec fn table_row(item: JsonValue, headers: Seq<Seq<char>>) -> Seq<char> {
    join(headers.map_values(|h: Seq<char>| cell(members(item), h)), ","@)
}

/// The indented name that precedes a count, when there is a name.
pub open spec fn named_prefix(indent: nat, name: Option<Seq<char>>) -> Seq<char> {
    match name {
        Some(n) => indent_of(indent) + n,
        None => seq![],
    }
}

/// The line of a table row: indented one level deeper than the table.
pub open spec fn row_line(item: JsonValue, headers: Seq<Seq<char>>, indent: nat) -> Seq<char> {
    indent_of(indent + 2) + table_row(item, headers)
}

/// A table: the header `name[count]{col,...}:` and one line per element.
pub open spec fn table_text(
    items: Seq<JsonValue>,
    headers: Seq<Seq<char>>,
    indent: nat,
    name: Option<Seq<char>>,
) -> Seq<char> {
    let header = named_prefix(indent, name) + "["@ + decimal(items.len()) + "]{"@ + join(
        headers,
        ","@,
    ) + "}:"@;
    join(
        seq![header] + items.map_values(|item: JsonValue| row_line(item, headers, indent)),
        "\n"@,
    )
}

/// The table layout of an array, when it has one.
pub open spec fn table(items: Seq<JsonValue>, indent: nat, name: Option<Seq<char>>) -> Option<
    Seq<char>,
> {
    match table_headers(items) {
        Some(h) => Some(table_text(items, h, indent, name)),
        None => None,
    }
}

/// An optional name as a character sequence.
pub open spec fn name_view(name: Option<&str>) -> Option<Seq<char>> {
    match name {
        Some(n) => Some(n@),
        None => None,
    }
}

/// The value of the first member with key `key`.
fn get_member<'a>(entries: &'a Vec<(String, JsonValue)>, key: &String) -> (r: Option<
    &'a JsonValue,
>)
    ensures
        match r {
            Some(v) => lookup(entries@, key@) == Some(*v),
            None => lookup(entries@, key@) is None,
        },
{
    let mut i: usize = 0;
    assert(entries@.skip(0) =~= entries@);
    while i < entries.len()
        invariant
            i <= entries@.len(),
            lookup(entries@, key@) == lookup(entries@.skip(i as int), key@),
        decreases entries@.len() - i,
    {
        assert(entries@.skip(i as int)[0] == entries@[i as int]);
        if entries[i].0 == *key {
            return Some(&entries[i].1);
        }
        assert(entries@.skip(i as int).drop_first() =~= entries@.skip(i + 1));
        i += 1;
    }
    None
}

/// The nesting position one level deeper, held at 32 or more once the
/// indentation no longer grows.
fn deeper(indent: usize) -> (r: usize)
    ensures
        indent < 32 ==> r == indent + 2,
        indent >= 32 ==> r == indent,
{
    if indent < 32 {
        indent + 2
    } else {
        indent
    }
}

/// The row of `entries` under the columns `headers`.
fn render_row(entries: &Vec<(String, JsonValue)>, headers: &Vec<String>) -> (r: String)
    ensures
        r@ == table_row(JsonValue::Object(*entries), views(headers@)),
{
    let ghost hs = views(headers@);
    let mut cells: Vec<String> = Vec::new();
    let mut k: usize = 0;
    while k < headers.len()
        invariant
            k <= headers@.len(),
            hs == views(headers@),
            cells@.len() == k,
            views(cells@) =~= hs.take(k as int).map_values(|h: Seq<char>| cell(entries@, h)),
        decreases headers@.len() - k,
    {
        let c = match get_member(entries, &headers[k]) {
            Some(v) => render_scalar(v),
            None => String::from_str("null"),
        };
        assert(c@ == cell(entries@, headers@[k as int]@));
        let ghost before = cells@;
        cells.push(c);
        k += 1;
        assert(hs[k - 1] == headers@[k - 1]@);
        assert forall|j: int| 0 <= j < k implies #[trigger] views(cells@)[j] == hs.take(
            k as int,
        ).map_values(|h: Seq<char>| cell(entries@, h))[j] by {
            if j < k - 1 {
                assert(views(cells@)[j] == views(before)[j]);
            }
        }
        assert(views(cells@) =~= hs.take(k as int).map_values(|h: Seq<char>| cell(entries@, h)));
    }
    assert(hs.take(headers@.len() as int) =~= hs);
    join_strings(&cells, ",")
}

/// The table layout of `items` at nesting position `indent`, headed by
/// `name` when there is one; `None` when the array is not a table.
pub fn render_tabular_array(items: &Vec<JsonValue>, indent: usize, name: Option<&str>) -> (r:
    Option<String>)
    ensures
        match r {
            Some(t) => table(items@, indent as nat, name_view(name)) == Some(t@),
            None => table(items@, indent as nat, name_view(name)) is None,
        },
{
    let headers = match tabular_headers(items) {
        Some(h) => h,
        None => return None,
    };
    let ghost hs = views(headers@);
    let mut header = String::new();
    match name {
        Some(n) => {
            header.append(indent_str(indent));
            header.append(n);
        },
        None => {},
    }
    header.append("[");
    push_decimal(items.len(), &mut header);
    header.append("]{");
    let joined = join_strings(&headers, ",");
    header.append(joined.as_str());
    header.append("}:");
    let ghost header_view = named_prefix(indent as nat, name_view(name)) + "["@ + decimal(
        items@.len(),
    ) + "]{"@ + join(hs, ","@) + "}:"@;
    assert(header@ =~= header_view);
    let mut lines: Vec<String> = Vec::new();
    lines.push(header);
    let row_indent = indent_str(deeper(indent));
    assert(row_indent@ == indent_of(indent as nat + 2));
    let mut i: usize = 0;
    while i < items.len()
        invariant
            i <= items@.len(),
            hs == views(headers@),
            table_headers(items@) == Some(hs),
            row_indent@ == indent_of(indent as nat + 2),
            lines@.len() == i + 1,
            views(lines@) =~= seq![header_view] + items@.take(i as int).map_values(
                |item: JsonValue| row_line(item, hs, indent as nat),
            ),
        decreases items@.len() - i,
    {
        assert(fits_row(items@[i as int], hs));
        let entries = match &items[i] {
            JsonValue::Object(e) => e,
            _ => return None,
        };
        let row = render_row(entries, &headers);
        let mut line = String::from_str(row_indent);
        line.append(row.as_str());
        assert(line@ == row_line(items@[i as int], hs, indent as nat));
        let ghost before = lines@;
        lines.push(line);
        i += 1;
        assert forall|j: int| 0 <= j < i + 1 implies #[trigger] views(lines@)[j] == (seq![
            header_view,
        ] + items@.take(i as int).map_values(
            |item: JsonValue| row_line(item, hs, indent as nat),
        ))[j] by {
            if j < i {
                assert(views(lines@)[j] == views(before)[j]);
            }
        }
        assert(views(lines@) =~= seq![header_view] + items@.take(i as int).map_values(
            |item: JsonValue| row_line(item, hs, indent as nat),
        ));
    }
    assert(items@.take(items@.len() as int) =~= items@);
    Some(join_strings(&lines, "\n"))
}

/// Every element is primitive.
pub open spec fn all_primitive(items: Seq<JsonValue>) -> bool {
    forall|i: int| 0 <= i < items.len() ==> primitive(#[trigger] items[i])
}

/// The compact texts of the elements, separated by `, `.
pub open spec fn primitive_list(items: Seq<JsonValue>) -> Seq<char> {
    join(items.map_values(|v: JsonValue| compact(v)), ", "@)
}

/// A list of primitives: `name[count]: a, b, ...`.
pub open spec fn counted_list(items: Seq<JsonValue>, indent: nat, name: Option<Seq<char>>) -> Seq<
    char,
> {
    named_prefix(indent, name) + "["@ + decimal(items.len()) + "]: "@ + primitive_list(items)
}

/// The TOON text of an array: its table layout when it has one, `[]` when
/// it is empty, a counted list when all its elements are primitive, and its
/// compact JSON text otherwise.
pub open spec fn toon_array(items: Seq<JsonValue>, indent: nat, name: Option<Seq<char>>) -> Seq<
    char,
> {
    match table(items, indent, name) {
        Some(t) => t,
        None => if items.len() == 0 {
            "[]"@
        } else if all_primitive(items) {
            counted_list(items, indent, name)
        } else {
            "["@ + compact_items(items) + "]"@
        },
    }
}

/// The line of an object member whose value is an array: its table layout
/// when it has one, a counted list when all its elements are primitive (an
/// empty array included), and `key: ` with its compact JSON text otherwise.
pub open spec fn member_array_line(key: Seq<char>, items: Seq<JsonValue>, indent: nat) -> Seq<
    char,
> {
    match table(items, indent, Some(key)) {
        Some(t) => t,
        None => if all_primitive(items) {
            counted_list(items, indent, Some(key))
        } else {
            indent_of(indent) + key + ": "@ + "["@ + compact_items(items) + "]"@
        },
    }
}

/// The TOON text of an object at nesting position `indent`: `{}` when it is
/// empty, its member lines separated by line breaks otherwise.
pub open spec fn toon_object(entries: Seq<(String, JsonValue)>, indent: nat) -> Seq<char>
    decreases entries, 1nat,
{
    if entries.len() == 0 {
        "{}"@
    } else {
        join(member_lines(entries, indent), "\n"@)
    }
}

/// The lines of the members: a nested object gives `key:` followed by its
/// own TOON text two positions deeper; an array gives its member line; any
/// other value gives `key: ` and its compact JSON text.
pub open spec fn member_lines(entries: Seq<(String, JsonValue)>, indent: nat) -> Seq<Seq<char>>
    decreases entries, 0nat,
{
    if entries.len() == 0 {
        seq![]
    } else {
        let key = entries.last().0@;
        member_lines(entries.drop_last(), indent) + match entries.last().1 {
            JsonValue::Object(child) => seq![
                indent_of(indent) + key + ":"@,
                toon_object(child@, indent + 2),
            ],
            JsonValue::Array(items) => seq![member_array_line(key, items@, indent)],
            v => seq![indent_of(indent) + key + ": "@ + compact(v)],
        }
    }
}

/// The TOON text of a value: an object or an array laid out from the left
/// margin, any other value as its compact JSON text.
pub open spec fn toon(v: JsonValue) -> Seq<char> {
    match v {
        JsonValue::Object(entries) => toon_object(entries@, 0),
        JsonValue::Array(items) => toon_array(items@, 0, None),
        _ => compact(v),
    }
}

/// Beyond 32 the nesting position no longer changes the table layout.
proof fn lemma_table_indent(items: Seq<JsonValue>, i: nat, j: nat, name: Option<Seq<char>>)
    requires
        i >= 32,
        j >= 32,
    ensures
        table(items, i, name) == table(items, j, name),
{
    if let Some(hs) = table_headers(items) {
        assert(items.map_values(|item: JsonValue| row_line(item, hs, i)) =~= items.map_values(
            |item: JsonValue| row_line(item, hs, j),
        ));
    }
}

/// Beyond 32 the nesting position no longer changes the TOON text of an
/// object.
pub proof fn lemma_object_indent(entries: Seq<(String, JsonValue)>, i: nat, j: nat)
    requires
        i >= 32,
        j >= 32,
    ensures
        toon_object(entries, i) == toon_object(entries, j),
    decreases entries, 1nat,
{
    lemma_lines_indent(entries, i, j);
}

/// Beyond 32 the nesting position no longer changes the member lines.
proof fn lemma_lines_indent(entries: Seq<(String, JsonValue)>, i: nat, j: nat)
    requires
        i >= 32,
        j >= 32,
    ensures
        member_lines(entries, i) == member_lines(entries, j),
    decreases entries, 0nat,
{
    if entries.len() > 0 {
        lemma_lines_indent(entries.drop_last(), i, j);
        let key = entries.last().0@;
        match entries.last().1 {
            JsonValue::Object(child) => {
                lemma_object_indent(child@, i + 2, j + 2);
            },
            JsonValue::Array(items) => {
                lemma_table_indent(items@, i, j, Some(key));
            },
            _ => {},
        }
    }
}

/// The compact texts of `items`, separated by `, `.
fn render_primitive_list(items: &Vec<JsonValue>) -> (r: String)
    ensures
        r@ == primitive_list(items@),
{
    let mut parts: Vec<String> = Vec::new();
    let mut i: usize = 0;
    while i < items.len()
        invariant
            i <= items@.len(),
            parts@.len() == i,
            views(parts@) =~= items@.take(i as int).map_values(|v: JsonValue| compact(v)),
        decreases items@.len() - i,
    {
        let part = render_scalar(&items[i]);
        let ghost before = parts@;
        parts.push(part);
        i += 1;
        assert forall|j: int| 0 <= j < i implies #[trigger] views(parts@)[j] == items@.take(
            i as int,
        ).map_values(|v: JsonValue| compact(v))[j] by {
            if j < i - 1 {
                assert(views(parts@)[j] == views(before)[j]);
            }
        }
        assert(views(parts@) =~= items@.take(i as int).map_values(|v: JsonValue| compact(v)));
    }
    assert(items@.take(items@.len() as int) =~= items@);
    join_strings(&parts, ", ")
}

/// Whether every element is primitive.
fn all_items_primitive(items: &Vec<JsonValue>) -> (r: bool)
    ensures
        r == all_primitive(items@),
{
    let mut i: usize = 0;
    while i < items.len()
        invariant
            i <= items@.len(),
            forall|k: int| 0 <= k < i ==> primitive(#[trigger] items@[k]),
        decreases items@.len() - i,
    {
        if !is_primitive(&items[i]) {
            return false;
        }
        i += 1;
    }
    true
}

/// `name[count]: a, b, ...` for a list of primitives.
fn render_counted_list(items: &Vec<JsonValue>, indent: usize, name: Option<&str>) -> (r: String)
    ensures
        r@ == counted_list(items@, indent as nat, name_view(name)),
{
    let mut out = String::new();
    match name {
        Some(n) => {
            out.append(indent_str(indent));
            out.append(n);
        },
        None => {},
    }
    out.append("[");
    push_decimal(items.len(), &mut out);
    out.append("]: ");
    let list = render_primitive_list(items);
    out.append(list.as_str());
    assert(out@ =~= counted_list(items@, indent as nat, name_view(name)));
    out
}

/// `[a,b,...]`: the compact JSON text of an array.
fn render_compact_array(items: &Vec<JsonValue>) -> (r: String)
    ensures
        r@ == "["@ + compact_items(items@) + "]"@,
{
    let mut out = String::new();
    out.append("[");
    push_compact_items(items, &mut out);
    out.append("]");
    assert(out@ =~= "["@ + compact_items(items@) + "]"@);
    out
}

/// The TOON text of an array at nesting position `indent`, headed by `name`
/// when there is one.
pub fn render_array(items: &Vec<JsonValue>, indent: usize, name: Option<&str>) -> (r: String)
    ensures
        r@ == toon_array(items@, indent as nat, name_view(name)),
{
    if let Some(t) = render_tabular_array(items, indent, name) {
        return t;
    }
    if items.len() == 0 {
        return String::from_str("[]");
    }
    if all_items_primitive(items) {
        return render_counted_list(items, indent, name);
    }
    render_compact_array(items)
}

/// The line of an object member whose value is the array `items`.
fn render_member_array(key: &String, items: &Vec<JsonValue>, indent: usize) -> (r: String)
    ensures
        r@ == member_array_line(key@, items@, indent as nat),
{
    if let Some(t) = render_tabular_array(items, indent, Some(key.as_str())) {
        return t;
    }
    if all_items_primitive(items) {
        return render_counted_list(items, indent, Some(key.as_str()));
    }
    let mut out = String::from_str(indent_str(indent));
    out.append(key.as_str());
    out.append(": ");
    let arr = render_compact_array(items);
    out.append(arr.as_str());
    assert(out@ =~= indent_of(indent as nat) + key@ + ": "@ + "["@ + compact_items(items@) + "]"@);
    out
}

/// The TOON text of an object at nesting position `indent`.
pub fn render_object(entries: &Vec<(String, JsonValue)>, indent: usize) -> (r: String)
    ensures
        r@ == toon_object(entries@, indent as nat),
    decreases entries,
{
    if entries.len() == 0 {
        return String::from_str("{}");
    }
    let mut lines: Vec<String> = Vec::new();
    let mut i: usize = 0;
    while i < entries.len()
        invariant
            i <= entries@.len(),
            views(lines@) =~= member_lines(entries@.take(i as int), indent as nat),
        decreases entries@.len() - i,
    {
        let ghost before = lines@;
        let key = &entries[i].0;
        let ghost prefix = entries@.take(i + 1);
        assert(prefix.drop_last() =~= entries@.take(i as int));
        assert(prefix.last() == entries@[i as int]);
        match &entries[i].1 {
            JsonValue::Object(child) => {
                let mut head = String::from_str(indent_str(indent));
                head.append(key.as_str());
                head.append(":");
                lines.push(head);
                proof {
                    assert(decreases_to!(entries => entries@));
                    assert(decreases_to!(entries@ => entries@[i as int]));
                    assert(decreases_to!(entries@[i as int] => entries@[i as int].1));
                    if indent >= 32 {
                        lemma_object_indent(child@, indent as nat, indent as nat + 2);
                    }
                }
                let body = render_object(child, deeper(indent));
                lines.push(body);
            },
            JsonValue::Array(items) => {
                let line = render_member_array(key, items, indent);
                lines.push(line);
            },
            v => {
                let mut line = String::from_str(indent_str(indent));
                line.append(key.as_str());
                line.append(": ");
                let scalar = render_scalar(v);
                line.append(scalar.as_str());
                lines.push(line);
            },
        }
        i += 1;
        assert(views(lines@) =~= member_lines(entries@.take(i as int), indent as nat));
    }
    assert(entries@.take(entries@.len() as int) =~= entries@);
    join_strings(&lines, "\n")
}

/// The TOON text of a value.
pub fn encode_toon(v: &JsonValue) -> (r: String)
    ensures
        r@ == toon(*v),
{
    match v {
        JsonValue::Object(entries) => render_object(entries, 0),
        JsonValue::Array(items) => render_array(items, 0, None),
        _ => render_scalar(v),
    }
}

} // verus!
