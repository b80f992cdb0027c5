use vstd::prelude::*;

use crate::format::{structured_text, StructuredOutputFormat};
use crate::json::{
    compact, escaped, escaped_char, hex_digit, pretty, pretty_entries, pretty_items, quoted,
    JsonValue,
};
use crate::mcp::{
    json_reformatted_pretty, lowercase, message_content_text, prompt_lines, prompt_list_display,
    prompt_result_display, resource_lines, resource_list_display, resource_result_display,
    tool_lines, tool_list_display, tool_result_display, tool_result_text, CallToolResult,
    GetPromptResult, Prompt, PromptMessageContent, ReadResourceResult, Resource, Tool,
};
use crate::text::{digit_char, occurs_in};
use crate::mcp::{text_blocks, ContentBlock, PromptMessage, message_block};
use crate::toon::member_lines;
use crate::mcp::{ResourceContents, Role};
use crate::text::{decimal, join};
use crate::toon::{
    indent_of, lemma_object_indent, member_array_line, members, named_prefix, primitive, row_line,
    table, table_headers, toon_array, toon_object,
};
use crate::json::{compact_items, compact_entries as compact_members};

verus! {

/// A primitive value (null, a boolean, a number, a string) reads the same in
/// every layout: its compact JSON text, whatever the indentation.
pub proof fn law_scalar_layouts_agree(v: JsonValue, indent: Seq<char>)
    requires
        primitive(v),
    ensures
        structured_text(v, StructuredOutputFormat::Toon) == compact(v),
        structured_text(v, StructuredOutputFormat::JsonPretty) == compact(v),
        pretty(v, indent) == compact(v),
{
}

/// The `pretty` flag changes the display of a tool result only when the
/// text of its text blocks is JSON; then it shows the pretty-printed form.
pub proof fn law_tool_result_pretty_only_for_json(result: CallToolResult)
    ensures
        tool_result_display(result, false) == tool_result_text(result),
        json_reformatted_pretty(tool_result_text(result)) is None ==> tool_result_display(
            result,
            true,
        ) == tool_result_display(result, false),
        json_reformatted_pretty(tool_result_text(result)) matches Some(p) ==> tool_result_display(
            result,
            true,
        ) == p,
{
}

/// A search never changes the count in the heading of a tool listing: when
/// anything is listed, the heading counts all tools.
pub proof fn law_tool_count_ignores_search(tools: Seq<Tool>, search: Option<Seq<char>>)
    requires
        tool_lines(tools, search).len() > 0,
    ensures
        tool_list_display(tools, search) == "Tools ("@ + decimal(tools.len()) + "):\n"@ + join(
            tool_lines(tools, search),
            "\n"@,
        ),
{
}

/// Without a search, a non-empty list of tools is listed under a heading,
/// never replaced by a notice.
pub proof fn law_unsearched_tools_all_listed(tools: Seq<Tool>)
    requires
        tools.len() > 0,
    ensures
        tool_lines(tools, None).len() >= tools.len(),
        tool_list_display(tools, None) == "Tools ("@ + decimal(tools.len()) + "):\n"@ + join(
            tool_lines(tools, None),
            "\n"@,
        ),
{
    lemma_unsearched_lines_len(tools);
}

proof fn lemma_unsearched_lines_len(tools: Seq<Tool>)
    ensures
        tool_lines(tools, None).len() >= tools.len(),
    decreases tools.len(),
{
    if tools.len() > 0 {
        lemma_unsearched_lines_len(tools.drop_last());
    }
}

/// The first part joined to the rest starts the joined text.
proof fn lemma_join_starts_with(first: Seq<char>, rest: Seq<Seq<char>>, sep: Seq<char>)
    ensures
        join(seq![first] + rest, sep).len() >= first.len(),
        join(seq![first] + rest, sep).take(first.len() as int) == first,
    decreases rest.len(),
{
    if rest.len() == 0 {
        assert(seq![first] + rest =~= seq![first]);
    } else {
        lemma_join_starts_with(first, rest.drop_last(), sep);
        assert((seq![first] + rest).drop_last() =~= seq![first] + rest.drop_last());
        let whole = join(seq![first] + rest, sep);
        let shorter = join(seq![first] + rest.drop_last(), sep);
        assert(whole == shorter + sep + rest.last());
        assert(whole.take(first.len() as int) =~= shorter.take(first.len() as int));
    }
}

/// An array that can be laid out as a table starts with its header: the
/// indented name (if any), the element count and the columns.
pub proof fn law_table_starts_with_header(
    items: Seq<JsonValue>,
    indent: nat,
    name: Option<Seq<char>>,
)
    requires
        table_headers(items) is Some,
    ensures
        ({
            let header = named_prefix(indent, name) + "["@ + decimal(items.len()) + "]{"@ + join(
                table_headers(items)->0,
                ","@,
            ) + "}:"@;
            &&& toon_array(items, indent, name).len() >= header.len()
            &&& toon_array(items, indent, name).take(header.len() as int) == header
        }),
{
    let hs = table_headers(items)->0;
    let header = named_prefix(indent, name) + "["@ + decimal(items.len()) + "]{"@ + join(hs, ","@)
        + "}:"@;
    lemma_join_starts_with(
        header,
        items.map_values(|item: JsonValue| row_line(item, hs, indent)),
        "\n"@,
    );
}

/// Indentation stops growing at 32 spaces: beyond that nesting position an
/// object reads the same at any depth.
pub proof fn law_indentation_capped(entries: Seq<(String, JsonValue)>, i: nat, j: nat)
    requires
        i >= 32,
        j >= 32,
    ensures
        toon_object(entries, i) == toon_object(entries, j),
{
    lemma_object_indent(entries, i, j);
}

/// `v` is an object with a member whose key is `k`.
pub open spec fn has_member(v: JsonValue, k: Seq<char>) -> bool {
    exists|j: int| 0 <= j < members(v).len() && (#[trigger] members(v)[j]).0@ == k
}

/// An array laid out as a table holds only objects, each with exactly as
/// many members as the first, every key of the first among its keys, and
/// only primitive member values: no member is left out of the cells.
pub proof fn law_table_rows_match_columns(
    items: Seq<JsonValue>,
    indent: nat,
    name: Option<Seq<char>>,
)
    requires
        table(items, indent, name) is Some,
    ensures
        items.len() > 0,
        members(items[0]).len() > 0,
        forall|i: int| 0 <= i < items.len() ==> (#[trigger] items[i]) is Object,
        forall|i: int| 0 <= i < items.len() ==> #[trigger] members(items[i]).len() == members(items[0]).len(),
        forall|i: int, k: int|
            0 <= i < items.len() && 0 <= k < members(items[0]).len() ==> has_member(
                #[trigger] items[i],
                (#[trigger] members(items[0])[k]).0@,
            ),
        forall|i: int, j: int|
            0 <= i < items.len() && 0 <= j < members(items[i]).len() ==> primitive(
                (#[trigger] members(items[i])[j]).1,
            ),
{
    let hs = table_headers(items)->0;
    assert forall|i: int| 0 <= i < items.len() implies (#[trigger] items[i]) is Object
        && members(items[i]).len() == members(items[0]).len() by {
        assert(crate::toon::fits_row(items[i], hs));
    }
    assert forall|i: int, k: int|
        0 <= i < items.len() && 0 <= k < members(items[0]).len() implies has_member(
            #[trigger] items[i],
            (#[trigger] members(items[0])[k]).0@,
        ) by {
        assert(crate::toon::fits_row(items[i], hs));
        assert(hs[k] == members(items[0])[k].0@);
        assert(crate::toon::has_key(members(items[i]), hs[k]));
        let jj = choose|jj: int|
            0 <= jj < members(items[i]).len() && (#[trigger] members(items[i])[jj]).0@ == hs[k];
        assert(members(items[i])[jj].0@ == members(items[0])[k].0@);
    }
    assert forall|i: int, j: int|
        0 <= i < items.len() && 0 <= j < members(items[i]).len() implies primitive(
            (#[trigger] members(items[i])[j]).1,
        ) by {
        assert(crate::toon::fits_row(items[i], hs));
    }
}

/// The keys of an object, as a sequence.
pub open spec fn member_keys(v: JsonValue) -> Seq<Seq<char>> {
    members(v).map_values(|e: (String, JsonValue)| e.0@)
}

/// When the objects of an array have no repeated keys, a table layout loses
/// nothing: every key of every element is one of the columns (the keys of
/// the first element), so every member appears as a cell.
pub proof fn law_table_keeps_every_member(
    items: Seq<JsonValue>,
    indent: nat,
    name: Option<Seq<char>>,
    i: int,
    j: int,
)
    requires
        table(items, indent, name) is Some,
        forall|n: int| 0 <= n < items.len() ==> (#[trigger] member_keys(items[n])).no_duplicates(),
        0 <= i < items.len(),
        0 <= j < members(items[i]).len(),
    ensures
        exists|k: int|
            0 <= k < members(items[0]).len() && #[trigger] members(items[0])[k].0@ == members(
                items[i],
            )[j].0@,
{
    law_table_rows_match_columns(items, indent, name);
    let first = member_keys(items[0]);
    let row = member_keys(items[i]);
    assert(first.no_duplicates());
    assert(row.no_duplicates());
    first.unique_seq_to_set();
    row.unique_seq_to_set();
    assert forall|x: Seq<char>| first.to_set().contains(x) implies row.to_set().contains(x) by {
        let k = choose|k: int| 0 <= k < first.len() && first[k] == x;
        assert(members(items[0])[k].0@ == x);
        assert(members(items[i]) == members(items[i]));
        assert(has_member(items[i], members(items[0])[k].0@));
        let jj = choose|jj: int|
            0 <= jj < members(items[i]).len() && (#[trigger] members(items[i])[jj]).0@ == members(
                items[0],
            )[k].0@;
        assert(row[jj] == x);
    }
    assert(first.to_set().subset_of(row.to_set()));
    vstd::set_lib::lemma_subset_equality(first.to_set(), row.to_set());
    assert(row.to_set().contains(row[j]));
    assert(first.to_set().contains(row[j]));
    let k = choose|k: int| 0 <= k < first.len() && first[k] == row[j];
    assert(members(items[0])[k].0@ == members(items[i])[j].0@);
}

/// An array holding two objects with different numbers of members is never
/// a table: it is written as its compact JSON text, at the top level and as
/// an object member alike.
pub proof fn law_uneven_objects_not_tabled(
    items: Seq<JsonValue>,
    indent: nat,
    name: Option<Seq<char>>,
    key: Seq<char>,
    i: int,
    j: int,
)
    requires
        0 <= i < items.len(),
        0 <= j < items.len(),
        items[i] is Object,
        items[j] is Object,
        members(items[i]).len() != members(items[j]).len(),
    ensures
        table(items, indent, name) is None,
        toon_array(items, indent, name) == "["@ + compact_items(items) + "]"@,
        member_array_line(key, items, indent) == indent_of(indent) + key + ": "@ + "["@
            + compact_items(items) + "]"@,
{
    if table(items, indent, name) is Some {
        law_table_rows_match_columns(items, indent, name);
        assert(members(items[i]).len() == members(items[0]).len());
        assert(members(items[j]).len() == members(items[0]).len());
    }
    if table(items, indent, Some(key)) is Some {
        law_table_rows_match_columns(items, indent, Some(key));
        assert(members(items[i]).len() == members(items[0]).len());
        assert(members(items[j]).len() == members(items[0]).len());
    }
    assert(!primitive(items[i]));
}

/// The element lines of a pretty array, written with `join`.
proof fn lemma_pretty_items_join(items: Seq<JsonValue>, inner: Seq<char>)
    requires
        items.len() > 0,
    ensures
        pretty_items(items, inner) == "\n"@ + join(
            items.map_values(|x: JsonValue| inner + pretty(x, inner)),
            ",\n"@,
        ),
    decreases items.len(),
{
    let f = |x: JsonValue| inner + pretty(x, inner);
    if items.len() == 1 {
        assert(pretty_items(items.drop_last(), inner) == Seq::<char>::empty());
        assert(items.map_values(f).len() == 1);
        assert(items.map_values(f)[0] == inner + pretty(items[0], inner));
        assert(pretty_items(items, inner) =~= "\n"@ + join(items.map_values(f), ",\n"@));
    } else {
        lemma_pretty_items_join(items.drop_last(), inner);
        assert(items.map_values(f).drop_last() =~= items.drop_last().map_values(f));
        assert(items.map_values(f).last() == inner + pretty(items.last(), inner));
        assert(pretty_items(items, inner) =~= "\n"@ + join(items.map_values(f), ",\n"@));
    }
}

/// The member lines of a pretty object, written with `join`.
proof fn lemma_pretty_entries_join(entries: Seq<(String, JsonValue)>, inner: Seq<char>)
    requires
        entries.len() > 0,
    ensures
        pretty_entries(entries, inner) == "\n"@ + join(
            entries.map_values(
                |e: (String, JsonValue)| inner + quoted(e.0@) + ": "@ + pretty(e.1, inner),
            ),
            ",\n"@,
        ),
    decreases entries.len(),
{
    let f = |e: (String, JsonValue)| inner + quoted(e.0@) + ": "@ + pretty(e.1, inner);
    if entries.len() == 1 {
        assert(pretty_entries(entries.drop_last(), inner) == Seq::<char>::empty());
        assert(entries.map_values(f).len() == 1);
        assert(entries.map_values(f)[0] == f(entries[0]));
        assert(pretty_entries(entries, inner) =~= "\n"@ + join(entries.map_values(f), ",\n"@));
    } else {
        lemma_pretty_entries_join(entries.drop_last(), inner);
        assert(entries.map_values(f).drop_last() =~= entries.drop_last().map_values(f));
        assert(entries.map_values(f).last() == f(entries.last()));
        assert(pretty_entries(entries, inner) =~= "\n"@ + join(entries.map_values(f), ",\n"@));
    }
}

/// Pretty JSON indents every nesting level two spaces deeper than its
/// parent, at any depth: a non-empty array or object written after `indent`
/// puts each element or member on its own line after `indent` and two more
/// spaces (members as `"key": value`), separated by `,`, and closes on a line
/// of its own after `indent`; every other value is its compact text.
pub proof fn law_pretty_indents_every_level(v: JsonValue, indent: Seq<char>)
    ensures
        match v {
            JsonValue::Array(items) => items@.len() > 0 ==> pretty(v, indent) == "["@ + "\n"@ + join(
                items@.map_values(
                    |x: JsonValue| indent + "  "@ + pretty(x, indent + "  "@),
                ),
                ",\n"@,
            ) + "\n"@ + indent + "]"@,
            JsonValue::Object(entries) => entries@.len() > 0 ==> pretty(v, indent) == "{"@ + "\n"@
                + join(
                entries@.map_values(
                    |e: (String, JsonValue)|
                        indent + "  "@ + quoted(e.0@) + ": "@ + pretty(e.1, indent + "  "@),
                ),
                ",\n"@,
            ) + "\n"@ + indent + "}"@,
            _ => pretty(v, indent) == compact(v),
        },
{
    match v {
        JsonValue::Array(items) => {
            if items@.len() > 0 {
                lemma_pretty_items_join(items@, indent + "  "@);
                assert(pretty(v, indent) =~= "["@ + "\n"@ + join(
                    items@.map_values(|x: JsonValue| (indent + "  "@) + pretty(x, indent + "  "@)),
                    ",\n"@,
                ) + "\n"@ + indent + "]"@);
            }
        },
        JsonValue::Object(entries) => {
            if entries@.len() > 0 {
                lemma_pretty_entries_join(entries@, indent + "  "@);
                assert(pretty(v, indent) =~= "{"@ + "\n"@ + join(
                    entries@.map_values(
                        |e: (String, JsonValue)|
                            (indent + "  "@) + quoted(e.0@) + ": "@ + pretty(e.1, indent + "  "@),
                    ),
                    ",\n"@,
                ) + "\n"@ + indent + "}"@);
            }
        },
        _ => {},
    }
}

/// The description of a tool as listed, empty when it has none.
pub open spec fn tool_description(t: Tool) -> Seq<char> {
    match t.description {
        Some(d) => d@,
        None => seq![],
    }
}

/// The search finds a tool when the lower-cased pattern occurs in its
/// lower-cased name or in its lower-cased description.
pub open spec fn search_finds(t: Tool, p: Seq<char>) -> bool {
    occurs_in(lowercase(p), lowercase(t.name@)) || occurs_in(
        lowercase(p),
        lowercase(tool_description(t)),
    )
}

/// The listed lines of one tool: `  name`, then `    description` when its
/// description is not empty.
pub open spec fn listed_tool(t: Tool) -> Seq<Seq<char>> {
    if tool_description(t).len() == 0 {
        seq!["  "@ + t.name@]
    } else {
        seq!["  "@ + t.name@, "    "@ + tool_description(t)]
    }
}

/// A single tool is listed under a search exactly when the search, compared
/// case-insensitively on both sides, finds it in its name or description;
/// then it is listed as without a search, otherwise the listing is the
/// no-match notice.
pub proof fn law_tool_search_is_case_insensitive(t: Tool, p: Seq<char>)
    ensures
        tool_list_display(seq![t], None) == "Tools ("@ + decimal(1) + "):\n"@ + join(
            listed_tool(t),
            "\n"@,
        ),
        search_finds(t, p) ==> tool_list_display(seq![t], Some(p)) == tool_list_display(
            seq![t],
            None,
        ),
        !search_finds(t, p) ==> tool_list_display(seq![t], Some(p)) == "No matching tools found."@,
{
    assert(seq![t].drop_last() =~= Seq::<Tool>::empty());
    assert(seq![t].last() == t);
    assert(tool_lines(Seq::<Tool>::empty(), None) == Seq::<Seq<char>>::empty());
    assert(tool_lines(Seq::<Tool>::empty(), Some(p)) == Seq::<Seq<char>>::empty());
    assert(crate::mcp::tool_entry(t) =~= listed_tool(t));
    assert(tool_lines(seq![t], None) =~= listed_tool(t));
    if search_finds(t, p) {
        assert(tool_lines(seq![t], Some(p)) =~= listed_tool(t));
    } else {
        assert(tool_lines(seq![t], Some(p)) =~= Seq::<Seq<char>>::empty());
    }
}

/// Two tools whose names and descriptions agree once lower-cased are found
/// by the same searches: changing the case of a letter never changes whether
/// a tool is listed.
pub proof fn law_tool_search_ignores_letter_case(t1: Tool, t2: Tool, p: Seq<char>)
    requires
        lowercase(t1.name@) == lowercase(t2.name@),
        lowercase(tool_description(t1)) == lowercase(tool_description(t2)),
    ensures
        (tool_list_display(seq![t1], Some(p)) == "No matching tools found."@) <==> (
        tool_list_display(seq![t2], Some(p)) == "No matching tools found."@),
{
    law_tool_search_is_case_insensitive(t1, p);
    law_tool_search_is_case_insensitive(t2, p);
    lemma_heading_not_notice(seq![t1], None);
    lemma_heading_not_notice(seq![t2], None);
}

proof fn lemma_heading_not_notice(tools: Seq<Tool>, search: Option<Seq<char>>)
    requires
        tools.len() == 1,
        search is None,
    ensures
        tool_list_display(tools, search) != "No matching tools found."@,
{
    assert(tools.drop_last() =~= Seq::<Tool>::empty());
    let lines = tool_lines(tools, search);
    assert(lines.len() > 0);
    let d = tool_list_display(tools, search);
    assert(d == "Tools ("@ + decimal(1) + "):\n"@ + join(lines, "\n"@));
    reveal_strlit("Tools (");
    reveal_strlit("No matching tools found.");
    let rest = decimal(1) + "):\n"@ + join(lines, "\n"@);
    assert(d =~= "Tools ("@ + rest);
    assert(d[0] == 'T');
    assert("No matching tools found."@[0] == 'N');
}

/// Searches whose patterns agree once lower-cased list the same tools.
pub proof fn law_tool_search_pattern_case(tools: Seq<Tool>, p1: Seq<char>, p2: Seq<char>)
    requires
        lowercase(p1) == lowercase(p2),
    ensures
        tool_list_display(tools, Some(p1)) == tool_list_display(tools, Some(p2)),
    decreases tools.len(),
{
    lemma_tool_lines_pattern_case(tools, p1, p2);
}

proof fn lemma_tool_lines_pattern_case(tools: Seq<Tool>, p1: Seq<char>, p2: Seq<char>)
    requires
        lowercase(p1) == lowercase(p2),
    ensures
        tool_lines(tools, Some(p1)) == tool_lines(tools, Some(p2)),
    decreases tools.len(),
{
    if tools.len() > 0 {
        lemma_tool_lines_pattern_case(tools.drop_last(), p1, p2);
    }
}

/// The lines of a tool listing follow the order of the tools: the lines of
/// `ts + us` are those of `ts` followed by those of `us`, and a tool added
/// at the end adds its own lines at the end, when the search finds it.
pub proof fn law_tool_lines_in_order(
    ts: Seq<Tool>,
    us: Seq<Tool>,
    t: Tool,
    search: Option<Seq<char>>,
)
    ensures
        tool_lines(ts + us, search) == tool_lines(ts, search) + tool_lines(us, search),
        tool_lines(ts.push(t), search) == tool_lines(ts, search) + (if match search {
            Some(p) => search_finds(t, p),
            None => true,
        } {
            listed_tool(t)
        } else {
            seq![]
        }),
    decreases us.len(),
{
    assert(ts.push(t).drop_last() =~= ts);
    if us.len() > 0 {
        law_tool_lines_in_order(ts, us.drop_last(), t, search);
        assert((ts + us).drop_last() =~= ts + us.drop_last());
        assert((ts + us).last() == us.last());
    } else {
        assert(ts + us =~= ts);
    }
}

/// With `pretty`, a resource or prompt result shows its pretty
/// serialisation whenever there is one, the compact one only when the
/// pretty one is missing, and nothing when both are; the same holds of a
/// prompt message whose content is not text.
pub proof fn law_pretty_results_prefer_pretty_serialisation(
    r: ReadResourceResult,
    g: GetPromptResult,
    c: PromptMessageContent,
)
    ensures
        r.json.pretty matches Some(p) ==> resource_result_display(r, true) == p@,
        r.json.pretty is None ==> (r.json.compact matches Some(k) ==> resource_result_display(
            r,
            true,
        ) == k@),
        r.json.pretty is None && r.json.compact is None ==> resource_result_display(r, true)
            == Seq::<char>::empty(),
        g.json.pretty matches Some(p) ==> prompt_result_display(g, true) == p@,
        g.json.pretty is None ==> (g.json.compact matches Some(k) ==> prompt_result_display(
            g,
            true,
        ) == k@),
        g.json.pretty is None && g.json.compact is None ==> prompt_result_display(g, true)
            == Seq::<char>::empty(),
        c matches PromptMessageContent::Other(j) ==> (j.pretty matches Some(p)
            ==> message_content_text(c) == p@),
        c matches PromptMessageContent::Other(j) ==> (j.pretty is None ==> (j.compact matches Some(
            k,
        ) ==> message_content_text(c) == k@)),
{
}

/// The heading line of a listed resource: `  name (uri)`.
pub open spec fn listed_resource_head(r: Resource) -> Seq<char> {
    "  "@ + r.name@ + " ("@ + r.uri@ + ")"@
}

/// The lines of a resource listing follow the order of the resources: the
/// lines of `rs + qs` are those of `rs` followed by those of `qs`, and a
/// resource added at the end adds `  name (uri)` and, when it has a
/// description, `    description` at the end.
pub proof fn law_resource_lines_in_order(rs: Seq<Resource>, qs: Seq<Resource>, r: Resource)
    ensures
        resource_lines(rs + qs) == resource_lines(rs) + resource_lines(qs),
        resource_lines(rs.push(r)) == resource_lines(rs) + match r.description {
            Some(d) => seq![listed_resource_head(r), "    "@ + d@],
            None => seq![listed_resource_head(r)],
        },
        rs.len() > 0 ==> resource_list_display(rs) == "Resources ("@ + decimal(rs.len())
            + "):\n"@ + join(resource_lines(rs), "\n"@),
    decreases qs.len(),
{
    assert(rs.push(r).drop_last() =~= rs);
    if qs.len() > 0 {
        law_resource_lines_in_order(rs, qs.drop_last(), r);
        assert((rs + qs).drop_last() =~= rs + qs.drop_last());
        assert((rs + qs).last() == qs.last());
    } else {
        assert(rs + qs =~= rs);
    }
}

/// The lines of a prompt listing follow the order of the prompts: the lines
/// of `ps + qs` are those of `ps` followed by those of `qs`, and a prompt
/// added at the end adds `  name` and, when it has a description,
/// `    description` at the end.
pub proof fn law_prompt_lines_in_order(ps: Seq<Prompt>, qs: Seq<Prompt>, p: Prompt)
    ensures
        prompt_lines(ps + qs) == prompt_lines(ps) + prompt_lines(qs),
        prompt_lines(ps.push(p)) == prompt_lines(ps) + match p.description {
            Some(d) => seq!["  "@ + p.name@, "    "@ + d@],
            None => seq!["  "@ + p.name@],
        },
        ps.len() > 0 ==> prompt_list_display(ps) == "Prompts ("@ + decimal(ps.len()) + "):\n"@
            + join(prompt_lines(ps), "\n"@),
    decreases qs.len(),
{
    assert(ps.push(p).drop_last() =~= ps);
    if qs.len() > 0 {
        law_prompt_lines_in_order(ps, qs.drop_last(), p);
        assert((ps + qs).drop_last() =~= ps + qs.drop_last());
        assert((ps + qs).last() == qs.last());
    } else {
        assert(ps + qs =~= ps);
    }
}

/// The compact JSON text of an array is its elements' compact texts joined
/// by `,` between brackets; that of an object is its members `"key":value`
/// joined by `,` between braces.
pub proof fn law_compact_is_joined(v: JsonValue)
    ensures
        v matches JsonValue::Array(items) ==> compact(v) == "["@ + join(
            items@.map_values(|x: JsonValue| compact(x)),
            ","@,
        ) + "]"@,
        v matches JsonValue::Object(entries) ==> compact(v) == "{"@ + join(
            entries@.map_values(|e: (String, JsonValue)| quoted(e.0@) + ":"@ + compact(e.1)),
            ","@,
        ) + "}"@,
{
    match v {
        JsonValue::Array(items) => {
            lemma_compact_items_join(items@);
        },
        JsonValue::Object(entries) => {
            lemma_compact_members_join(entries@);
        },
        _ => {},
    }
}

proof fn lemma_compact_items_join(items: Seq<JsonValue>)
    ensures
        compact_items(items) == join(items.map_values(|x: JsonValue| compact(x)), ","@),
    decreases items.len(),
{
    let f = |x: JsonValue| compact(x);
    if items.len() > 1 {
        lemma_compact_items_join(items.drop_last());
        assert(items.map_values(f).drop_last() =~= items.drop_last().map_values(f));
    }
    if items.len() == 1 {
        assert(items.map_values(f)[0] == compact(items[0]));
    }
}

proof fn lemma_compact_members_join(entries: Seq<(String, JsonValue)>)
    ensures
        compact_members(entries) == join(
            entries.map_values(|e: (String, JsonValue)| quoted(e.0@) + ":"@ + compact(e.1)),
            ","@,
        ),
    decreases entries.len(),
{
    let f = |e: (String, JsonValue)| quoted(e.0@) + ":"@ + compact(e.1);
    if entries.len() > 1 {
        lemma_compact_members_join(entries.drop_last());
        assert(entries.map_values(f).drop_last() =~= entries.drop_last().map_values(f));
        assert(entries.map_values(f).last() == f(entries.last()));
        assert(compact_members(entries) =~= join(entries.map_values(f), ","@));
    }
    if entries.len() == 1 {
        assert(entries.map_values(f)[0] == f(entries[0]));
        assert(compact_members(entries) =~= join(entries.map_values(f), ","@));
    }
}

/// Joining: one part is itself, and joining two non-empty lists of parts is
/// joining each and putting the separator between them.
pub proof fn law_join_concatenates(a: Seq<Seq<char>>, b: Seq<Seq<char>>, sep: Seq<char>)
    ensures
        join(seq![], sep) == Seq::<char>::empty(),
        a.len() == 1 ==> join(a, sep) == a[0],
        a.len() > 0 && b.len() > 0 ==> join(a + b, sep) == join(a, sep) + sep + join(b, sep),
    decreases b.len(),
{
    if a.len() > 0 && b.len() > 0 {
        if b.len() == 1 {
            assert((a + b).drop_last() =~= a);
            assert(b.drop_last() =~= Seq::<Seq<char>>::empty());
        } else {
            law_join_concatenates(a, b.drop_last(), sep);
            assert((a + b).drop_last() =~= a + b.drop_last());
            assert((a + b).last() == b.last());
        }
    }
}

/// The value of a sequence of decimal digits, read most significant first.
pub open spec fn digits_value(s: Seq<char>) -> int
    decreases s.len(),
{
    if s.len() == 0 {
        0
    } else {
        digits_value(s.drop_last()) * 10 + ((s.last() as int) - ('0' as int))
    }
}

/// The decimal numeral of `n` consists of decimal digits, reads back as `n`,
/// and has no leading zero.
pub proof fn law_decimal_reads_back(n: nat)
    ensures
        decimal(n).len() > 0,
        forall|i: int| 0 <= i < decimal(n).len() ==> '0' <= #[trigger] decimal(n)[i] <= '9',
        digits_value(decimal(n)) == n,
        decimal(n).len() > 1 ==> decimal(n)[0] != '0',
    decreases n,
{
    if n >= 10 {
        law_decimal_reads_back(n / 10);
        let d = decimal(n);
        assert(d.drop_last() =~= decimal(n / 10));
        assert(d.last() == digit_char(n % 10));
        assert((digit_char(n % 10) as int) - ('0' as int) == n % 10);
        assert(digits_value(d) == (n / 10) * 10 + n % 10);
        assert(d[0] == decimal(n / 10)[0]);
        if n / 10 < 10 {
            assert(decimal(n / 10) =~= seq![digit_char(n / 10)]);
            assert((digit_char(n / 10) as int) == ('0' as int) + n / 10);
        } else {
            assert(decimal(n / 10) == decimal(n / 100) + seq![digit_char((n / 10) % 10)]);
            law_decimal_reads_back(n / 100);
        }
        assert forall|i: int| 0 <= i < d.len() implies '0' <= #[trigger] d[i] <= '9' by {
            if i < d.len() - 1 {
                assert(d[i] == decimal(n / 10)[i]);
            }
        }
    } else {
        let d = decimal(n);
        assert(d =~= seq![digit_char(n)]);
        assert(d.drop_last() =~= Seq::<char>::empty());
        assert((digit_char(n) as int) - ('0' as int) == n);
        assert(digits_value(d) == digits_value(d.drop_last()) * 10 + ((d.last() as int) - ('0' as int)));
    }
}

/// The TOON member lines follow the order of the members: the lines of
/// `es + fs` are those of `es` followed by those of `fs`.
pub proof fn law_toon_members_in_order(
    es: Seq<(String, JsonValue)>,
    fs: Seq<(String, JsonValue)>,
    indent: nat,
)
    ensures
        member_lines(es + fs, indent) == member_lines(es, indent) + member_lines(fs, indent),
    decreases fs.len(),
{
    if fs.len() > 0 {
        law_toon_members_in_order(es, fs.drop_last(), indent);
        assert((es + fs).drop_last() =~= es + fs.drop_last());
        assert((es + fs).last() == fs.last());
    } else {
        assert(es + fs =~= es);
    }
}

/// In TOON, a member whose value is an object is its key and `:`, then on
/// the next line the object's own text two positions deeper; a member with
/// a primitive value is `key: ` and the value's compact text on one line.
pub proof fn law_toon_member_nesting(
    key: String,
    v: JsonValue,
    indent: nat,
)
    ensures
        v matches JsonValue::Object(child) ==> toon_object(seq![(key, v)], indent) == indent_of(
            indent,
        ) + key@ + ":"@ + "\n"@ + toon_object(child@, indent + 2),
        primitive(v) ==> toon_object(seq![(key, v)], indent) == indent_of(indent) + key@ + ": "@
            + compact(v),
{
    let es = seq![(key, v)];
    assert(es.drop_last() =~= Seq::<(String, JsonValue)>::empty());
    assert(es.last() == (key, v));
    assert(member_lines(Seq::<(String, JsonValue)>::empty(), indent) == Seq::<Seq<char>>::empty());
    if let JsonValue::Object(child) = v {
        let lines = member_lines(es, indent);
        assert(lines =~= seq![indent_of(indent) + key@ + ":"@, toon_object(child@, indent + 2)]);
        assert(lines.drop_last() =~= seq![indent_of(indent) + key@ + ":"@]);
        assert(join(lines.drop_last(), "\n"@) == indent_of(indent) + key@ + ":"@);
        assert(join(lines, "\n"@) == join(lines.drop_last(), "\n"@) + "\n"@ + lines.last());
        assert(join(lines, "\n"@) =~= indent_of(indent) + key@ + ":"@ + "\n"@ + toon_object(
            child@,
            indent + 2,
        ));
    }
    if primitive(v) {
        assert(member_lines(es, indent) =~= seq![indent_of(indent) + key@ + ": "@ + compact(v)]);
    }
}

/// The text of a tool result takes the text blocks in order and skips the
/// others: the texts of `a + b` are those of `a` followed by those of `b`.
pub proof fn law_tool_result_texts_in_order(a: Seq<ContentBlock>, b: Seq<ContentBlock>, t: String)
    ensures
        text_blocks(a + b) == text_blocks(a) + text_blocks(b),
        text_blocks(a.push(ContentBlock::Text(t))) == text_blocks(a).push(t@),
        text_blocks(a.push(ContentBlock::Other)) == text_blocks(a),
    decreases b.len(),
{
    assert(a.push(ContentBlock::Text(t)).drop_last() =~= a);
    assert(a.push(ContentBlock::Other).drop_last() =~= a);
    if b.len() > 0 {
        law_tool_result_texts_in_order(a, b.drop_last(), t);
        assert((a + b).drop_last() =~= a + b.drop_last());
        assert((a + b).last() == b.last());
    } else {
        assert(a + b =~= a);
    }
}

/// Without `pretty`, the serialisations of a result play no part: results
/// with the same messages (or contents) read the same; a single text message
/// reads as its bare text, and several messages as `[role]` blocks
/// separated by blank lines.
pub proof fn law_plain_results_ignore_serialisation(
    g1: GetPromptResult,
    g2: GetPromptResult,
    r1: ReadResourceResult,
    r2: ReadResourceResult,
)
    ensures
        g1.messages@ == g2.messages@ ==> prompt_result_display(g1, false) == prompt_result_display(
            g2,
            false,
        ),
        r1.contents@ == r2.contents@ ==> resource_result_display(r1, false)
            == resource_result_display(r2, false),
        g1.messages@.len() == 1 ==> (g1.messages@[0].content matches PromptMessageContent::Text(t)
            ==> prompt_result_display(g1, false) == t@),
        g1.messages@.len() > 1 ==> prompt_result_display(g1, false) == join(
            g1.messages@.map_values(|m: PromptMessage| message_block(m)),
            "\n\n"@,
        ),
{
}

/// The value of a lower-case hexadecimal digit.
pub open spec fn hex_value(c: char) -> int {
    if '0' <= c && c <= '9' {
        (c as int) - ('0' as int)
    } else if 'a' <= c && c <= 'f' {
        (c as int) - ('a' as int) + 10
    } else {
        0
    }
}

/// The character that a two-character escape `\c` stands for.
pub open spec fn short_escape(c: char) -> char {
    if c == 'b' {
        '\u{8}'
    } else if c == 't' {
        '\t'
    } else if c == 'n' {
        '\n'
    } else if c == 'f' {
        '\u{c}'
    } else if c == 'r' {
        '\r'
    } else {
        c
    }
}

/// Reads the inside of a JSON string literal back into the characters it
/// denotes: `\uXXXX` by its hexadecimal value, `\c` by `short_escape`, any
/// other character as itself.
pub open spec fn unescape(t: Seq<char>) -> Seq<char>
    decreases t.len(),
{
    if t.len() == 0 {
        seq![]
    } else if t[0] != '\\' || t.len() < 2 {
        seq![t[0]] + unescape(t.drop_first())
    } else if t[1] == 'u' && t.len() >= 6 {
        seq![
            (hex_value(t[2]) * 4096 + hex_value(t[3]) * 256 + hex_value(t[4]) * 16 + hex_value(
                t[5],
            )) as char,
        ] + unescape(t.skip(6))
    } else {
        seq![short_escape(t[1])] + unescape(t.skip(2))
    }
}

proof fn lemma_escaped_front(s: Seq<char>)
    requires
        s.len() > 0,
    ensures
        escaped(s) == escaped_char(s[0]) + escaped(s.drop_first()),
    decreases s.len(),
{
    if s.len() == 1 {
        assert(s.drop_last() =~= Seq::<char>::empty());
        assert(s.drop_first() =~= Seq::<char>::empty());
        assert(escaped(s) =~= escaped_char(s[0]) + escaped(s.drop_first()));
    } else {
        lemma_escaped_front(s.drop_last());
        assert(s.drop_last().drop_first() =~= s.drop_first().drop_last());
        assert(s.drop_first().last() == s.last());
        assert(escaped(s) =~= escaped_char(s[0]) + escaped(s.drop_first()));
    }
}

proof fn lemma_hex_digit_value(n: int)
    requires
        0 <= n < 16,
    ensures
        hex_value(hex_digit(n)) == n,
{
    if n < 10 {
        assert((hex_digit(n) as int) == ('0' as int) + n);
    } else {
        assert((hex_digit(n) as int) == ('a' as int) + (n - 10));
    }
}

proof fn lemma_unescape_one(c: char, rest: Seq<char>)
    ensures
        unescape(escaped_char(c) + rest) == seq![c] + unescape(rest),
{
    let t = escaped_char(c) + rest;
    if c == '"' || c == '\\' || c == '\u{8}' || c == '\t' || c == '\n' || c == '\u{c}' || c
        == '\r' {
        assert(t[0] == '\\');
        assert(t.skip(2) =~= rest);
        assert(unescape(t) == seq![short_escape(t[1])] + unescape(t.skip(2)));
    } else if (c as int) < 0x20 {
        assert(t[0] == '\\' && t[1] == 'u' && t.len() >= 6);
        assert(t.skip(6) =~= rest);
        lemma_hex_digit_value((c as int) / 16);
        lemma_hex_digit_value((c as int) % 16);
        assert(hex_value(t[2]) == 0 && hex_value(t[3]) == 0);
        let v = hex_value(t[2]) * 4096 + hex_value(t[3]) * 256 + hex_value(t[4]) * 16 + hex_value(
            t[5],
        );
        assert(v == (c as int) / 16 * 16 + (c as int) % 16);
        assert(v == c as int);
        assert((v as char) == c);
    } else {
        assert(t[0] == c);
        assert(t.drop_first() =~= rest);
    }
}

/// A JSON string literal reads back as the text it was made from, and holds
/// no control character: its inside decodes to `s`, between two quotes.
pub proof fn law_string_literal_reads_back(s: Seq<char>)
    ensures
        quoted(s) == seq!['"'] + escaped(s) + seq!['"'],
        unescape(escaped(s)) == s,
        forall|i: int| 0 <= i < escaped(s).len() ==> (#[trigger] escaped(s)[i] as int) >= 0x20,
    decreases s.len(),
{
    if s.len() > 0 {
        law_string_literal_reads_back(s.drop_first());
        lemma_escaped_front(s);
        lemma_unescape_one(s[0], escaped(s.drop_first()));
        assert(seq![s[0]] + s.drop_first() =~= s);
        let e = escaped_char(s[0]);
        assert forall|i: int| 0 <= i < e.len() implies (#[trigger] e[i] as int) >= 0x20 by {
            if (s[0] as int) < 0x20 && i >= 4 {
                let n = if i == 4 { (s[0] as int) / 16 } else { (s[0] as int) % 16 };
                assert(e[i] == hex_digit(n));
                if n < 10 {
                    assert((hex_digit(n) as int) == ('0' as int) + n);
                } else {
                    assert((hex_digit(n) as int) == ('a' as int) + (n - 10));
                }
            }
        }
        assert forall|i: int| 0 <= i < escaped(s).len() implies (#[trigger] escaped(s)[i] as int)
            >= 0x20 by {
            if i < e.len() {
                assert(escaped(s)[i] == e[i]);
            } else {
                assert(escaped(s)[i] == escaped(s.drop_first())[i - e.len()]);
            }
        }
    } else {
        assert(escaped(s) =~= Seq::<char>::empty());
    }
}

/// The indentation for position `n` is `n` spaces, up to 32.
pub proof fn law_indentation_is_spaces(n: nat)
    ensures
        indent_of(n).len() == (if n < 32 {
            n
        } else {
            32
        }),
        forall|i: int| 0 <= i < indent_of(n).len() ==> #[trigger] indent_of(n)[i] == ' ',
{
}

/// The plain display of a result: a tool result is the texts of its text
/// blocks separated by line breaks; a resource result is the text or blob of
/// each item separated by blank lines; a message block is `[user]` or
/// `[assistant]`, a line break and the content.
pub proof fn law_plain_result_layout(t: CallToolResult, r: ReadResourceResult, m: PromptMessage)
    ensures
        tool_result_display(t, false) == join(text_blocks(t.content@), "\n"@),
        resource_result_display(r, false) == join(
            r.contents@.map_values(
                |c: ResourceContents|
                    match c {
                        ResourceContents::TextResourceContents { text } => text@,
                        ResourceContents::BlobResourceContents { blob } => blob@,
                    },
            ),
            "\n\n"@,
        ),
        message_block(m) == "["@ + (match m.role {
            Role::User => "user"@,
            Role::Assistant => "assistant"@,
        }) + "]\n"@ + message_content_text(m.content),
{
    assert(r.contents@.map_values(
        |c: ResourceContents|
            match c {
                ResourceContents::TextResourceContents { text } => text@,
                ResourceContents::BlobResourceContents { blob } => blob@,
            },
    ) =~= r.contents@.map_values(|c: ResourceContents| crate::mcp::contents_text(c)));
}

/// A non-empty array of primitives is never a table: at the top level it is
/// `[count]: ` and the compact texts joined by `, `, and as a member
/// `key[count]: ` and the same list; an empty array is `[]` at the top level
/// and `key[0]: ` as a member.
pub proof fn law_primitive_arrays_are_counted_lists(
    items: Seq<JsonValue>,
    indent: nat,
    key: Seq<char>,
)
    requires
        forall|i: int| 0 <= i < items.len() ==> primitive(#[trigger] items[i]),
    ensures
        items.len() > 0 ==> toon_array(items, indent, None) == "["@ + decimal(items.len()) + "]: "@
            + join(items.map_values(|v: JsonValue| compact(v)), ", "@),
        member_array_line(key, items, indent) == indent_of(indent) + key + "["@ + decimal(
            items.len(),
        ) + "]: "@ + join(items.map_values(|v: JsonValue| compact(v)), ", "@),
        items.len() == 0 ==> toon_array(items, indent, None) == "[]"@,
{
    assert(table(items, indent, None) is None);
    assert(table(items, indent, Some(key)) is None);
    assert(named_prefix(indent, None) == Seq::<char>::empty());
    assert(named_prefix(indent, None) + "["@ =~= "["@);
}

} // verus!
