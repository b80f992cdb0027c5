use vstd::prelude::*;
use vstd::string::*;

use crate::text::{
    contains_str, decimal, join, join_strings, occurs_in, push_decimal, views,
};

verus! {

/// A block of content in the result of a tool call: text, or content of
/// another kind (an image, audio, a resource).
pub enum ContentBlock {
    Text(String),
    Other,
}

/// The result of a tool call, as far as it is shown: its content blocks.
pub struct CallToolResult {
    pub content: Vec<ContentBlock>,
}

/// The JSON serialisations of a result, as `serde_json` writes them, each
/// present when the serialisation succeeded.
pub struct JsonRendering {
    pub pretty: Option<String>,
    pub compact: Option<String>,
}

/// Who speaks a prompt message.
#[derive(Copy, Clone, Debug, PartialEq, Eq, Structural)]
pub enum Role {
    User,
    Assistant,
}

/// The content of a prompt message: text, or content of another kind given
/// by its JSON serialisations.
pub enum PromptMessageContent {
    Text(String),
    Other(JsonRendering),
}

/// One message of a prompt.
pub struct PromptMessage {
    pub role: Role,
    pub content: PromptMessageContent,
}

/// The result of getting a prompt: its messages and its own serialisations.
pub struct GetPromptResult {
    pub messages: Vec<PromptMessage>,
    pub json: JsonRendering,
}

/// One item of the contents of a resource: text, or a base64 blob.
pub enum ResourceContents {
    TextResourceContents { text: String },
    BlobResourceContents { blob: String },
}

/// The result of reading a resource: its contents and its own
/// serialisations.
pub struct ReadResourceResult {
    pub contents: Vec<ResourceContents>,
    pub json: JsonRendering,
}

/// A tool as listed: its name and optional description.
pub struct Tool {
    pub name: String,
    pub description: Option<String>,
}

/// A prompt as listed: its name and optional description.
pub struct Prompt {
    pub name: String,
    pub description: Option<String>,
}

/// A resource as listed: its name, URI and optional description.
pub struct Resource {
    pub name: String,
    pub uri: String,
    pub description: Option<String>,
}

/// A serialisation to show: the pretty one, else the compact one, else
/// nothing.
pub open spec fn rendered(j: JsonRendering) -> Seq<char> {
    match j.pretty {
        Some(p) => p@,
        None => match j.compact {
            Some(c) => c@,
            None => seq![],
        },
    }
}

fn render_json(j: &JsonRendering) -> (r: String)
    ensures
        r@ == rendered(*j),
{
    match &j.pretty {
        Some(p) => p.clone(),
        None => match &j.compact {
            Some(c) => c.clone(),
            None => String::new(),
        },
    }
}

/// The texts of the text blocks, in order.
pub open spec fn text_blocks(blocks: Seq<ContentBlock>) -> Seq<Seq<char>>
    decreases blocks.len(),
{
    if blocks.len() == 0 {
        seq![]
    } else {
        text_blocks(blocks.drop_last()) + match blocks.last() {
            ContentBlock::Text(t) => seq![t@],
            ContentBlock::Other => seq![],
        }
    }
}

/// The texts of a tool result, one after another on separate lines.
pub open spec fn tool_result_text(result: CallToolResult) -> Seq<char> {
    join(text_blocks(result.content@), "\n"@)
}

/// What `serde_json` makes of a text when it parses it as JSON and writes
/// the value back pretty-printed: `None` when the text is not JSON.
pub uninterp spec fn json_reformatted_pretty(text: Seq<char>) -> Option<Seq<char>>;

/// `serde_json::from_str::<serde_json::Value>` on `text`, followed, when the
/// text parses, by `serde_json::to_string_pretty` on the parsed value.
///
/// Claimed: the outcome is a function of the text alone, named
/// `json_reformatted_pretty`; what that text is, is not stated.
#[verifier::external_body]
fn reformat_json_pretty(text: &str) -> (r: Option<String>)
    ensures
        match r {
            Some(s) => json_reformatted_pretty(text@) == Some(s@),
            None => json_reformatted_pretty(text@) is None,
        },
{
    match serde_json::from_str::<serde_json::Value>(text) {
        Ok(v) => serde_json::to_string_pretty(&v).ok(),
        Err(_) => None,
    }
}

/// The display of a tool result: the texts of its text blocks on separate
/// lines; with `pretty`, when that text is JSON, its pretty-printed form.
pub open spec fn tool_result_display(result: CallToolResult, pretty: bool) -> Seq<char> {
    let text = tool_result_text(result);
    if pretty {
        match json_reformatted_pretty(text) {
            Some(p) => p,
            None => text,
        }
    } else {
        text
    }
}

/// Formats the result of a tool call for display.
pub fn format_tool_result(result: &CallToolResult, pretty: bool) -> (r: String)
    ensures
        r@ == tool_result_display(*result, pretty),
{
    let mut texts: Vec<String> = Vec::new();
    let mut i: usize = 0;
    while i < result.content.len()
        invariant
            i <= result.content@.len(),
            views(texts@) =~= text_blocks(result.content@.take(i as int)),
        decreases result.content@.len() - i,
    {
        let ghost before = texts@;
        assert(result.content@.take(i + 1).drop_last() =~= result.content@.take(i as int));
        match &result.content[i] {
            ContentBlock::Text(t) => {
                texts.push(t.clone());
            },
            ContentBlock::Other => {},
        }
        i += 1;
        assert(views(texts@) =~= text_blocks(result.content@.take(i as int)));
    }
    assert(result.content@.take(result.content@.len() as int) =~= result.content@);
    let output = join_strings(&texts, "\n");
    if pretty {
        if let Some(p) = reformat_json_pretty(output.as_str()) {
            return p;
        }
    }
    output
}

/// The label of a role.
pub open spec fn role_name(role: Role) -> Seq<char> {
    match role {
        Role::User => "user"@,
        Role::Assistant => "assistant"@,
    }
}

/// The text of a message's content: the text itself, or the content's
/// serialisation.
pub open spec fn message_content_text(c: PromptMessageContent) -> Seq<char> {
    match c {
        PromptMessageContent::Text(t) => t@,
        PromptMessageContent::Other(j) => rendered(j),
    }
}

/// A message as shown among others: `[role]`, a line break, its content.
pub open spec fn message_block(m: PromptMessage) -> Seq<char> {
    "["@ + role_name(m.role) + "]\n"@ + message_content_text(m.content)
}

/// The display of a prompt result: with `pretty`, its serialisation; the
/// bare text of a single text message; otherwise each message as a block,
/// separated by blank lines.
pub open spec fn prompt_result_display(result: GetPromptResult, pretty: bool) -> Seq<char> {
    let ms = result.messages@;
    if pretty {
        rendered(result.json)
    } else if ms.len() == 1 && ms[0].content is Text {
        message_content_text(ms[0].content)
    } else {
        join(ms.map_values(|m: PromptMessage| message_block(m)), "\n\n"@)
    }
}

fn render_message(m: &PromptMessage) -> (r: String)
    ensures
        r@ == message_block(*m),
{
    let mut out = String::from_str("[");
    match m.role {
        Role::User => out.append("user"),
        Role::Assistant => out.append("assistant"),
    }
    out.append("]\n");
    let content = match &m.content {
        PromptMessageContent::Text(t) => t.clone(),
        PromptMessageContent::Other(j) => render_json(j),
    };
    out.append(content.as_str());
    assert(out@ =~= message_block(*m));
    out
}

/// Formats the result of getting a prompt for display.
pub fn format_prompt_result(result: &GetPromptResult, pretty: bool) -> (r: String)
    ensures
        r@ == prompt_result_display(*result, pretty),
{
    if pretty {
        return render_json(&result.json);
    }
    if result.messages.len() == 1 {
        if let PromptMessageContent::Text(text) = &result.messages[0].content {
            return text.clone();
        }
    }
    let ghost ms = result.messages@;
    let mut blocks: Vec<String> = Vec::new();
    let mut i: usize = 0;
    while i < result.messages.len()
        invariant
            ms == result.messages@,
            i <= ms.len(),
            blocks@.len() == i,
            views(blocks@) =~= ms.take(i as int).map_values(|m: PromptMessage| message_block(m)),
        decreases ms.len() - i,
    {
        let b = render_message(&result.messages[i]);
        let ghost before = blocks@;
        blocks.push(b);
        i += 1;
        assert forall|j: int| 0 <= j < i implies #[trigger] views(blocks@)[j] == ms.take(
            i as int,
        ).map_values(|m: PromptMessage| message_block(m))[j] by {
            if j < i - 1 {
                assert(views(blocks@)[j] == views(before)[j]);
            }
        }
        assert(views(blocks@) =~= ms.take(i as int).map_values(|m: PromptMessage| message_block(m)));
    }
    assert(ms.take(ms.len() as int) =~= ms);
    join_strings(&blocks, "\n\n")
}

/// The text of one item of a resource's contents: its text or its blob.
pub open spec fn contents_text(c: ResourceContents) -> Seq<char> {
    match c {
        ResourceContents::TextResourceContents { text } => text@,
        ResourceContents::BlobResourceContents { blob } => blob@,
    }
}

/// The display of a resource result: with `pretty`, its serialisation;
/// otherwise the texts of its contents, separated by blank lines.
pub open spec fn resource_result_display(result: ReadResourceResult, pretty: bool) -> Seq<char> {
    if pretty {
        rendered(result.json)
    } else {
        join(result.contents@.map_values(|c: ResourceContents| contents_text(c)), "\n\n"@)
    }
}

/// Formats the result of reading a resource for display.
pub fn format_resource_result(result: &ReadResourceResult, pretty: bool) -> (r: String)
    ensures
        r@ == resource_result_display(*result, pretty),
{
    if pretty {
        return render_json(&result.json);
    }
    let ghost cs = result.contents@;
    let mut parts: Vec<String> = Vec::new();
    let mut i: usize = 0;
    while i < result.contents.len()
        invariant
            cs == result.contents@,
            i <= cs.len(),
            parts@.len() == i,
            views(parts@) =~= cs.take(i as int).map_values(|c: ResourceContents| contents_text(c)),
        decreases cs.len() - i,
    {
        let part = match &result.contents[i] {
            ResourceContents::TextResourceContents { text } => text.clone(),
            ResourceContents::BlobResourceContents { blob } => blob.clone(),
        };
        let ghost before = parts@;
        parts.push(part);
        i += 1;
        assert forall|j: int| 0 <= j < i implies #[trigger] views(parts@)[j] == cs.take(
            i as int,
        ).map_values(|c: ResourceContents| contents_text(c))[j] by {
            if j < i - 1 {
                assert(views(parts@)[j] == views(before)[j]);
            }
        }
        assert(views(parts@) =~= cs.take(i as int).map_values(
            |c: ResourceContents| contents_text(c),
        ));
    }
    assert(cs.take(cs.len() as int) =~= cs);
    join_strings(&parts, "\n\n")
}

/// The lower-case form of a text as `str::to_lowercase` gives it (each
/// character mapped by the Unicode `Lowercase` mapping).
pub uninterp spec fn lowercase(s: Seq<char>) -> Seq<char>;

/// `str::to_lowercase`.
///
/// Claimed: the result is a function of the text alone, named `lowercase`;
/// the Unicode mapping itself is not stated.
#[verifier::external_body]
fn to_lowercase(s: &str) -> (r: String)
    ensures
        r@ == lowercase(s@),
{
    s.to_lowercase()
}

/// The description of a listed item, empty when it has none.
pub open spec fn description_text(d: Option<String>) -> Seq<char> {
    match d {
        Some(t) => t@,
        None => seq![],
    }
}

/// A tool passes the search: there is none, or the lower-cased pattern
/// occurs in the lower-cased name or in the lower-cased description.
pub open spec fn tool_matches(t: Tool, search: Option<Seq<char>>) -> bool {
    match search {
        None => true,
        Some(p) => occurs_in(lowercase(p), lowercase(t.name@)) || occurs_in(
            lowercase(p),
            lowercase(description_text(t.description)),
        ),
    }
}

/// The lines of a tool that is shown: `  name`, then `    description` when
/// the description is not empty.
pub open spec fn tool_entry(t: Tool) -> Seq<Seq<char>> {
    let d = description_text(t.description);
    if d.len() == 0 {
        seq!["  "@ + t.name@]
    } else {
        seq!["  "@ + t.name@, "    "@ + d]
    }
}

/// The lines of the tools that pass the search, in order.
pub open spec fn tool_lines(tools: Seq<Tool>, search: Option<Seq<char>>) -> Seq<Seq<char>>
    decreases tools.len(),
{
    if tools.len() == 0 {
        seq![]
    } else {
        tool_lines(tools.drop_last(), search) + if tool_matches(tools.last(), search) {
            tool_entry(tools.last())
        } else {
            seq![]
        }
    }
}

/// The listing of tools: when no line is shown, a notice (one for a search
/// that matched nothing, one for an empty list); otherwise a heading with
/// the number of all tools, searched or not, followed by the lines.
pub open spec fn tool_list_display(tools: Seq<Tool>, search: Option<Seq<char>>) -> Seq<char> {
    let lines = tool_lines(tools, search);
    if lines.len() == 0 {
        if search is Some {
            "No matching tools found."@
        } else {
            "No tools available."@
        }
    } else {
        "Tools ("@ + decimal(tools.len()) + "):\n"@ + join(lines, "\n"@)
    }
}

/// An optional text as a character sequence.
pub open spec fn opt_view(s: Option<&str>) -> Option<Seq<char>> {
    match s {
        Some(t) => Some(t@),
        None => None,
    }
}

/// Formats a list of tools for display, keeping those that match `search`
/// (case-insensitively, in the name or the description) when it is given.
pub fn format_tool_list(tools: &[Tool], search: Option<&str>) -> (r: String)
    ensures
        r@ == tool_list_display(tools@, opt_view(search)),
{
    let ghost ts = tools@;
    let pattern_lower = match search {
        Some(p) => Some(to_lowercase(p)),
        None => None,
    };
    let mut lines: Vec<String> = Vec::new();
    let mut i: usize = 0;
    while i < tools.len()
        invariant
            ts == tools@,
            i <= ts.len(),
            match search {
                Some(p) => pattern_lower matches Some(l) && l@ == lowercase(p@),
                None => pattern_lower is None,
            },
            views(lines@) =~= tool_lines(ts.take(i as int), opt_view(search)),
        decreases ts.len() - i,
    {
        let ghost before = lines@;
        assert(ts.take(i + 1).drop_last() =~= ts.take(i as int));
        let tool = &tools[i];
        let desc: &str = match &tool.description {
            Some(d) => d.as_str(),
            None => "",
        };
        proof {
            reveal_strlit("");
        }
        assert(desc@ == description_text(tool.description));
        let shown = match &pattern_lower {
            Some(l) => {
                let name_lower = to_lowercase(tool.name.as_str());
                let desc_lower = to_lowercase(desc);
                contains_str(name_lower.as_str(), l.as_str()) || contains_str(
                    desc_lower.as_str(),
                    l.as_str(),
                )
            },
            None => true,
        };
        if shown {
            let mut name_line = String::from_str("  ");
            name_line.append(tool.name.as_str());
            lines.push(name_line);
            if !desc.is_empty() {
                let mut desc_line = String::from_str("    ");
                desc_line.append(desc);
                lines.push(desc_line);
            }
        }
        i += 1;
        assert(views(lines@) =~= tool_lines(ts.take(i as int), opt_view(search)));
    }
    assert(ts.take(ts.len() as int) =~= ts);
    if lines.len() == 0 {
        if search.is_some() {
            return String::from_str("No matching tools found.");
        }
        return String::from_str("No tools available.");
    }
    let mut out = String::from_str("Tools (");
    push_decimal(tools.len(), &mut out);
    out.append("):\n");
    let body = join_strings(&lines, "\n");
    out.append(body.as_str());
    assert(out@ =~= tool_list_display(ts, opt_view(search)));
    out
}

/// The lines of a listed item: `head`, then `    description` when it has
/// a description (an empty one included).
pub open spec fn described_entry(head: Seq<char>, d: Option<String>) -> Seq<Seq<char>> {
    match d {
        Some(t) => seq![head, "    "@ + t@],
        None => seq![head],
    }
}

/// The lines of the prompts, in order.
pub open spec fn prompt_lines(prompts: Seq<Prompt>) -> Seq<Seq<char>>
    decreases prompts.len(),
{
    if prompts.len() == 0 {
        seq![]
    } else {
        prompt_lines(prompts.drop_last()) + described_entry(
            "  "@ + prompts.last().name@,
            prompts.last().description,
        )
    }
}

/// The listing of prompts: a notice when there are none, otherwise a
/// heading with their number followed by their lines.
pub open spec fn prompt_list_display(prompts: Seq<Prompt>) -> Seq<char> {
    if prompts.len() == 0 {
        "No prompts available."@
    } else {
        "Prompts ("@ + decimal(prompts.len()) + "):\n"@ + join(prompt_lines(prompts), "\n"@)
    }
}

/// Pushes the lines of an item with the heading `head` and an optional
/// description.
fn push_described(lines: &mut Vec<String>, head: String, d: &Option<String>)
    ensures
        views(final(lines)@) == views(old(lines)@) + described_entry(head@, *d),
{
    let ghost start = lines@;
    lines.push(head);
    match d {
        Some(t) => {
            let mut line = String::from_str("    ");
            line.append(t.as_str());
            lines.push(line);
        },
        None => {},
    }
    assert(views(lines@) =~= views(start) + described_entry(head@, *d));
}

/// Formats a list of prompts for display.
pub fn format_prompt_list(prompts: &[Prompt]) -> (r: String)
    ensures
        r@ == prompt_list_display(prompts@),
{
    let ghost ps = prompts@;
    let mut lines: Vec<String> = Vec::new();
    let mut i: usize = 0;
    while i < prompts.len()
        invariant
            ps == prompts@,
            i <= ps.len(),
            views(lines@) =~= prompt_lines(ps.take(i as int)),
        decreases ps.len() - i,
    {
        assert(ps.take(i + 1).drop_last() =~= ps.take(i as int));
        let mut head = String::from_str("  ");
        head.append(prompts[i].name.as_str());
        push_described(&mut lines, head, &prompts[i].description);
        i += 1;
    }
    assert(ps.take(ps.len() as int) =~= ps);
    if lines.len() == 0 {
        return String::from_str("No prompts available.");
    }
    let mut out = String::from_str("Prompts (");
    push_decimal(prompts.len(), &mut out);
    out.append("):\n");
    let body = join_strings(&lines, "\n");
    out.append(body.as_str());
    assert(out@ =~= prompt_list_display(ps));
    out
}

/// The heading line of a resource: `  name (uri)`.
pub open spec fn resource_head(r: Resource) -> Seq<char> {
    "  "@ + r.name@ + " ("@ + r.uri@ + ")"@
}

/// The lines of the resources, in order.
pub open spec fn resource_lines(resources: Seq<Resource>) -> Seq<Seq<char>>
    decreases resources.len(),
{
    if resources.len() == 0 {
        seq![]
    } else {
        resource_lines(resources.drop_last()) + described_entry(
            resource_head(resources.last()),
            resources.last().description,
        )
    }
}

/// The listing of resources: a notice when there are none, otherwise a
/// heading with their number followed by their lines.
pub open spec fn resource_list_display(resources: Seq<Resource>) -> Seq<char> {
    if resources.len() == 0 {
        "No resources available."@
    } else {
        "Resources ("@ + decimal(resources.len()) + "):\n"@ + join(
            resource_lines(resources),
            "\n"@,
        )
    }
}

/// Formats a list of resources for display.
pub fn format_resource_list(resources: &[Resource]) -> (r: String)
    ensures
        r@ == resource_list_display(resources@),
{
    let ghost rs = resources@;
    let mut lines: Vec<String> = Vec::new();
    let mut i: usize = 0;
    while i < resources.len()
        invariant
            rs == resources@,
            i <= rs.len(),
            views(lines@) =~= resource_lines(rs.take(i as int)),
        decreases rs.len() - i,
    {
        assert(rs.take(i + 1).drop_last() =~= rs.take(i as int));
        let mut head = String::from_str("  ");
        head.append(resources[i].name.as_str());
        head.append(" (");
        head.append(resources[i].uri.as_str());
        head.append(")");
        assert(head@ =~= resource_head(rs[i as int]));
        push_described(&mut lines, head, &resources[i].description);
        i += 1;
    }
    assert(rs.take(rs.len() as int) =~= rs);
    if lines.len() == 0 {
        return String::from_str("No resources available.");
    }
    let mut out = String::from_str("Resources (");
    push_decimal(resources.len(), &mut out);
    out.append("):\n");
    let body = join_strings(&lines, "\n");
    out.append(body.as_str());
    assert(out@ =~= resource_list_display(rs));
    out
}

} // verus!
