use sxmc::mcp::{
    format_prompt_list, format_prompt_result, format_resource_list, format_resource_result,
    format_tool_list, format_tool_result, CallToolResult, ContentBlock, GetPromptResult,
    JsonRendering, Prompt, PromptMessage, PromptMessageContent, ReadResourceResult, Resource,
    ResourceContents, Role, Tool,
};
use sxmc::text::{contains_str, join_strings, push_decimal};

fn tool(name: &str, description: Option<&str>) -> Tool {
    Tool { name: name.to_string(), description: description.map(|d| d.to_string()) }
}

fn no_json() -> JsonRendering {
    JsonRendering { pretty: None, compact: None }
}

fn sample_tools() -> Vec<Tool> {
    vec![
        tool(
            "get_available_skills",
            Some("List available skills with their prompt, tool, and resource metadata"),
        ),
        tool(
            "get_skill_details",
            Some("Get detailed information for a skill, including its prompt body and file listing"),
        ),
        tool(
            "get_skill_related_file",
            Some("Read a file from within a skill directory using a safe relative path"),
        ),
        tool("skill_with_scripts__hello", Some("Run hello.sh from skill 'skill-with-scripts'")),
    ]
}

#[test]
fn tool_list_matches_documented_sample() {
    let expected = "Tools (4):\n  get_available_skills\n    List available skills with their prompt, tool, and resource metadata\n  get_skill_details\n    Get detailed information for a skill, including its prompt body and file listing\n  get_skill_related_file\n    Read a file from within a skill directory using a safe relative path\n  skill_with_scripts__hello\n    Run hello.sh from skill 'skill-with-scripts'";
    assert_eq!(format_tool_list(&sample_tools(), None), expected);
}

#[test]
fn tool_list_search_is_case_insensitive_and_keeps_total_count() {
    let out = format_tool_list(&sample_tools(), Some("HELLO"));
    assert_eq!(out, "Tools (4):\n  skill_with_scripts__hello\n    Run hello.sh from skill 'skill-with-scripts'");
    let out = format_tool_list(&sample_tools(), Some("Relative PATH"));
    assert_eq!(out, "Tools (4):\n  get_skill_related_file\n    Read a file from within a skill directory using a safe relative path");
}

#[test]
fn tool_list_notices() {
    assert_eq!(format_tool_list(&sample_tools(), Some("zzz")), "No matching tools found.");
    assert_eq!(format_tool_list(&[], None), "No tools available.");
    assert_eq!(format_tool_list(&[], Some("x")), "No matching tools found.");
}

#[test]
fn tool_list_omits_empty_descriptions() {
    let tools = vec![tool("a", None), tool("b", Some(""))];
    assert_eq!(format_tool_list(&tools, None), "Tools (2):\n  a\n  b");
}

#[test]
fn prompt_list_matches_documented_sample() {
    let prompts = vec![
        Prompt { name: "malicious-skill".into(), description: Some("A test skill with security issues".into()) },
        Prompt { name: "simple-skill".into(), description: Some("A simple test skill".into()) },
        Prompt { name: "skill-with-references".into(), description: Some("A skill with reference documents".into()) },
        Prompt { name: "skill-with-scripts".into(), description: Some("A skill with executable scripts".into()) },
    ];
    let expected = "Prompts (4):\n  malicious-skill\n    A test skill with security issues\n  simple-skill\n    A simple test skill\n  skill-with-references\n    A skill with reference documents\n  skill-with-scripts\n    A skill with executable scripts";
    assert_eq!(format_prompt_list(&prompts), expected);
    assert_eq!(format_prompt_list(&[]), "No prompts available.");
    let bare = vec![Prompt { name: "p".into(), description: None }, Prompt { name: "q".into(), description: Some(String::new()) }];
    assert_eq!(format_prompt_list(&bare), "Prompts (2):\n  p\n  q\n    ");
}

#[test]
fn resource_list_matches_documented_sample() {
    let resources = vec![Resource {
        name: "style-guide.md".into(),
        uri: "skill://skill-with-references/references/style-guide.md".into(),
        description: Some("Reference from skill 'skill-with-references'".into()),
    }];
    let expected = "Resources (1):\n  style-guide.md (skill://skill-with-references/references/style-guide.md)\n    Reference from skill 'skill-with-references'";
    assert_eq!(format_resource_list(&resources), expected);
    assert_eq!(format_resource_list(&[]), "No resources available.");
}

#[test]
fn tool_result_joins_text_blocks() {
    let result = CallToolResult {
        content: vec![
            ContentBlock::Text("first".into()),
            ContentBlock::Other,
            ContentBlock::Text("second".into()),
        ],
    };
    assert_eq!(format_tool_result(&result, false), "first\nsecond");
    assert_eq!(format_tool_result(&result, true), "first\nsecond");
    assert_eq!(format_tool_result(&CallToolResult { content: vec![] }, false), "");
}

#[test]
fn tool_result_pretty_prints_json_text() {
    let result = CallToolResult { content: vec![ContentBlock::Text("{\"b\":[1,2],\"a\":null}".into())] };
    assert_eq!(format_tool_result(&result, true), "{\n  \"a\": null,\n  \"b\": [\n    1,\n    2\n  ]\n}");
    assert_eq!(format_tool_result(&result, false), "{\"b\":[1,2],\"a\":null}");
    let sum = CallToolResult { content: vec![ContentBlock::Text("The sum of 2 and 3 is 5.".into())] };
    assert_eq!(format_tool_result(&sum, true), "The sum of 2 and 3 is 5.");
}

#[test]
fn prompt_result_single_text_message_is_bare() {
    let result = GetPromptResult {
        messages: vec![PromptMessage {
            role: Role::User,
            content: PromptMessageContent::Text("Hello , welcome to sxmc!".into()),
        }],
        json: JsonRendering { pretty: Some("{pretty}".into()), compact: Some("{compact}".into()) },
    };
    assert_eq!(format_prompt_result(&result, false), "Hello , welcome to sxmc!");
    assert_eq!(format_prompt_result(&result, true), "{pretty}");
}

#[test]
fn prompt_result_blocks() {
    let result = GetPromptResult {
        messages: vec![
            PromptMessage { role: Role::User, content: PromptMessageContent::Text("hi".into()) },
            PromptMessage {
                role: Role::Assistant,
                content: PromptMessageContent::Other(JsonRendering {
                    pretty: None,
                    compact: Some("{\"type\":\"image\"}".into()),
                }),
            },
        ],
        json: JsonRendering { pretty: None, compact: Some("{c}".into()) },
    };
    assert_eq!(format_prompt_result(&result, false), "[user]\nhi\n\n[assistant]\n{\"type\":\"image\"}");
    assert_eq!(format_prompt_result(&result, true), "{c}");
    let single_other = GetPromptResult {
        messages: vec![PromptMessage { role: Role::Assistant, content: PromptMessageContent::Other(no_json()) }],
        json: no_json(),
    };
    assert_eq!(format_prompt_result(&single_other, false), "[assistant]\n");
    assert_eq!(format_prompt_result(&single_other, true), "");
}

#[test]
fn resource_result_contents() {
    let result = ReadResourceResult {
        contents: vec![
            ResourceContents::TextResourceContents { text: "body".into() },
            ResourceContents::BlobResourceContents { blob: "aGk=".into() },
        ],
        json: JsonRendering { pretty: Some("{p}".into()), compact: None },
    };
    assert_eq!(format_resource_result(&result, false), "body\n\naGk=");
    assert_eq!(format_resource_result(&result, true), "{p}");
}

#[test]
fn text_helpers() {
    assert!(contains_str("get_skill_details", "skill"));
    assert!(contains_str("abc", ""));
    assert!(contains_str("", ""));
    assert!(!contains_str("", "a"));
    assert!(!contains_str("ab", "abc"));
    assert!(contains_str("漢字テスト", "字テ"));
    for (n, s) in [(0usize, "0"), (9, "9"), (10, "10"), (12345, "12345")] {
        let mut out = String::from(">");
        push_decimal(n, &mut out);
        assert_eq!(out, format!(">{}", s));
    }
    let parts = vec!["a".to_string(), "b".to_string(), "c".to_string()];
    assert_eq!(join_strings(&parts, ", "), "a, b, c");
    assert_eq!(join_strings(&vec![], ", "), "");
}
