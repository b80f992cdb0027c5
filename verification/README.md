# sxmc output formatting, verified

The part of sxmc that turns MCP results and structured values into terminal
text, written in Verus with its behaviour stated as contracts and proved.

- `src/format.rs` — the output layouts (`json`, `json-pretty`, `toon`), how a
  layout is chosen, and `format_structured_value`.
- `src/json.rs` — the JSON value model, JSON string literals, and the compact
  and pretty JSON writers.
- `src/toon.rs` — the TOON layout: objects as `key: value` lines, uniform
  arrays of objects as tables, lists of primitives as counted lists.
- `src/mcp.rs` — tool, prompt and resource results and listings.
- `src/text.rs` — joining, decimal numerals and substring search.
- `src/laws.rs` — properties of the library as a whole, proved.
- `app/` — the command-line layout choice (`clap`) and the conversion of
  `serde_json` values and `rmcp` results into the library's types.

The tests under `tests/` compare the JSON writers with `serde_json` and
check the listings against sample outputs.
