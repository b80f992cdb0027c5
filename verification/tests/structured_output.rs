use serde_json::{Number, Value};
use sxmc::format::{format_structured_value, resolve_structured_format, StructuredOutputFormat};
use sxmc::json::{string_literal, to_compact_json, to_pretty_json, JsonValue};
use sxmc::toon::{encode_toon, indent_str, render_scalar, tabular_headers};

fn lib_value(v: &Value) -> JsonValue {
    match v {
        Value::Null => JsonValue::Null,
        Value::Bool(b) => JsonValue::Bool(*b),
        Value::Number(n) => JsonValue::Number(n.to_string()),
        Value::String(s) => JsonValue::String(s.clone()),
        Value::Array(items) => JsonValue::Array(items.iter().map(lib_value).collect()),
        Value::Object(map) => JsonValue::Object(
            map.iter()
                .map(|(k, v)| (k.clone(), lib_value(v)))
                .collect(),
        ),
    }
}

fn object(members: Vec<(&str, Value)>) -> Value {
    let mut map = serde_json::Map::new();
    for (k, v) in members {
        map.insert(k.to_string(), v);
    }
    Value::Object(map)
}

fn string(s: &str) -> Value {
    Value::String(s.to_string())
}

fn num(n: i64) -> Value {
    Value::Number(Number::from(n))
}

fn samples() -> Vec<Value> {
    vec![
        Value::Null,
        Value::Bool(true),
        Value::Bool(false),
        num(0),
        num(-42),
        Value::Number(Number::from_f64(1.5).unwrap()),
        Value::Number(Number::from_f64(1e300).unwrap()),
        Value::Number(Number::from(u64::MAX)),
        string(""),
        string("plain"),
        string("quote \" backslash \\ slash / tab \t newline \n cr \r"),
        string("\u{0}\u{1}\u{8}\u{c}\u{1f}\u{7f} é 漢字 🦀"),
        Value::Array(vec![]),
        object(vec![]),
        Value::Array(vec![num(1), Value::Array(vec![]), object(vec![]), string("x")]),
        object(vec![
            ("name", string("Ada")),
            ("tags", Value::Array(vec![string("a"), string("b")])),
            ("nested", object(vec![("deep", Value::Array(vec![object(vec![("k", Value::Null)])]))])),
            ("we\"ird\nkey", Value::Bool(false)),
        ]),
    ]
}

#[test]
fn test_format_structured_value_json_compact() {
    let value = object(vec![("name", string("Ada")), ("count", num(2))]);
    let rendered = format_structured_value(&lib_value(&value), StructuredOutputFormat::Json);
    let reparsed: Value = serde_json::from_str(&rendered).unwrap();
    assert_eq!(reparsed, value);
}

#[test]
fn test_format_structured_value_toon_object() {
    let value = object(vec![
        ("name", string("Ada")),
        ("active", Value::Bool(true)),
        ("stats", object(vec![("count", num(2))])),
    ]);

    let output = format_structured_value(&lib_value(&value), StructuredOutputFormat::Toon);
    assert!(output.contains(r#"name: "Ada""#));
    assert!(output.contains("active: true"));
    assert!(output.contains("stats:"));
    assert!(output.contains("  count: 2"));
}

#[test]
fn test_format_structured_value_toon_tabular_array() {
    let value = object(vec![(
        "pets",
        Value::Array(vec![
            object(vec![("id", num(1)), ("name", string("Mochi"))]),
            object(vec![("id", num(2)), ("name", string("Pixel"))]),
        ]),
    )]);

    let output = format_structured_value(&lib_value(&value), StructuredOutputFormat::Toon);
    assert!(output.contains("pets[2]{id,name}:"));
    assert!(output.contains(r#"  1,"Mochi""#));
    assert!(output.contains(r#"  2,"Pixel""#));
}

#[test]
fn compact_json_matches_serde_json() {
    for v in samples() {
        assert_eq!(to_compact_json(&lib_value(&v)), serde_json::to_string(&v).unwrap());
        assert_eq!(to_compact_json(&lib_value(&v)), v.to_string());
    }
}

#[test]
fn pretty_json_matches_serde_json() {
    for v in samples() {
        assert_eq!(to_pretty_json(&lib_value(&v)), serde_json::to_string_pretty(&v).unwrap());
        assert_eq!(
            format_structured_value(&lib_value(&v), StructuredOutputFormat::JsonPretty),
            serde_json::to_string_pretty(&v).unwrap()
        );
    }
}

#[test]
fn string_literal_escapes() {
    assert_eq!(string_literal("a\"b\\c\nd\u{1}e"), "\"a\\\"b\\\\c\\nd\\u0001e\"");
    assert_eq!(string_literal(""), "\"\"");
    assert_eq!(string_literal("\u{1f}"), "\"\\u001f\"");
    assert_eq!(string_literal("\u{8}\u{c}\t\r"), "\"\\b\\f\\t\\r\"");
    assert_eq!(string_literal("é/"), "\"é/\"");
}

#[test]
fn scalars_read_the_same_in_every_layout() {
    for v in [Value::Null, Value::Bool(false), num(7), string("hi \"you\"")] {
        let lib = lib_value(&v);
        let json = format_structured_value(&lib, StructuredOutputFormat::Json);
        assert_eq!(format_structured_value(&lib, StructuredOutputFormat::Toon), json);
        assert_eq!(format_structured_value(&lib, StructuredOutputFormat::JsonPretty), json);
        assert_eq!(render_scalar(&lib), json);
    }
}

#[test]
fn toon_top_level_arrays() {
    let primitives = Value::Array(vec![num(1), string("two"), Value::Null]);
    assert_eq!(encode_toon(&lib_value(&primitives)), "[3]: 1, \"two\", null");
    assert_eq!(encode_toon(&lib_value(&Value::Array(vec![]))), "[]");
    let mixed = Value::Array(vec![num(1), Value::Array(vec![num(2)])]);
    assert_eq!(encode_toon(&lib_value(&mixed)), "[1,[2]]");
    let table = Value::Array(vec![
        object(vec![("a", num(1)), ("b", Value::Bool(true))]),
        object(vec![("a", num(2)), ("b", Value::Null)]),
    ]);
    assert_eq!(encode_toon(&lib_value(&table)), "[2]{a,b}:\n  1,true\n  2,null");
}

#[test]
fn toon_objects() {
    assert_eq!(encode_toon(&lib_value(&object(vec![]))), "{}");
    let value = object(vec![
        ("child", object(vec![])),
        ("empty", Value::Array(vec![])),
        ("list", Value::Array(vec![num(1), num(2)])),
        ("mixed", Value::Array(vec![num(1), object(vec![("x", num(1))])])),
        ("name", string("Ada")),
    ]);
    assert_eq!(
        encode_toon(&lib_value(&value)),
        "child:\n{}\nempty[0]: \nlist[2]: 1, 2\nmixed: [1,{\"x\":1}]\nname: \"Ada\""
    );
    let nested = object(vec![(
        "a",
        object(vec![(
            "rows",
            Value::Array(vec![object(vec![("k", string("v"))])]),
        )]),
    )]);
    assert_eq!(encode_toon(&lib_value(&nested)), "a:\n  rows[1]{k}:\n    \"v\"");
}

#[test]
fn toon_non_uniform_arrays_are_not_tables() {
    let a = object(vec![("id", num(1))]);
    let b = object(vec![("other", num(2))]);
    let nested = object(vec![("id", object(vec![]))]);
    let items = vec![lib_value(&a), lib_value(&b)];
    assert!(tabular_headers(&items).is_none());
    let items = vec![lib_value(&nested)];
    assert!(tabular_headers(&items).is_none());
    let items = vec![lib_value(&object(vec![]))];
    assert!(tabular_headers(&items).is_none());
    let items = vec![lib_value(&a), lib_value(&num(3))];
    assert!(tabular_headers(&items).is_none());
    let items = vec![lib_value(&a), lib_value(&a)];
    assert_eq!(tabular_headers(&items), Some(vec!["id".to_string()]));
}

#[test]
fn toon_indentation_is_capped() {
    let mut value = object(vec![("leaf", num(1))]);
    for _ in 0..20 {
        value = object(vec![("n", value)]);
    }
    let out = encode_toon(&lib_value(&value));
    let last = out.lines().last().unwrap();
    assert_eq!(last, format!("{}leaf: 1", " ".repeat(32)));
}

#[test]
fn indent_str_caps_at_32() {
    assert_eq!(indent_str(0), "");
    assert_eq!(indent_str(4), "    ");
    assert_eq!(indent_str(32), " ".repeat(32));
    assert_eq!(indent_str(1000), " ".repeat(32));
}

#[test]
fn resolve_format_prefers_explicit_choice() {
    assert_eq!(
        resolve_structured_format(Some(StructuredOutputFormat::Toon), true),
        StructuredOutputFormat::Toon
    );
    assert_eq!(
        resolve_structured_format(Some(StructuredOutputFormat::Json), true),
        StructuredOutputFormat::Json
    );
    assert_eq!(resolve_structured_format(None, true), StructuredOutputFormat::JsonPretty);
    assert_eq!(resolve_structured_format(None, false), StructuredOutputFormat::Json);
}
