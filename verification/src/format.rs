use vstd::prelude::*;

use crate::json::{compact, pretty, to_compact_json, to_pretty_json, JsonValue};
use crate::toon::{encode_toon, toon};

verus! {

/// The layouts in which a structured value can be printed.
#[derive(Copy, Clone, Debug, PartialEq, Eq, Structural)]
pub enum StructuredOutputFormat {
    Json,
    JsonPretty,
    Toon,
}

/// The layout chosen from an optional explicit choice and the `pretty` flag.
pub open spec fn resolved_format(
    format: Option<StructuredOutputFormat>,
    pretty: bool,
) -> StructuredOutputFormat {
    match format {
        Some(f) => f,
        None => if pretty {
            StructuredOutputFormat::JsonPretty
        } else {
            StructuredOutputFormat::Json
        },
    }
}

/// An explicit format wins; without one, `pretty` selects pretty JSON over
/// compact JSON.
pub fn resolve_structured_format(
    format: Option<StructuredOutputFormat>,
    pretty: bool,
) -> (r: StructuredOutputFormat)
    ensures
        r == resolved_format(format, pretty),
        format is Some ==> r == format->0,
        format is None && pretty ==> r == StructuredOutputFormat::JsonPretty,
        format is None && !pretty ==> r == StructuredOutputFormat::Json,
{
    match format {
        Some(f) => f,
        None => if pretty {
            StructuredOutputFormat::JsonPretty
        } else {
            StructuredOutputFormat::Json
        },
    }
}

/// The text of a value in a layout: compact JSON, pretty JSON from the left
/// margin, or TOON.
pub open spec fn structured_text(v: JsonValue, format: StructuredOutputFormat) -> Seq<char> {
    match format {
        StructuredOutputFormat::Json => compact(v),
        StructuredOutputFormat::JsonPretty => pretty(v, seq![]),
        StructuredOutputFormat::Toon => toon(v),
    }
}

/// Renders `value` in the layout `format`.
pub fn format_structured_value(value: &JsonValue, format: StructuredOutputFormat) -> (r: String)
    ensures
        r@ == structured_text(*value, format),
{
    match format {
        StructuredOutputFormat::Json => to_compact_json(value),
        StructuredOutputFormat::JsonPretty => to_pretty_json(value),
        StructuredOutputFormat::Toon => encode_toon(value),
    }
}

} // verus!
