//! Rendering of MCP results and structured values for terminal display:
//! compact and pretty JSON, the TOON text layout, and the listings of
//! tools, prompts and resources.

pub mod format;
pub mod json;
pub mod laws;
pub mod mcp;
pub mod text;
pub mod toon;
