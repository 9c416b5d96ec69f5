//! Verified core of an MCP server that bridges to Language Server Protocol servers.

pub mod args;
pub mod config;
pub mod documents;
pub mod json;
pub mod json_text;
pub mod le_bytes;
pub mod lsp_bridge;
pub mod text;
pub mod tools;
pub mod transport;
pub mod utils;
