//! Tools exposed to MCP clients, each backed by LSP requests.

pub mod definition;

pub use definition::{DefinitionRequest, DefinitionResponse, DefinitionTarget, DefinitionTool, TextRange};
