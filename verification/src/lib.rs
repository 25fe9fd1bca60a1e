//! Normalizes MCP server connection descriptors across the configuration
//! file conventions of several AI coding assistants ("harnesses").
//!
//! Each harness persists its Model-Context-Protocol server entries under its
//! own root key, field names and value conventions. This crate models JSON
//! documents with its own [`json::JsonValue`] type, parses per-harness server
//! entries into a canonical [`mcp::McpServer`] descriptor, classifies
//! environment values as literals or environment-variable references, and
//! merges server collections back into full configuration documents without
//! disturbing unrelated content.

pub mod commands;
pub mod envvalue;
pub mod error;
pub mod goose;
pub mod harness;
pub mod json;
pub mod jsonc;
pub mod mcp;
pub mod mcp_config;
pub mod mcp_parse;
pub mod opencode;
pub mod profile;

pub use envvalue::EnvValue;
pub use harness::HarnessKind;
pub use harness::Scope;
pub use json::JsonValue;
