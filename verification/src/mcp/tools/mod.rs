//! The MCP tools.
pub mod mail;
pub mod admission;
