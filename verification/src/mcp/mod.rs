//! What the MCP tools and prompts decide and say.
pub mod prompts;
pub mod tools;
