//! Verified core of an MCP server for the Stalwart mail server: rate limiting,
//! request authorisation, configuration defaults, JMAP query planning and
//! message mapping, prompt texts and the notification debouncer.
pub mod admin;
pub mod auth;
pub mod config;
pub mod error;
pub mod jmap;
pub mod mcp;
pub mod notifications;
pub mod rate_limit;
pub mod text;
