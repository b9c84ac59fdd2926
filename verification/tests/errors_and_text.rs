use stalwart_mcp::error::{AppError, ToolErrorKind};
use stalwart_mcp::text::{
    decimal_string, eq_ignore_ascii_case, starts_with, strip_prefix, trim_end_matches,
};

#[test]
fn error_texts() {
    assert_eq!(AppError::JmapConnection("x".to_string()).message(), "JMAP connection failed: x");
    assert_eq!(AppError::JmapRequest("x".to_string()).message(), "JMAP request failed: x");
    assert_eq!(AppError::Config("x".to_string()).message(), "Configuration error: x");
    assert_eq!(AppError::Auth("x".to_string()).message(), "Authentication failed: x");
    assert_eq!(AppError::NotFound("x".to_string()).message(), "Resource not found: x");
}

#[test]
fn errors_as_answered_to_clients() {
    let e = AppError::NotFound("Email not found".to_string()).to_tool_error();
    assert_eq!(e.kind, ToolErrorKind::ResourceNotFound);
    assert_eq!(e.message, "Resource not found: Email not found");
    let e = AppError::JmapRequest("boom".to_string()).to_tool_error();
    assert_eq!(e.kind, ToolErrorKind::Internal);
    assert_eq!(e.message, "JMAP request failed: boom");
}

#[test]
fn string_helpers() {
    assert_eq!(decimal_string(0), "0");
    assert_eq!(decimal_string(18446744073709551615), "18446744073709551615");
    assert!(eq_ignore_ascii_case("InBox", "INBOX"));
    assert!(!eq_ignore_ascii_case("Inbox", "Inbo"));
    assert!(!eq_ignore_ascii_case("é", "É"));
    assert!(starts_with("Bearer x", "Bearer "));
    assert!(!starts_with("Bear", "Bearer "));
    assert_eq!(strip_prefix("Bearer x", "Bearer "), Some("x".to_string()));
    assert_eq!(trim_end_matches("a///", '/'), "a");
    assert_eq!(trim_end_matches("///", '/'), "");
}
