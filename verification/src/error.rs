//! Error types of the library.
use vstd::prelude::*;
use crate::text::concat2;

verus! {

/// Failures of the mail client, the configuration and authentication.
#[derive(Debug, Clone, PartialEq, Eq)]
pub enum AppError {
    JmapConnection(String),
    JmapRequest(String),
    Config(String),
    Auth(String),
    NotFound(String),
}

/// The category of an error reported to the MCP client, following the
/// JSON-RPC error codes the protocol uses.
#[derive(Debug, Clone, Copy, PartialEq, Eq, Structural)]
pub enum ToolErrorKind {
    InvalidParams,
    InvalidRequest,
    Internal,
    ResourceNotFound,
}

/// An error answered to an MCP tool or resource call: a category and a message.
#[derive(Debug, Clone, PartialEq, Eq)]
pub struct ToolError {
    pub kind: ToolErrorKind,
    pub message: String,
}

/// Abstract value of a [`ToolError`].
pub struct ToolErrorView {
    pub kind: ToolErrorKind,
    pub message: Seq<char>,
}

impl View for ToolError {
    type V = ToolErrorView;

    open spec fn view(&self) -> ToolErrorView {
        ToolErrorView { kind: self.kind, message: self.message@ }
    }
}

impl ToolError {
    /// An error of the given kind whose message is `message`.
    pub fn new(kind: ToolErrorKind, message: String) -> (e: ToolError)
        ensures
            e.kind == kind,
            e.message@ == message@,
    {
        ToolError { kind, message }
    }

    /// An `invalid_params` error.
    pub fn invalid_params(message: String) -> (e: ToolError)
        ensures
            e.kind == ToolErrorKind::InvalidParams,
            e.message@ == message@,
    {
        ToolError { kind: ToolErrorKind::InvalidParams, message }
    }

    /// An `invalid_request` error.
    pub fn invalid_request(message: String) -> (e: ToolError)
        ensures
            e.kind == ToolErrorKind::InvalidRequest,
            e.message@ == message@,
    {
        ToolError { kind: ToolErrorKind::InvalidRequest, message }
    }

    /// An `internal_error`.
    pub fn internal(message: String) -> (e: ToolError)
        ensures
            e.kind == ToolErrorKind::Internal,
            e.message@ == message@,
    {
        ToolError { kind: ToolErrorKind::Internal, message }
    }
}

impl AppError {
    /// The human-readable text of the error.
    pub open spec fn text(&self) -> Seq<char> {
        match self {
            AppError::JmapConnection(s) => "JMAP connection failed: "@ + s@,
            AppError::JmapRequest(s) => "JMAP request failed: "@ + s@,
            AppError::Config(s) => "Configuration error: "@ + s@,
            AppError::Auth(s) => "Authentication failed: "@ + s@,
            AppError::NotFound(s) => "Resource not found: "@ + s@,
        }
    }

    /// The human-readable text of the error (what `Display` shows).
    pub fn message(&self) -> (r: String)
        ensures
            r@ == self.text(),
    {
        match self {
            AppError::JmapConnection(s) => concat2("JMAP connection failed: ", s.as_str()),
            AppError::JmapRequest(s) => concat2("JMAP request failed: ", s.as_str()),
            AppError::Config(s) => concat2("Configuration error: ", s.as_str()),
            AppError::Auth(s) => concat2("Authentication failed: ", s.as_str()),
            AppError::NotFound(s) => concat2("Resource not found: ", s.as_str()),
        }
    }

    /// The error as answered to an MCP client: a missing resource stays
    /// "resource not found", everything else is an internal error; the
    /// message is the error's text.
    pub fn to_tool_error(&self) -> (e: ToolError)
        ensures
            e.kind == (if self is NotFound {
                ToolErrorKind::ResourceNotFound
            } else {
                ToolErrorKind::Internal
            }),
            e.message@ == self.text(),
    {
        let message = self.message();
        match self {
            AppError::NotFound(_) => ToolError::new(ToolErrorKind::ResourceNotFound, message),
            _ => ToolError::internal(message),
        }
    }
}

} // verus!
