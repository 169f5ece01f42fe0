//! Errors of MCP connections and which of them call for a reconnection.
use vstd::prelude::*;
use vstd::string::StringExecFns;
use crate::text::owned;

verus! {

/// A failure of an MCP operation. Errors of the MCP client library, of I/O
/// and of JSON (de)serialisation are carried by their messages.
#[derive(Debug)]
pub enum McpError {
    Transport(String),
    /// Connecting failed; `source` says why.
    Connection { name: String, source: Box<McpError> },
    /// An error of the MCP service (its message).
    Service(String),
    NotFound(String),
    AlreadyConnected { name: String },
    CircuitOpen { name: String },
    NotConnected { name: String },
    ToolCallTimeout { name: String },
    ConnectionClosed { name: String, reason: String },
    /// An I/O error (its message).
    Io(String),
    /// A serialisation error (its message).
    Serde(String),
}

/// The display text of an [`McpError`].
pub open spec fn mcp_error_text(e: McpError) -> Seq<char>
    decreases e,
{
    match e {
        McpError::Transport(m) => "transport error: "@ + m@,
        McpError::Connection { name, source } => "connection failed for '"@ + name@ + "': "@ + mcp_error_text(*source),
        McpError::Service(m) => "service error: "@ + m@,
        McpError::NotFound(name) => "MCP server '"@ + name@ + "' not found in pool"@,
        McpError::AlreadyConnected { name } => "MCP server '"@ + name@ + "' is already connected"@,
        McpError::CircuitOpen { name } => "MCP server '"@ + name@ + "' circuit breaker is open"@,
        McpError::NotConnected { name } => "MCP server '"@ + name@ + "' is not connected"@,
        McpError::ToolCallTimeout { name } => "tool call timeout for '"@ + name@ + "'"@,
        McpError::ConnectionClosed { name, reason } => "connection closed for '"@ + name@ + "': "@ + reason@,
        McpError::Io(m) => "IO error: "@ + m@,
        McpError::Serde(m) => "serialization error: "@ + m@,
    }
}

/// The server an error names, if any.
pub open spec fn mcp_error_server(e: McpError) -> Option<Seq<char>> {
    match e {
        McpError::NotFound(name) => Some(name@),
        McpError::AlreadyConnected { name } => Some(name@),
        McpError::CircuitOpen { name } => Some(name@),
        McpError::NotConnected { name } => Some(name@),
        McpError::ToolCallTimeout { name } => Some(name@),
        McpError::ConnectionClosed { name, .. } => Some(name@),
        McpError::Connection { name, .. } => Some(name@),
        _ => None,
    }
}

impl McpError {
    /// The display text (see [`mcp_error_text`]).
    pub fn text(&self) -> (r: String)
        ensures
            r@ == mcp_error_text(*self),
        decreases *self,
    {
        let mut r = String::new();
        match self {
            McpError::Transport(m) => {
                r.append("transport error: ");
                r.append(m.as_str());
            },
            McpError::Connection { name, source } => {
                r.append("connection failed for '");
                r.append(name.as_str());
                r.append("': ");
                let s = source.text();
                r.append(s.as_str());
            },
            McpError::Service(m) => {
                r.append("service error: ");
                r.append(m.as_str());
            },
            McpError::NotFound(name) => {
                r.append("MCP server '");
                r.append(name.as_str());
                r.append("' not found in pool");
            },
            McpError::AlreadyConnected { name } => {
                r.append("MCP server '");
                r.append(name.as_str());
                r.append("' is already connected");
            },
            McpError::CircuitOpen { name } => {
                r.append("MCP server '");
                r.append(name.as_str());
                r.append("' circuit breaker is open");
            },
            McpError::NotConnected { name } => {
                r.append("MCP server '");
                r.append(name.as_str());
                r.append("' is not connected");
            },
            McpError::ToolCallTimeout { name } => {
                r.append("tool call timeout for '");
                r.append(name.as_str());
                r.append("'");
            },
            McpError::ConnectionClosed { name, reason } => {
                r.append("connection closed for '");
                r.append(name.as_str());
                r.append("': ");
                r.append(reason.as_str());
            },
            McpError::Io(m) => {
                r.append("IO error: ");
                r.append(m.as_str());
            },
            McpError::Serde(m) => {
                r.append("serialization error: ");
                r.append(m.as_str());
            },
        }
        r
    }

    /// Whether the error is a lost connection that a reconnection may cure:
    /// a closed connection, a service, transport or I/O error.
    pub fn is_connection_error(&self) -> (r: bool)
        ensures
            r == (*self is ConnectionClosed || *self is Service || *self is Transport || *self is Io),
    {
        match self {
            McpError::ConnectionClosed { .. } => true,
            McpError::Service(_) => true,
            McpError::Transport(_) => true,
            McpError::Io(_) => true,
            _ => false,
        }
    }

    /// Whether the error is an open circuit breaker (wait for the cooldown).
    pub fn is_circuit_open(&self) -> (r: bool)
        ensures
            r == (*self is CircuitOpen),
    {
        match self {
            McpError::CircuitOpen { .. } => true,
            _ => false,
        }
    }

    /// The server the error is about, if it names one.
    pub fn server_name(&self) -> (r: Option<&str>)
        ensures
            match mcp_error_server(*self) {
                Some(n) => r matches Some(s) && s@ == n,
                None => r is None,
            },
    {
        match self {
            McpError::NotFound(name) => Some(name.as_str()),
            McpError::AlreadyConnected { name } => Some(name.as_str()),
            McpError::CircuitOpen { name } => Some(name.as_str()),
            McpError::NotConnected { name } => Some(name.as_str()),
            McpError::ToolCallTimeout { name } => Some(name.as_str()),
            McpError::ConnectionClosed { name, .. } => Some(name.as_str()),
            McpError::Connection { name, .. } => Some(name.as_str()),
            _ => None,
        }
    }
}

} // verus!
