//! MCP client: errors, message types, the choice of transport and the
//! reading of tool results.
use vstd::prelude::*;

use crate::text::{chars_of, decimal, decimal_chars, extend_chars, owned, str_eq, string_from};

verus! {

/// Errors of an MCP connection.
#[derive(Debug, Clone, PartialEq, Eq)]
pub enum McpError {
    Connection(String),
    Protocol(String),
    Timeout(u64),
    Io(String),
    NotConnected,
}

/// The text of an MCP error.
pub open spec fn mcp_error_text(e: McpError) -> Seq<char> {
    match e {
        McpError::Connection(s) => "Connection failed: "@ + s@,
        McpError::Protocol(s) => "Protocol error: "@ + s@,
        McpError::Timeout(ms) => "Timeout after "@ + decimal(ms as nat) + "ms"@,
        McpError::Io(s) => "IO error: "@ + s@,
        McpError::NotConnected => "Not connected"@,
    }
}

impl McpError {
    /// The text shown for the error.
    pub fn message(&self) -> (r: String)
        ensures
            r@ == mcp_error_text(*self),
    {
        let mut out: Vec<char> = Vec::new();
        match self {
            McpError::Connection(s) => {
                extend_chars(&mut out, &chars_of("Connection failed: "));
                extend_chars(&mut out, &chars_of(s.as_str()));
            },
            McpError::Protocol(s) => {
                extend_chars(&mut out, &chars_of("Protocol error: "));
                extend_chars(&mut out, &chars_of(s.as_str()));
            },
            McpError::Timeout(ms) => {
                extend_chars(&mut out, &chars_of("Timeout after "));
                extend_chars(&mut out, &decimal_chars(*ms));
                extend_chars(&mut out, &chars_of("ms"));
            },
            McpError::Io(s) => {
                extend_chars(&mut out, &chars_of("IO error: "));
                extend_chars(&mut out, &chars_of(s.as_str()));
            },
            McpError::NotConnected => {
                extend_chars(&mut out, &chars_of("Not connected"));
            },
        }
        string_from(&out)
    }
}

/// Name and version a client announces when it initialises a session.
#[derive(Debug, Clone)]
pub struct ClientInfo {
    pub name: String,
    pub version: String,
}

/// The client information this application announces.
pub fn client_info() -> (r: ClientInfo)
    ensures
        r.name@ == "Prism Agent"@,
        r.version@ == "0.1.0"@,
{
    ClientInfo { name: owned("Prism Agent"), version: owned("0.1.0") }
}

/// One piece of a tool's output.
#[derive(Debug, Clone)]
pub enum McpContent {
    Text { text: String },
    Image { data: String, mime_type: String },
    Resource { uri: String, text: String },
}

/// The output of a tool call.
#[derive(Debug, Clone)]
pub struct McpCallResult {
    pub content: Vec<McpContent>,
    pub is_error: Option<bool>,
}

/// Connection state of a server.
#[derive(Debug, Clone, PartialEq, Eq)]
pub enum McpStatus {
    Disconnected,
    Connecting,
    Connected,
    Error(String),
}

/// Status of a registered server as reported to the interface.
#[derive(Debug, Clone)]
pub struct ServerStatusInfo {
    pub id: String,
    pub name: String,
    pub server_type: String,
    pub status: McpStatus,
    pub tools_count: i32,
    pub tools: Vec<String>,
}

/// How a server is reached.
#[derive(Debug, Clone, Copy, PartialEq, Eq, Structural)]
pub enum TransportKind {
    /// A child process spoken to over standard input and output.
    Stdio,
    /// JSON-RPC over HTTP (also for `sse` servers).
    Http,
}

/// The transport for a configured server type, or the refusal of an unknown
/// one.
pub open spec fn transport_for(server_type: Seq<char>) -> Result<TransportKind, Seq<char>> {
    if server_type == "stdio"@ {
        Ok(TransportKind::Stdio)
    } else if server_type == "http"@ || server_type == "sse"@ {
        Ok(TransportKind::Http)
    } else {
        Err("不支持的传输类型: "@ + server_type)
    }
}

/// Chooses the transport for a server type (`stdio`, `http` or `sse`).
pub fn transport_kind(server_type: &str) -> (r: Result<TransportKind, McpError>)
    ensures
        match transport_for(server_type@) {
            Ok(k) => r == Ok::<TransportKind, McpError>(k),
            Err(msg) => r matches Err(McpError::Connection(m)) && m@ == msg,
        },
{
    if str_eq(server_type, "stdio") {
        Ok(TransportKind::Stdio)
    } else if str_eq(server_type, "http") || str_eq(server_type, "sse") {
        Ok(TransportKind::Http)
    } else {
        let mut out = chars_of("不支持的传输类型: ");
        extend_chars(&mut out, &chars_of(server_type));
        Err(McpError::Connection(string_from(&out)))
    }
}

/// The text pieces of a tool's output.
pub open spec fn text_pieces(content: Seq<McpContent>) -> Seq<Seq<char>>
    decreases content.len(),
{
    if content.len() == 0 {
        seq![]
    } else {
        match content.last() {
            McpContent::Text { text } => text_pieces(content.drop_last()).push(text@),
            _ => text_pieces(content.drop_last()),
        }
    }
}

/// The text of a tool's output: its text pieces joined by newlines (empty
/// pieces add no separator before them only when nothing came before).
pub open spec fn output_text(pieces: Seq<Seq<char>>) -> Seq<char>
    decreases pieces.len(),
{
    if pieces.len() == 0 {
        seq![]
    } else {
        let before = output_text(pieces.drop_last());
        if before.len() > 0 {
            before.push('\n') + pieces.last()
        } else {
            pieces.last()
        }
    }
}

/// What a tool call gives back: its text, or a protocol error carrying that
/// text when the server flagged an error.
pub open spec fn tool_outcome(r: McpCallResult) -> Result<Seq<char>, Seq<char>> {
    let t = output_text(text_pieces(r.content@));
    if r.is_error == Some(true) {
        Err(t)
    } else {
        Ok(t)
    }
}

/// Reads the result of a tool call: the text parts joined by newlines, or a
/// protocol error when the server flagged the call as failed.
pub fn tool_result_text(result: &McpCallResult) -> (r: Result<String, McpError>)
    ensures
        match tool_outcome(*result) {
            Ok(t) => r matches Ok(s) && s@ == t,
            Err(t) => r matches Err(McpError::Protocol(s)) && s@ == t,
        },
{
    let mut text: Vec<char> = Vec::new();
    let mut i: usize = 0;
    while i < result.content.len()
        invariant
            i <= result.content@.len(),
            text@ == output_text(text_pieces(result.content@.take(i as int))),
        decreases result.content@.len() - i,
    {
        assert(result.content@.take(i + 1).drop_last() =~= result.content@.take(i as int));
        assert(result.content@.take(i + 1).last() == result.content@[i as int]);
        let ghost prev = text_pieces(result.content@.take(i as int));
        match &result.content[i] {
            McpContent::Text { text: t } => {
                assert(text_pieces(result.content@.take(i + 1)) == prev.push(t@));
                assert(prev.push(t@).drop_last() =~= prev);
                if text.len() > 0 {
                    text.push('\n');
                }
                extend_chars(&mut text, &chars_of(t.as_str()));
            },
            _ => {
                assert(text_pieces(result.content@.take(i + 1)) == prev);
            },
        }
        i += 1;
    }
    assert(result.content@.take(result.content@.len() as int) =~= result.content@);
    let flagged = match result.is_error {
        Some(b) => b,
        None => false,
    };
    if flagged {
        Err(McpError::Protocol(string_from(&text)))
    } else {
        Ok(string_from(&text))
    }
}

/// The outcome of testing a connection to an MCP server.
#[derive(Debug, Clone)]
pub struct McpTestResult {
    pub ok: bool,
    pub tools_count: i32,
    pub latency_ms: Option<u64>,
    pub error: Option<String>,
}

/// The test result for a connection attempt: on success the number of
/// tools the server lists and the time it took, on failure the error text.
pub fn test_result(connected: Result<(usize, u64), McpError>) -> (r: McpTestResult)
    ensures
        match connected {
            Ok((n, ms)) => r.ok && r.tools_count == n as i32 && r.latency_ms == Some(ms)
                && r.error is None,
            Err(e) => !r.ok && r.tools_count == 0 && r.latency_ms is None && r.error is Some
                && r.error.unwrap()@ == mcp_error_text(e),
        },
{
    match connected {
        Ok((n, ms)) => McpTestResult { ok: true, tools_count: n as i32, latency_ms: Some(ms), error: None },
        Err(e) => McpTestResult { ok: false, tools_count: 0, latency_ms: None, error: Some(e.message()) },
    }
}


/// Law: a tool result is an error exactly when the server set `isError` to
/// true; `isError: false` reads the same as no flag at all; and the flag
/// never changes the text.
pub proof fn law_tool_error_only_when_flagged(r: McpCallResult)
    ensures
        tool_outcome(r) is Err <==> r.is_error == Some(true),
        tool_outcome((McpCallResult { content: r.content, is_error: Some(false) })) == tool_outcome(
            (McpCallResult { content: r.content, is_error: None }),
        ),
        tool_outcome((McpCallResult { content: r.content, is_error: Some(true) })) == Err::<
            Seq<char>,
            Seq<char>,
        >(output_text(text_pieces(r.content@))),
        tool_outcome((McpCallResult { content: r.content, is_error: None })) == Ok::<
            Seq<char>,
            Seq<char>,
        >(output_text(text_pieces(r.content@))),
{
}

} // verus!
