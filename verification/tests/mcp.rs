use prism_agent::mcp::{
    client_info, tool_result_text, transport_kind, McpCallResult, McpContent, McpError,
    TransportKind,
};

#[test]
fn error_messages() {
    assert_eq!(McpError::Connection("x".into()).message(), "Connection failed: x");
    assert_eq!(McpError::Timeout(1500).message(), "Timeout after 1500ms");
    assert_eq!(McpError::NotConnected.message(), "Not connected");
    assert_eq!(McpError::Io("e".into()).message(), "IO error: e");
    assert_eq!(McpError::Protocol("p".into()).message(), "Protocol error: p");
}

#[test]
fn transport_selection() {
    assert_eq!(transport_kind("stdio"), Ok(TransportKind::Stdio));
    assert_eq!(transport_kind("http"), Ok(TransportKind::Http));
    assert_eq!(transport_kind("sse"), Ok(TransportKind::Http));
    assert_eq!(
        transport_kind("ws"),
        Err(McpError::Connection("不支持的传输类型: ws".into()))
    );
}

#[test]
fn tool_result_joins_text_parts() {
    let r = McpCallResult {
        content: vec![
            McpContent::Text { text: "a".into() },
            McpContent::Image { data: "d".into(), mime_type: "image/png".into() },
            McpContent::Text { text: "b".into() },
        ],
        is_error: None,
    };
    assert_eq!(tool_result_text(&r), Ok("a\nb".to_string()));
    let e = McpCallResult {
        content: vec![McpContent::Text { text: "boom".into() }],
        is_error: Some(true),
    };
    assert_eq!(tool_result_text(&e), Err(McpError::Protocol("boom".into())));
}

#[test]
fn client_identity() {
    let c = client_info();
    assert_eq!(c.name, "Prism Agent");
    assert_eq!(c.version, "0.1.0");
}
