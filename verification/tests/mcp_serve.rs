use zeroclaw::tools::mcp_serve::{
    call_tool_result_json, default_mcp_serve_tool_names, expose_tools, merge_mcp_serve_allowlist,
    parse_failed, request_line, response_err, response_ok, tool_to_mcp_def,
    validate_mcp_serve_allowlist, InboundRpc, JsonRpcResponse, McpAction, McpServeConfig,
    McpServer, RegisteredTool, ToolCall, ToolOutcome, ToolSpec, INVALID_PARAMS, METHOD_NOT_FOUND,
    PARSE_ERROR,
};

fn json(text: &str) -> serde_json::Value {
    serde_json::from_str(text).unwrap()
}

fn tool(name: &str, slot: usize) -> RegisteredTool {
    RegisteredTool {
        name: name.to_string(),
        spec: ToolSpec {
            name: name.to_string(),
            description: format!("does {name}"),
            parameters: json(r#"{"type":"object"}"#),
        },
        slot,
    }
}

fn server(cli: &[&str], relax: bool) -> McpServer {
    let cfg = McpServeConfig { relax_tool_policy: relax, ..Default::default() };
    let cli: Vec<String> = cli.iter().map(|s| s.to_string()).collect();
    let registry = vec![tool("shell", 0), tool("file_read", 1), tool("weather", 2)];
    McpServer::start(&cfg, &cli, registry, "1.2.3".to_string()).unwrap()
}

fn request(method: &str, params: Option<&str>) -> InboundRpc {
    InboundRpc {
        jsonrpc: "2.0".to_string(),
        id: Some(json("7")),
        method: method.to_string(),
        params: params.map(json),
    }
}

fn reply(server: &McpServer, method: &str, params: Option<&str>) -> JsonRpcResponse {
    match server.dispatch(request(method, params)) {
        McpAction::Reply(r) => r,
        other => panic!("no reply: {other:?}"),
    }
}

fn refusal(server: &McpServer, params: Option<&str>) -> String {
    let r = reply(server, "tools/call", params);
    assert!(r.result.is_none());
    let error = r.error.unwrap();
    assert_eq!(error.code, INVALID_PARAMS);
    error.message
}

fn call(server: &McpServer, params: &str) -> ToolCall {
    match server.dispatch(request("tools/call", Some(params))) {
        McpAction::Run(c) => c,
        other => panic!("no call: {other:?}"),
    }
}

#[test]
fn merge_defaults_when_empty() {
    let cfg = McpServeConfig::default();
    let m = merge_mcp_serve_allowlist(&cfg, &[]);
    assert_eq!(m, vec!["memory_recall", "file_read"]);
}

#[test]
fn merge_dedupes() {
    let cfg = McpServeConfig {
        allowed_tools: vec!["calculator".into(), "file_read".into()],
        ..Default::default()
    };
    let m = merge_mcp_serve_allowlist(&cfg, &["file_read".into()]);
    assert_eq!(m, vec!["calculator", "file_read"]);
}

#[test]
fn validate_rejects_unsafe_without_relax() {
    let err = validate_mcp_serve_allowlist(&["shell".into()], false).unwrap_err();
    let s = err.message;
    assert!(s.contains("relax_tool_policy"));
}

#[test]
fn validate_allows_shell_with_relax() {
    validate_mcp_serve_allowlist(&["shell".into()], true).unwrap();
}

#[test]
fn merge_sorts_and_trims() {
    let cfg = McpServeConfig {
        allowed_tools: vec!["weather".into(), " b".into()],
        ..Default::default()
    };
    let cli: Vec<String> = vec![" \t".into(), "é".into(), " weather ".into(), "Zed".into(), "".into()];
    let m = merge_mcp_serve_allowlist(&cfg, &cli);
    assert_eq!(m, vec![" b", "Zed", "weather", "é"]);
    let mut expected = m.clone();
    expected.sort();
    assert_eq!(m, expected);
    assert_eq!(merge_mcp_serve_allowlist(&McpServeConfig::default(), &["  ".to_string()]), default_mcp_serve_tool_names());
}

#[test]
fn first_unsafe_name_is_refused() {
    let names: Vec<String> = vec!["weather".into(), "shell".into(), "browser".into()];
    let err = validate_mcp_serve_allowlist(&names, false).unwrap_err();
    assert_eq!(
        err.message,
        "mcp_serve: tool `shell` is not in the safe preset. Add `[mcp_serve].relax_tool_policy = true` after reviewing risk, or use only: memory_recall, file_read, calculator, weather, project_intel, image_info, glob_search, content_search, pdf_read"
    );
    let safe: Vec<String> = [
        "memory_recall",
        "file_read",
        "calculator",
        "weather",
        "project_intel",
        "image_info",
        "glob_search",
        "content_search",
        "pdf_read",
    ]
    .iter()
    .map(|s| s.to_string())
    .collect();
    validate_mcp_serve_allowlist(&safe, false).unwrap();
    validate_mcp_serve_allowlist(&default_mcp_serve_tool_names(), false).unwrap();
}

#[test]
fn tools_are_picked_by_name() {
    let registry = vec![tool("a", 0), tool("b", 1), tool("c", 2), tool("b", 3)];
    let picked = expose_tools(registry, &vec!["c".into(), "b".into(), "x".into()]);
    let slots: Vec<usize> = picked.iter().map(|t| t.slot).collect();
    assert_eq!(slots, vec![2, 1]);
    let registry = vec![tool("a", 0), tool("b", 1), tool("b", 2)];
    let picked = expose_tools(registry, &vec!["a".into(), "b".into()]);
    let slots: Vec<usize> = picked.iter().map(|t| t.slot).collect();
    assert_eq!(slots, vec![0, 2]);
}

#[test]
fn server_needs_a_tool() {
    let cfg = McpServeConfig::default();
    let err = McpServer::start(&cfg, &["weather".to_string()], vec![tool("shell", 0)], String::new())
        .unwrap_err();
    assert_eq!(
        err.message,
        "mcp serve: no tools matched the allowlist (check tool names against `zeroclaw` registry)"
    );
    let err = McpServer::start(&cfg, &["shell".to_string()], vec![tool("shell", 0)], String::new())
        .unwrap_err();
    assert!(err.message.contains("`shell`"));
}

#[test]
fn tools_run_for_a_second_at_least() {
    let cfg = McpServeConfig { tool_timeout_secs: 0, ..Default::default() };
    let s = McpServer::start(&cfg, &[], vec![tool("file_read", 0)], String::new()).unwrap();
    assert_eq!(s.timeout_secs(), 1);
    assert_eq!(server(&["weather"], false).timeout_secs(), 120);
}

#[test]
fn server_introduces_itself() {
    let r = reply(&server(&["weather"], false), "initialize", None);
    assert_eq!(r.jsonrpc, "2.0");
    assert_eq!(r.id, Some(json("7")));
    assert_eq!(
        r.result,
        Some(json(
            r#"{"protocolVersion":"2024-11-05","capabilities":{"tools":{}},"serverInfo":{"name":"zeroclaw","version":"1.2.3"}}"#
        ))
    );
}

#[test]
fn notification_gets_no_reply() {
    let s = server(&["weather"], false);
    assert!(matches!(s.dispatch(request("notifications/initialized", None)), McpAction::Ignore));
}

#[test]
fn tools_are_listed() {
    let r = reply(&server(&["weather", "file_read"], false), "tools/list", None);
    assert_eq!(
        r.result,
        Some(json(
            r#"{"tools":[{"name":"file_read","description":"does file_read","inputSchema":{"type":"object"}},{"name":"weather","description":"does weather","inputSchema":{"type":"object"}}]}"#
        ))
    );
}

#[test]
fn ping_is_answered() {
    assert_eq!(reply(&server(&["weather"], false), "ping", None).result, Some(json("{}")));
}

#[test]
fn unknown_method_is_refused() {
    let r = reply(&server(&["weather"], false), "tools/run", None);
    let error = r.error.unwrap();
    assert_eq!(error.code, METHOD_NOT_FOUND);
    assert_eq!(error.message, "method not found: tools/run");
}

#[test]
fn calls_are_checked() {
    let s = server(&["weather", "calculator"], false);
    assert_eq!(refusal(&s, None), "missing params");
    assert_eq!(refusal(&s, Some("{}")), "tools/call requires name");
    assert_eq!(refusal(&s, Some(r#"{"name":5}"#)), "tools/call requires name");
    assert_eq!(
        refusal(&s, Some(r#"{"name":"shell"}"#)),
        "tool `shell` is not on the mcp_serve allowlist"
    );
    assert_eq!(refusal(&s, Some(r#"{"name":"calculator"}"#)), "tool `calculator` not available");
}

#[test]
fn allowed_tool_is_called() {
    let s = server(&["weather"], false);
    let c = call(&s, r#"{"name":"weather","arguments":{"city":"Graz"}}"#);
    assert_eq!(c.slot, 2);
    assert_eq!(c.name, "weather");
    assert_eq!(c.arguments, json(r#"{"city":"Graz"}"#));
    let c = call(&s, r#"{"name":"weather"}"#);
    assert_eq!(c.arguments, json("{}"));
    let c = call(&server(&["shell"], true), r#"{"name":"shell"}"#);
    assert_eq!(c.slot, 0);
}

#[test]
fn outcomes_are_answered() {
    let s = server(&["weather"], false);
    let c = call(&s, r#"{"name":"weather"}"#);
    let done = |success: bool, error: Option<&str>| ToolOutcome::Done {
        success,
        output: "out".to_string(),
        error: error.map(|e| e.to_string()),
    };
    let text = |o: ToolOutcome| {
        let r = s.finish_call(c.clone(), o).result.unwrap();
        (r["content"][0]["text"].as_str().unwrap().to_string(), r["isError"].as_bool().unwrap())
    };
    assert_eq!(text(done(true, Some("ignored"))), ("out".to_string(), false));
    assert_eq!(text(done(false, Some("bad"))), ("bad".to_string(), true));
    assert_eq!(text(done(false, None)), ("out".to_string(), true));
    assert_eq!(
        text(ToolOutcome::Failed("boom".to_string())),
        ("execution error: boom".to_string(), true)
    );
    assert_eq!(
        text(ToolOutcome::TimedOut),
        ("tool `weather` timed out after 120s".to_string(), true)
    );
}

#[test]
fn results_and_replies_have_their_shape() {
    assert_eq!(
        call_tool_result_json("hi", true),
        json(r#"{"content":[{"type":"text","text":"hi"}],"isError":true}"#)
    );
    let ok = response_ok(None, json("1"));
    assert!(ok.id.is_none() && ok.error.is_none());
    assert_eq!(ok.result, Some(json("1")));
    let err = response_err(Some(json("\"x\"")), -5, "no");
    assert_eq!(err.id, Some(json("\"x\"")));
    assert_eq!(err.error.unwrap().code, -5);
    let def = tool_to_mcp_def(&tool("a", 0).spec);
    assert_eq!(def.name, "a");
    assert_eq!(def.description.as_deref(), Some("does a"));
    assert_eq!(def.input_schema, json(r#"{"type":"object"}"#));
}

#[test]
fn lines_are_trimmed_and_blank_ones_skipped() {
    assert_eq!(request_line("  {} \n"), Some("{}".to_string()));
    assert_eq!(request_line(" \r\n"), None);
    let r = parse_failed("expected value");
    assert!(r.id.is_none());
    let error = r.error.unwrap();
    assert_eq!(error.code, PARSE_ERROR);
    assert_eq!(error.message, "Parse error: expected value");
}
