use krysta_probe::engine::mcp::{McpServer, TransportType};
use krysta_probe::engine::mcp_client::{Tool, ToolCallResult};
use krysta_probe::engine::scanner::{CallOutcome, Probe, ProbeKind, Scanner};
use krysta_probe::json::JsonValue;
use krysta_probe::models::finding::{Category, FindingSource, Severity};

fn schema(keys: &[&str]) -> Option<JsonValue> {
    let props: Vec<(String, JsonValue)> = keys
        .iter()
        .map(|k| (k.to_string(), JsonValue::Object(vec![("type".to_string(), JsonValue::Str("string".to_string()))])))
        .collect();
    Some(JsonValue::Object(vec![
        ("type".to_string(), JsonValue::Str("object".to_string())),
        ("properties".to_string(), JsonValue::Object(props)),
    ]))
}

fn tool(name: &str, description: &str, keys: Option<&[&str]>, schema_text: &str) -> Tool {
    Tool {
        name: name.to_string(),
        description: description.to_string(),
        input_schema: keys.and_then(schema),
        schema_text: schema_text.to_string(),
    }
}

fn returned(text: &str, is_error: Option<bool>) -> CallOutcome {
    CallOutcome::Returned(ToolCallResult { content_text: text.to_string(), is_error })
}

fn stdio_server(name: &str) -> McpServer {
    McpServer {
        name: name.to_string(),
        transport: TransportType::Stdio,
        command: Some("node".to_string()),
        args: vec![],
        url: None,
        config_source: "claude_desktop_config.json".to_string(),
    }
}

#[test]
fn find_param_name_prefers_exact_candidate() {
    let t = tool("read_file", "", Some(&["encoding", "filepath", "path"]), "");
    let cands = vec!["path", "file", "filename", "filepath"];
    assert_eq!(Scanner::find_param_name(&t, &cands), "path");
}

#[test]
fn find_param_name_falls_back_to_containing_key() {
    let t = tool("fetch", "", Some(&["timeout", "targetUrl"]), "");
    let cands = vec!["url", "uri", "href", "endpoint", "target"];
    assert_eq!(Scanner::find_param_name(&t, &cands), "targetUrl");
}

#[test]
fn find_param_name_falls_back_to_first_key_then_first_candidate() {
    let t = tool("run", "", Some(&["q", "r"]), "");
    let cands = vec!["command", "cmd"];
    assert_eq!(Scanner::find_param_name(&t, &cands), "q");
    let bare = tool("run", "", None, "null");
    assert_eq!(Scanner::find_param_name(&bare, &cands), "command");
    assert_eq!(Scanner::find_param_name(&bare, &Vec::new()), "input");
}

#[test]
fn path_traversal_probe_stops_at_first_confirmation() {
    let tools = vec![
        tool("read_file", "Read a file", Some(&["path"]), ""),
        tool("list_directory", "Lists entries", Some(&["dir"]), ""),
        tool("write_file", "Write", Some(&["filename"]), ""),
    ];
    let mut p = Probe::new(ProbeKind::PathTraversal, "srv", &tools);
    let c = p.next_call().unwrap();
    assert_eq!(c.tool_name, "read_file");
    assert_eq!(c.param, "path");
    assert_eq!(c.payload, "../../Windows/win.ini");
    p.record(&CallOutcome::Failed);
    let c = p.next_call().unwrap();
    assert_eq!(c.payload, "../../../../etc/passwd");
    p.record(&returned("root:x:0:0:root:/root:/bin/bash", None));
    assert!(p.next_call().is_none());
    let fs = p.into_findings();
    assert_eq!(fs.len(), 1);
    assert_eq!(fs[0].id, "KRYSTA-REAL-001");
    assert_eq!(fs[0].title, "srv — Confirmed Path Traversal");
    assert_eq!(fs[0].severity, Severity::Critical);
    assert_eq!(fs[0].category, Category::PathTraversal);
    assert_eq!(fs[0].source, FindingSource::Dynamic);
    assert_eq!(
        fs[0].evidence,
        "Tool 'read_file' accepted payload '../../../../etc/passwd' and returned sensitive file content"
    );
}

#[test]
fn path_traversal_probe_tries_every_payload_of_every_tool() {
    let tools = vec![
        tool("read_file", "", Some(&["path"]), ""),
        tool("write_file", "", Some(&["filename"]), ""),
    ];
    let mut p = Probe::new(ProbeKind::PathTraversal, "srv", &tools);
    let mut calls = Vec::new();
    while let Some(c) = p.next_call() {
        calls.push((c.tool_name, c.param, c.payload));
        p.record(&returned("nothing here", None));
    }
    assert_eq!(calls.len(), 6);
    assert_eq!(calls[3], ("write_file".to_string(), "filename".to_string(), "../../Windows/win.ini".to_string()));
    assert!(p.into_findings().is_empty());
}

#[test]
fn command_injection_probe_moves_on_after_a_confirmation() {
    let tools = vec![
        tool("run_command", "", Some(&["cmd"]), ""),
        tool("exec_shell", "", Some(&["script"]), ""),
        tool("echo", "Says hello", None, "null"),
    ];
    let mut p = Probe::new(ProbeKind::CommandInjection, "box", &tools);
    let c = p.next_call().unwrap();
    assert_eq!((c.tool_name.as_str(), c.param.as_str()), ("run_command", "cmd"));
    assert_eq!(c.payload, "echo KRYSTA_CANARY_TOKEN_7x9z");
    p.record(&returned("KRYSTA_CANARY_TOKEN_7x9z\n", None));
    let c = p.next_call().unwrap();
    assert_eq!((c.tool_name.as_str(), c.param.as_str()), ("exec_shell", "script"));
    assert_eq!(c.payload, "echo KRYSTA_CANARY_TOKEN_7x9z");
    p.record(&returned("", None));
    let c = p.next_call().unwrap();
    assert_eq!(c.payload, "whoami");
    p.record(&returned("alice", None));
    assert!(p.next_call().is_none());
    let fs = p.into_findings();
    assert_eq!(fs.len(), 2);
    assert_eq!(fs[0].id, "KRYSTA-REAL-002");
    assert_eq!(fs[0].title, "box — Confirmed Command Injection");
    assert_eq!(fs[1].evidence, "Tool 'exec_shell' executed 'whoami' and produced output");
}

#[test]
fn command_injection_without_indicator_needs_clean_output() {
    let tools = vec![tool("terminal", "", None, "null")];
    let mut p = Probe::new(ProbeKind::CommandInjection, "box", &tools);
    p.record(&CallOutcome::Failed);
    p.record(&returned("ok", None));
    p.record(&returned("uid missing", None));
    assert!(p.next_call().is_none());
    assert!(p.into_findings().is_empty());
    let mut q = Probe::new(ProbeKind::CommandInjection, "box", &tools);
    q.record(&CallOutcome::Failed);
    q.record(&returned("an error occurred", None));
    let c = q.next_call().unwrap();
    assert_eq!(c.payload, "id");
    assert_eq!(c.param, "command");
    q.record(&returned("uid=1000(alice)", None));
    assert_eq!(q.into_findings().len(), 1);
}

#[test]
fn ssrf_probe_counts_accepted_requests() {
    let tools = vec![tool("fetch_url", "Fetches a URL", Some(&["url"]), "")];
    let mut p = Probe::new(ProbeKind::Ssrf, "web", &tools);
    assert_eq!(p.next_call().unwrap().payload, "http://169.254.169.254/latest/meta-data/");
    p.record(&returned("denied", Some(true)));
    assert_eq!(p.next_call().unwrap().payload, "http://localhost:22");
    p.record(&returned("", Some(false)));
    assert!(p.next_call().is_none());
    let fs = p.into_findings();
    assert_eq!(fs.len(), 1);
    assert_eq!(fs[0].id, "KRYSTA-REAL-003");
    assert_eq!(fs[0].category, Category::SSRF);
    assert_eq!(fs[0].title, "web — Confirmed SSRF");
    assert_eq!(
        fs[0].evidence,
        "Tool 'fetch_url' accepted internal URL 'http://localhost:22' without rejection"
    );
}

#[test]
fn probes_target_tools_by_lowercased_name_and_description() {
    let tools = vec![tool("ReadNotes", "", None, "null"), tool("notes", "Fetch things", None, "null")];
    let mut p = Probe::new(ProbeKind::PathTraversal, "s", &tools);
    assert_eq!(p.next_call().unwrap().tool_name, "ReadNotes");
    let q = Probe::new(ProbeKind::Ssrf, "s", &tools);
    let c = q.next_call().unwrap();
    assert_eq!(c.tool_name, "notes");
    assert_eq!(c.param, "url");
    p.record(&CallOutcome::Failed);
}

#[test]
fn tool_findings_match_the_database() {
    let scanner = Scanner::new();
    let t = tool(
        "execute_command",
        "Runs a shell command",
        Some(&["command"]),
        r#"{"properties":{"command":{"type":"string"}},"type":"object"}"#,
    );
    let fs = scanner.tool_findings(&stdio_server("srv"), &vec![t]);
    let got: Vec<&str> = fs.iter().map(|f| f.id.as_str()).collect();
    assert_eq!(got, vec!["CVE-2026-MCP-001", "CVE-2026-MCP-005"]);
    assert_eq!(fs[0].title, "srv — Command injection via tool description");
    assert_eq!(fs[0].severity, Severity::Critical);
    assert_eq!(fs[0].category, Category::CommandInjection);
    assert_eq!(fs[0].source, FindingSource::Dynamic);
    assert_eq!(
        fs[0].evidence,
        "Tool: execute_command | Schema: {\"properties\":{\"command\":{\"type\":\"string\"}},\"type\":\"object\"} | Desc: Runs a shell command"
    );
}

#[test]
fn tool_findings_report_each_vulnerability_once() {
    let scanner = Scanner::new();
    let a = tool("exec", "run a shell", None, "null");
    let b = tool("run_shell", "another shell", None, "null");
    let fs = scanner.tool_findings(&stdio_server("srv"), &vec![a, b]);
    let got: Vec<&str> = fs.iter().map(|f| f.id.as_str()).collect();
    assert_eq!(got, vec!["CVE-2026-MCP-001", "CVE-2026-MCP-005"]);
    assert!(fs[0].evidence.starts_with("Tool: exec |"));
    assert!(fs[1].evidence.starts_with("Tool: run_shell |"));
}

#[test]
fn exposed_sse_vulnerabilities_skip_stdio_servers() {
    let scanner = Scanner::new();
    let t = || tool("status", "listens on 0.0.0.0, see https://example.com", None, "null");
    let stdio = scanner.tool_findings(&stdio_server("srv"), &vec![t()]);
    assert!(stdio.is_empty());
    let mut sse = stdio_server("srv");
    sse.transport = TransportType::Sse;
    let fs = scanner.tool_findings(&sse, &vec![t()]);
    let got: Vec<&str> = fs.iter().map(|f| f.id.as_str()).collect();
    assert_eq!(got, vec!["CVE-2026-MCP-009", "CVE-2026-MCP-010"]);
    assert_eq!(fs[0].severity, Severity::High);
    assert_eq!(fs[1].category, Category::SSRF);
}

#[test]
fn deep_scan_findings_put_probe_results_first() {
    let scanner = Scanner::new();
    let mut p = Probe::new(ProbeKind::Ssrf, "srv", &vec![tool("fetch_url", "", None, "null")]);
    p.record(&returned("fine", None));
    let dynamic = p.into_findings();
    let t = tool("fetch_url", "fetch any page", Some(&["url"]), r#"{"url": {"type":"string"}}"#);
    let fs = scanner.deep_scan_findings(&stdio_server("srv"), &vec![t], dynamic);
    let got: Vec<&str> = fs.iter().map(|f| f.id.as_str()).collect();
    assert_eq!(got, vec!["KRYSTA-REAL-003", "CVE-2026-MCP-003"]);
}
