use krysta_probe::engine::mcp::{ClaudeConfig, McpDiscovery, ServerConfig, TransportType};
use krysta_probe::engine::mcp_client::{
    is_response_line, resolve_executable, InitializeParams, JsonRpcError, JsonRpcRequest, JsonRpcResponse, RpcReply,
};
use krysta_probe::engine::vuln_db::{Category, Severity, VulnDb};
use krysta_probe::json::JsonValue;

fn cfg(command: Option<&str>, args: &[&str], url: Option<&str>) -> ServerConfig {
    ServerConfig {
        command: command.map(|c| c.to_string()),
        args: args.iter().map(|a| a.to_string()).collect(),
        server_type: None,
        url: url.map(|u| u.to_string()),
    }
}

#[test]
fn discovery_root_and_config_names() {
    let d = McpDiscovery::new("/home/me/project");
    assert_eq!(d.root_path(), "/home/me/project");
    assert!(McpDiscovery::is_config_file("claude_desktop_config.json", "claude_desktop_config.json"));
    assert!(McpDiscovery::is_config_file("a/old_mcp_settings.json", "old_mcp_settings.json"));
    assert!(!McpDiscovery::is_config_file("mcp.json", "mcp.json"));
    assert!(!McpDiscovery::is_config_file("package.json", "package.json"));
    assert!(McpDiscovery::is_config_file(".cursor/mcp.json", "mcp.json"));
    assert!(McpDiscovery::is_config_file("project/.vscode/mcp.json", "mcp.json"));
    assert!(!McpDiscovery::is_config_file("project/mcp.json", "mcp.json"));
    assert!(!McpDiscovery::is_config_file("mcp_settings.json/notes.txt", "notes.txt"));
}

#[test]
fn servers_from_config_pick_transport() {
    let config = ClaudeConfig {
        mcp_servers: Some(vec![
            ("remote".to_string(), cfg(Some("npx"), &[], Some("http://x/sse"))),
            ("local".to_string(), cfg(Some("npx"), &["-y", "pkg"], None)),
            ("empty".to_string(), cfg(None, &[], None)),
        ]),
    };
    let servers = McpDiscovery::servers_from_config(&config, "/p/mcp_settings.json");
    assert_eq!(servers.len(), 3);
    assert_eq!(servers[0].transport, TransportType::Sse);
    assert_eq!(servers[1].transport, TransportType::Stdio);
    assert_eq!(servers[1].args, vec!["-y".to_string(), "pkg".to_string()]);
    assert_eq!(servers[2].transport, TransportType::Unknown);
    assert_eq!(servers[0].name, "remote");
    assert_eq!(servers[0].url.as_deref(), Some("http://x/sse"));
    assert_eq!(servers[2].config_source, "/p/mcp_settings.json");
    let none = McpDiscovery::servers_from_config(&ClaudeConfig { mcp_servers: None }, "x");
    assert!(none.is_empty());
}

#[test]
fn requests_are_json_rpc_two() {
    let r = JsonRpcRequest::new(7, "tools/list", 0u8);
    assert_eq!(r.jsonrpc, "2.0");
    assert_eq!(r.id, 7);
    assert_eq!(r.method, "tools/list");
    let p = InitializeParams::for_probe();
    assert_eq!(p.protocol_version, "2024-11-05");
    assert_eq!(p.client_info.name, "krysta-probe");
    assert_eq!(p.client_info.version, "0.1.0");
    assert!(matches!(p.capabilities, JsonValue::Object(ref e) if e.is_empty()));
}

fn response(id: Option<u64>, result: Option<u32>, error: Option<(i64, &str)>) -> JsonRpcResponse<u32> {
    JsonRpcResponse {
        jsonrpc: "2.0".to_string(),
        id,
        result,
        error: error.map(|(code, m)| JsonRpcError { code, message: m.to_string() }),
    }
}

#[test]
fn replies_are_matched_to_their_request() {
    assert!(matches!(response(Some(2), Some(5), None).reply_to(3), RpcReply::Unrelated));
    assert!(matches!(response(None, Some(5), None).reply_to(3), RpcReply::Unrelated));
    assert!(matches!(response(Some(3), Some(5), None).reply_to(3), RpcReply::Answered(5)));
    match response(Some(3), Some(5), Some((-32601, "Method not found"))).reply_to(3) {
        RpcReply::Failed(m) => assert_eq!(m, "MCP Error -32601: Method not found"),
        _ => panic!("expected a failure"),
    }
    match response(Some(3), None, None).reply_to(3) {
        RpcReply::Failed(m) => assert_eq!(m, "Missing JSON-RPC result"),
        _ => panic!("expected a failure"),
    }
}

#[test]
fn response_lines_need_an_id() {
    assert!(is_response_line("{\"jsonrpc\":\"2.0\",\"id\":1,\"result\":{}}"));
    assert!(is_response_line("  {\"id\": null}\n"));
    assert!(!is_response_line("{\"method\":\"notifications/progress\"}"));
    assert!(!is_response_line("   "));
    assert!(!is_response_line("not json"));
}

#[test]
fn executables_on_windows() {
    assert_eq!(resolve_executable("npx", true), "npx.cmd");
    assert_eq!(resolve_executable("python", true), "python.exe");
    assert_eq!(resolve_executable("uvx", true), "uvx.cmd");
    assert_eq!(resolve_executable("deno", true), "deno");
    assert_eq!(resolve_executable("npx", false), "npx");
}

#[test]
fn the_catalog_has_ten_entries() {
    let db = VulnDb::new();
    let all = db.all_vulnerabilities();
    assert_eq!(all.len(), 10);
    let ids: Vec<&str> = all.iter().map(|v| v.id.as_str()).collect();
    assert_eq!(
        ids,
        vec![
            "CVE-2026-MCP-001", "CVE-2026-MCP-002", "CVE-2026-MCP-003", "CVE-2026-MCP-004", "CVE-2026-MCP-005",
            "CVE-2026-MCP-006", "CVE-2026-MCP-007", "CVE-2026-MCP-008", "CVE-2026-MCP-009", "CVE-2026-MCP-010",
        ]
    );
    assert_eq!(all[1].title, "Path traversal in file system tools");
    assert_eq!(all[1].severity, Severity::High);
    assert_eq!(all[3].category, Category::CredentialExposure);
    assert_eq!(all[7].severity, Severity::Medium);
    assert_eq!(all[9].category, Category::SSRF);
    assert_eq!(all[0].affected_tools, vec!["execute_command", "run_shell", "exec"]);
}

#[test]
fn check_tool_needs_name_and_evidence() {
    let db = VulnDb::new();
    let hits = db.check_tool("Read_File", "read_file {\"path\": {\"type\":\"string\"}}");
    let ids: Vec<&str> = hits.iter().map(|v| v.id.as_str()).collect();
    assert_eq!(ids, vec!["CVE-2026-MCP-002"]);
    let secrets = db.check_tool("anything", "takes an api_key and uses npx pkg@latest");
    let ids: Vec<&str> = secrets.iter().map(|v| v.id.as_str()).collect();
    assert_eq!(ids, vec!["CVE-2026-MCP-004", "CVE-2026-MCP-008"]);
    assert!(db.check_tool("read_file", "nothing to see").is_empty());
}

#[test]
fn loading_the_catalog_again_appends_it() {
    let mut db = VulnDb::new();
    db.load_default_vulnerabilities();
    assert_eq!(db.all_vulnerabilities().len(), 20);
    assert_eq!(db.all_vulnerabilities()[10].id, "CVE-2026-MCP-001");
    let copy = db.all_vulnerabilities()[4].duplicate();
    assert_eq!(copy.id, "CVE-2026-MCP-005");
    assert_eq!(copy.remediation, "Never pass user input directly to shell execution.");
}
