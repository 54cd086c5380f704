use krysta_probe::engine::mcp::{McpServer, TransportType};
use krysta_probe::engine::source_analyzer::{PathFacts, SourceAnalyzer};
use krysta_probe::files::{file_extension, needs_content, WalkedFile};
use krysta_probe::models::finding::{Category, FindingSource, Severity};
use krysta_probe::pattern::TextPattern;

fn walked(rel: &str, content: Option<&str>) -> WalkedFile {
    let name = rel.rsplit('/').next().unwrap().to_string();
    WalkedFile {
        path: format!("/work/src/{}", rel),
        relative_path: rel.to_string(),
        file_name: name,
        content: content.map(|c| c.to_string()),
    }
}

const TOOL_SERVER: &str = "import { McpServer } from \"@modelcontextprotocol/sdk\";\n\
const { execSync } = require('child_process');\n\
// eval(x) in a comment\n\
server.tool(\"read\", async (args) => { return fs.readFile(args.path) });\n\
const apiKey = \"abcdefgh12345\";\n";

#[test]
fn analyze_source_reports_each_line_in_order() {
    let files = vec![walked("server.js", Some(TOOL_SERVER))];
    let fs = SourceAnalyzer::analyze_source(&files).unwrap();
    let ids: Vec<&str> = fs.iter().map(|f| f.id.as_str()).collect();
    assert_eq!(ids, vec!["KRYSTA-SRC-001", "KRYSTA-SRC-002", "KRYSTA-SRC-003"]);

    assert_eq!(fs[0].title, "Command Injection — exec/spawn in server.js:2");
    assert_eq!(fs[0].severity, Severity::Critical);
    assert_eq!(fs[0].category, Category::CommandInjection);
    assert_eq!(fs[0].evidence, "File: server.js:2\nCode: const { execSync } = require('child_process');");
    assert!(fs[0].description.ends_with("(Confidence: High)"));
    assert_eq!(fs[0].source, FindingSource::SourceCode);

    assert_eq!(fs[1].title, "Path Traversal — Unsanitized file access in server.js:4");
    assert_eq!(fs[1].severity, Severity::High);
    assert_eq!(fs[1].category, Category::PathTraversal);

    assert_eq!(fs[2].title, "Credential Exposure — Hardcoded secret in server.js:5");
    assert_eq!(fs[2].severity, Severity::High);
    assert_eq!(
        fs[2].description,
        "Potential hardcoded secret or API key found in source code. (Confidence: Medium)"
    );
}

#[test]
fn analyze_source_lowers_critical_outside_tool_handlers() {
    let files = vec![walked("tool.py", Some("import os\nos.system(cmd)\n"))];
    let fs = SourceAnalyzer::analyze_source(&files).unwrap();
    assert_eq!(fs.len(), 1);
    assert_eq!(fs[0].title, "Command Injection — Python subprocess in tool.py:2");
    assert_eq!(fs[0].severity, Severity::High);
    assert!(fs[0].description.ends_with("(Confidence: Medium)"));
}

#[test]
fn analyze_source_reports_outbound_requests_with_file_access() {
    let content = "server.setRequestHandler(x)\n    fs.readFile(url); fetch(url)\n";
    let fs = SourceAnalyzer::analyze_source(&vec![walked("h.ts", Some(content))]).unwrap();
    let titles: Vec<&str> = fs.iter().map(|f| f.title.as_str()).collect();
    assert_eq!(
        titles,
        vec![
            "Path Traversal — Unsanitized file access in h.ts:2",
            "SSRF - User-controlled outbound request in h.ts:2",
        ]
    );
    assert_eq!(fs[1].category, Category::SSRF);
    assert_eq!(fs[1].evidence, "File: h.ts:2\nCode: fs.readFile(url); fetch(url)");
}

#[test]
fn analyze_source_skips_vendored_and_foreign_files() {
    let mut vendored = walked("node_modules/x/index.js", Some("eval(a)"));
    vendored.path = "/work/src/node_modules/x/index.js".to_string();
    let files = vec![
        vendored,
        walked("README.md", Some("eval(a)")),
        walked("missing.js", None),
        walked("app.jsx", Some("eval(a)")),
    ];
    let fs = SourceAnalyzer::analyze_source(&files).unwrap();
    let titles: Vec<&str> = fs.iter().map(|f| f.title.as_str()).collect();
    assert_eq!(
        titles,
        vec!["Command Injection — eval/Function in app.jsx:1", "Command Injection — Python eval in app.jsx:1"]
    );
    assert_eq!(fs[1].id, "KRYSTA-SRC-002");
}

#[test]
fn tool_handler_context_by_language() {
    assert!(SourceAnalyzer::has_tool_handler_context("@server.tool\ndef x(): pass", "py"));
    assert!(!SourceAnalyzer::has_tool_handler_context("server.tool(", "py"));
    assert!(SourceAnalyzer::has_tool_handler_context("server.tool(", "js"));
    assert!(SourceAnalyzer::has_tool_handler_context("app.post('/x')", "ts"));
    assert!(!SourceAnalyzer::has_tool_handler_context("console.log(1)", "js"));
}

#[test]
fn source_candidates() {
    assert!(SourceAnalyzer::is_source_candidate("/a/b/c.ts", "c.ts"));
    assert!(!SourceAnalyzer::is_source_candidate("/a/.git/c.ts", "c.ts"));
    assert!(!SourceAnalyzer::is_source_candidate("/a/b/c.rs", "c.rs"));
    assert!(!SourceAnalyzer::is_source_candidate("/a/b/.js", ".js"));
    assert!(needs_content("x.mjs"));
    assert!(!needs_content("x.json"));
    assert_eq!(file_extension("archive.tar.gz"), vec!['g', 'z']);
    assert!(file_extension("Makefile").is_empty());
}

#[test]
fn the_pattern_table_compiles() {
    let ps = SourceAnalyzer::build_patterns().unwrap();
    assert_eq!(ps.len(), 9);
    assert_eq!(ps[0].row.title, "Command Injection — exec/spawn");
    assert_eq!(ps[8].row.category, Category::ToolPoisoning);
    assert!(ps[5].matcher.is_match("API_KEY: 'abcdefghij'"));
    assert!(!ps[5].matcher.is_match("API_KEY: 'short'"));
}

#[test]
fn text_patterns_compile_or_not() {
    let p = TextPattern::compile("(?i)hello").unwrap();
    assert!(p.is_match("say HELLO"));
    assert!(!p.is_match("goodbye"));
    assert_eq!(p.source_text(), "(?i)hello");
    assert!(TextPattern::compile("(unclosed").is_none());
}

fn facts(exists: bool, is_dir: bool, hits: Vec<bool>, parent: Option<&str>, parent_is_dir: bool, parent_hits: Vec<bool>) -> PathFacts {
    PathFacts {
        exists,
        is_dir,
        marker_hits: hits,
        parent: parent.map(|p| p.to_string()),
        parent_is_dir,
        parent_marker_hits: parent_hits,
    }
}

fn server(command: Option<&str>, args: &[&str]) -> McpServer {
    McpServer {
        name: "s".to_string(),
        transport: TransportType::Stdio,
        command: command.map(|c| c.to_string()),
        args: args.iter().map(|a| a.to_string()).collect(),
        url: None,
        config_source: "x".to_string(),
    }
}

#[test]
fn local_source_from_command() {
    let s = server(Some("/opt/srv/run"), &[]);
    let f = facts(true, false, vec![false; 5], Some("/opt/srv"), true, vec![false; 5]);
    assert_eq!(SourceAnalyzer::detect_local_source_dir(&s, &Some(f), &vec![]), Some("/opt/srv".to_string()));
    let d = server(Some("/opt/srv"), &[]);
    let fd = facts(true, true, vec![false; 5], Some("/opt"), true, vec![false; 5]);
    assert_eq!(SourceAnalyzer::detect_local_source_dir(&d, &Some(fd), &vec![]), Some("/opt/srv".to_string()));
}

#[test]
fn local_source_from_arguments_needs_a_marker() {
    let s = server(Some("node"), &["/app", "/other/index.js"]);
    let none = facts(false, false, vec![false; 5], None, false, vec![false; 5]);
    let app = facts(true, true, vec![false; 5], Some("/"), true, vec![false; 5]);
    let other = facts(true, false, vec![false; 5], Some("/other"), true, vec![false, false, true, false, false]);
    assert_eq!(
        SourceAnalyzer::detect_local_source_dir(&s, &Some(none), &vec![app, other]),
        Some("/other".to_string())
    );
    let bare = facts(true, true, vec![false; 5], None, false, vec![false; 5]);
    assert_eq!(SourceAnalyzer::detect_local_source_dir(&server(None, &["/x"]), &None, &vec![bare]), None);
}

#[test]
fn packed_tarball_names() {
    assert_eq!(SourceAnalyzer::packed_tarball_name("  scope-pkg-1.0.0.tgz\n"), Some("scope-pkg-1.0.0.tgz".to_string()));
    assert_eq!(SourceAnalyzer::packed_tarball_name(" \n\t"), None);
    assert_eq!(SourceAnalyzer::source_markers(), vec!["package.json", "src", "index.js", "index.ts", "Cargo.toml"]);
}

#[test]
fn outbound_requests_are_flagged_on_their_own() {
    let content = "server.setRequestHandler(CallToolRequestSchema, h);\nconst r = await fetch(args.url);\nconst q = await fetch(CONSTANT);\n";
    let fs = SourceAnalyzer::analyze_source(&vec![walked("a.js", Some(content))]).unwrap();
    let titles: Vec<&str> = fs.iter().map(|f| f.title.as_str()).collect();
    assert_eq!(titles, vec!["SSRF - User-controlled outbound request in a.js:2"]);
    assert_eq!(fs[0].category, Category::SSRF);
    assert_eq!(fs[0].id, "KRYSTA-SRC-001");
    let outside = SourceAnalyzer::analyze_source(&vec![walked("b.js", Some("const r = await fetch(args.url);"))]).unwrap();
    assert!(outside.is_empty());
}
