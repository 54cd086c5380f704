# krysta_probe

A security scanner for Model Context Protocol (MCP) servers, written as a
verified Verus library with a thin command-line front end.

- `src/` — the library, checked by Verus:
  - `engine/mcp.rs` — server declarations and configuration files;
  - `engine/vuln_db.rs` — the vulnerability catalog and tool matching;
  - `engine/package_analyzer.rs` — `package.json`, bundled binaries, obfuscated scripts;
  - `engine/source_analyzer.rs` — line-level audit of JS/TS/Python sources, local source detection;
  - `engine/mcp_client.rs` — JSON-RPC messages and how replies are matched;
  - `engine/scanner.rs` — static checks, tool checks, active probes (a state machine), merging;
  - `commands/` — the report summary and the dashboard login steps;
  - `text.rs`, `json.rs`, `files.rs`, `pattern.rs` — strings, JSON values, walked files, regexes.
- `app/` — argument parsing, the file system, processes, HTTP and JSON parsing;
  it hands plain values to the library and acts on what it returns.
- `tests/` — tests of the library on concrete inputs.
