//! Source code analysis: line-by-line audit of JavaScript, TypeScript and
//! Python files of an MCP server for process execution, code evaluation,
//! unsanitized file access, outbound requests, hardcoded secrets,
//! environment dumps, wide network binding and poisoned tool descriptions.
//!
//! The directory walk and the reading of files happen outside; the analysis
//! takes the files found, in walk order.
use vstd::prelude::*;

use crate::engine::mcp::McpServer;
use crate::error::ScanError;
use crate::files::{
    extension_of, file_extension, is_source_extension, source_extension, WalkedFile,
};
use crate::models::finding::{
    finding_views, lemma_numbered_push, numbered, push_numbered, Category,
    Finding, FindingSource, FindingView, Severity,
};
use crate::pattern::{regex_compiles, regex_finds, TextPattern};
use crate::text::{
    chars_of, contains_str, decimal, has_prefix, has_substring, lines_of, push_decimal,
    slice_chars, split_lines, starts_with_str, str_trim, string_of, trim_chars, trimmed, views,
};

verus! {

// ------------------------------------------------------------------
// The pattern table
// ------------------------------------------------------------------

/// One line-level check: what it reports and the regex that triggers it.
#[derive(Clone, Copy)]
pub struct PatternRow {
    pub title: &'static str,
    pub severity: Severity,
    pub category: Category,
    pub regex: &'static str,
    /// Whether the severity holds only inside a tool handler.
    pub tool_context_sensitive: bool,
    pub description: &'static str,
    pub remediation: &'static str,
}

/// The line-level checks, in the order in which they are applied.
pub open spec fn pattern_table() -> Seq<PatternRow> {
    seq![
        PatternRow {
            title: "Command Injection — exec/spawn",
            severity: Severity::Critical,
            category: Category::CommandInjection,
            regex: r#"(?i)(execSync\(|spawnSync\(|spawn\(|child_process\.exec\(|require\(['"]child_process['"]\))"#,
            tool_context_sensitive: true,
            description: "Direct process execution found. If user-controlled input reaches this call, arbitrary commands can be executed.",
            remediation: "Use an allowlist of permitted commands. Never pass unsanitized user input to exec/spawn.",
        },
        PatternRow {
            title: "Command Injection — eval/Function",
            severity: Severity::Critical,
            category: Category::CommandInjection,
            regex: r"(?i)\b(eval\(|new\s+Function\(|setTimeout\([^,]*,|setInterval\([^,]*,)",
            tool_context_sensitive: true,
            description: "Dynamic code evaluation found. Can lead to arbitrary code execution if user input is evaluated.",
            remediation: "Never use eval() or new Function() with user-controlled input. Use JSON.parse() for data.",
        },
        PatternRow {
            title: "Command Injection — Python subprocess",
            severity: Severity::Critical,
            category: Category::CommandInjection,
            regex: r"(?i)(subprocess\.(run|call|Popen|check_output|check_call)|os\.system\(|os\.popen\(|os\.exec)",
            tool_context_sensitive: true,
            description: "Python subprocess execution found. Unsanitized input can lead to command injection.",
            remediation: "Use subprocess with shell=False and pass arguments as a list. Validate all inputs.",
        },
        PatternRow {
            title: "Command Injection — Python eval",
            severity: Severity::Critical,
            category: Category::CommandInjection,
            regex: r"(?i)\b(eval\(|compile\()",
            tool_context_sensitive: true,
            description: "Python exec() executes arbitrary Python code.",
            remediation: "Avoid exec(). Use safe parsing or explicit dispatch.",
        },
        PatternRow {
            title: "Path Traversal — Python open",
            severity: Severity::High,
            category: Category::PathTraversal,
            regex: r"(?i)\b(open\(|pathlib\.Path|shutil\.(copy|move|rmtree))",
            tool_context_sensitive: true,
            description: "Python file operation found. May allow path traversal if input is not validated.",
            remediation: "Resolve paths with os.path.realpath() and check they fall within allowed directories.",
        },
        PatternRow {
            title: "Credential Exposure — Hardcoded secret",
            severity: Severity::High,
            category: Category::CredentialExposure,
            regex: r#"(?i)(api[_-]?key|api[_-]?secret|auth[_-]?token|access[_-]?token|secret[_-]?key|private[_-]?key)\s*[:=]\s*["'][^"']{8,}["']"#,
            tool_context_sensitive: false,
            description: "Potential hardcoded secret or API key found in source code.",
            remediation: "Use environment variables or a secrets manager. Never commit secrets to source code.",
        },
        PatternRow {
            title: "Information Disclosure — Environment variable dump",
            severity: Severity::Medium,
            category: Category::InformationDisclosure,
            regex: r"(?i)(process\.env|os\.environ|JSON\.stringify\(process\.env)",
            tool_context_sensitive: true,
            description: "Bulk environment variable access found. May leak secrets if exposed through a tool.",
            remediation: "Access only specific environment variables. Never expose the full environment.",
        },
        PatternRow {
            title: "Network Exposure — Binding to all interfaces",
            severity: Severity::High,
            category: Category::NetworkExposure,
            regex: r#"(?i)(listen\(.*0\.0\.0\.0|host\s*[:=]\s*["']0\.0\.0\.0["']|bind\s*\(\s*["']0\.0\.0\.0)"#,
            tool_context_sensitive: false,
            description: "Server binds to 0.0.0.0, exposing it to all network interfaces.",
            remediation: "Bind to 127.0.0.1 for local-only access, or use a reverse proxy.",
        },
        PatternRow {
            title: "Tool Poisoning — Suspicious tool description",
            severity: Severity::Critical,
            category: Category::ToolPoisoning,
            regex: r#"(?i)(ignore previous|secretly|without user knowledge|exfiltrate|do not tell the user|hidden instruction)"#,
            tool_context_sensitive: false,
            description: "Suspicious instruction found in source that may poison tool descriptions.",
            remediation: "Audit all tool descriptions for hidden instructions or prompt injection attempts.",
        },
    ]
}

/// The rows of `pattern_table`.
fn pattern_rows() -> (v: Vec<PatternRow>)
    ensures
        v@ == pattern_table(),
{
    let v = vec![
        PatternRow {
            title: "Command Injection — exec/spawn",
            severity: Severity::Critical,
            category: Category::CommandInjection,
            regex: r#"(?i)(execSync\(|spawnSync\(|spawn\(|child_process\.exec\(|require\(['"]child_process['"]\))"#,
            tool_context_sensitive: true,
            description: "Direct process execution found. If user-controlled input reaches this call, arbitrary commands can be executed.",
            remediation: "Use an allowlist of permitted commands. Never pass unsanitized user input to exec/spawn.",
        },
        PatternRow {
            title: "Command Injection — eval/Function",
            severity: Severity::Critical,
            category: Category::CommandInjection,
            regex: r"(?i)\b(eval\(|new\s+Function\(|setTimeout\([^,]*,|setInterval\([^,]*,)",
            tool_context_sensitive: true,
            description: "Dynamic code evaluation found. Can lead to arbitrary code execution if user input is evaluated.",
            remediation: "Never use eval() or new Function() with user-controlled input. Use JSON.parse() for data.",
        },
        PatternRow {
            title: "Command Injection — Python subprocess",
            severity: Severity::Critical,
            category: Category::CommandInjection,
            regex: r"(?i)(subprocess\.(run|call|Popen|check_output|check_call)|os\.system\(|os\.popen\(|os\.exec)",
            tool_context_sensitive: true,
            description: "Python subprocess execution found. Unsanitized input can lead to command injection.",
            remediation: "Use subprocess with shell=False and pass arguments as a list. Validate all inputs.",
        },
        PatternRow {
            title: "Command Injection — Python eval",
            severity: Severity::Critical,
            category: Category::CommandInjection,
            regex: r"(?i)\b(eval\(|compile\()",
            tool_context_sensitive: true,
            description: "Python exec() executes arbitrary Python code.",
            remediation: "Avoid exec(). Use safe parsing or explicit dispatch.",
        },
        PatternRow {
            title: "Path Traversal — Python open",
            severity: Severity::High,
            category: Category::PathTraversal,
            regex: r"(?i)\b(open\(|pathlib\.Path|shutil\.(copy|move|rmtree))",
            tool_context_sensitive: true,
            description: "Python file operation found. May allow path traversal if input is not validated.",
            remediation: "Resolve paths with os.path.realpath() and check they fall within allowed directories.",
        },
        PatternRow {
            title: "Credential Exposure — Hardcoded secret",
            severity: Severity::High,
            category: Category::CredentialExposure,
            regex: r#"(?i)(api[_-]?key|api[_-]?secret|auth[_-]?token|access[_-]?token|secret[_-]?key|private[_-]?key)\s*[:=]\s*["'][^"']{8,}["']"#,
            tool_context_sensitive: false,
            description: "Potential hardcoded secret or API key found in source code.",
            remediation: "Use environment variables or a secrets manager. Never commit secrets to source code.",
        },
        PatternRow {
            title: "Information Disclosure — Environment variable dump",
            severity: Severity::Medium,
            category: Category::InformationDisclosure,
            regex: r"(?i)(process\.env|os\.environ|JSON\.stringify\(process\.env)",
            tool_context_sensitive: true,
            description: "Bulk environment variable access found. May leak secrets if exposed through a tool.",
            remediation: "Access only specific environment variables. Never expose the full environment.",
        },
        PatternRow {
            title: "Network Exposure — Binding to all interfaces",
            severity: Severity::High,
            category: Category::NetworkExposure,
            regex: r#"(?i)(listen\(.*0\.0\.0\.0|host\s*[:=]\s*["']0\.0\.0\.0["']|bind\s*\(\s*["']0\.0\.0\.0)"#,
            tool_context_sensitive: false,
            description: "Server binds to 0.0.0.0, exposing it to all network interfaces.",
            remediation: "Bind to 127.0.0.1 for local-only access, or use a reverse proxy.",
        },
        PatternRow {
            title: "Tool Poisoning — Suspicious tool description",
            severity: Severity::Critical,
            category: Category::ToolPoisoning,
            regex: r#"(?i)(ignore previous|secretly|without user knowledge|exfiltrate|do not tell the user|hidden instruction)"#,
            tool_context_sensitive: false,
            description: "Suspicious instruction found in source that may poison tool descriptions.",
            remediation: "Audit all tool descriptions for hidden instructions or prompt injection attempts.",
        },
    ];
    v
}

/// A line-level check with its compiled regex.
pub struct ScanPattern {
    pub row: PatternRow,
    pub matcher: TextPattern,
}

/// The regexes of the first `k` rows all compile.
pub open spec fn rows_compile(k: int) -> bool {
    forall|j: int| 0 <= j < k ==> regex_compiles(pattern_table()[j].regex@)
}

/// The regexes of all rows compile.
pub open spec fn table_compiles() -> bool {
    rows_compile(pattern_table().len() as int)
}

/// `p` is the regex of the first row whose regex does not compile.
pub open spec fn first_refused_regex(p: Seq<char>) -> bool {
    exists|k: int|
        0 <= k < pattern_table().len() && rows_compile(k) && !regex_compiles(
            pattern_table()[k].regex@,
        ) && p == pattern_table()[k].regex@
}

/// `ps` holds the compiled rows of `pattern_table`, in order.
pub open spec fn compiled_table(ps: Seq<ScanPattern>) -> bool {
    &&& ps.len() == pattern_table().len()
    &&& forall|k: int|
        0 <= k < ps.len() ==> ps[k].row == pattern_table()[k] && ps[k].matcher.source()
            == pattern_table()[k].regex@
}

// ------------------------------------------------------------------
// Line classification
// ------------------------------------------------------------------

/// How sure a line-level finding is.
#[derive(Clone, Copy, Debug, PartialEq, Eq, Structural)]
pub enum Confidence {
    /// The check matched inside a tool handler.
    High,
    /// The check matched, with no tool handler to tie it to user input.
    Medium,
}

impl Confidence {
    /// The name of the confidence level.
    pub open spec fn label_view(self) -> Seq<char> {
        match self {
            Confidence::High => "High"@,
            Confidence::Medium => "Medium"@,
        }
    }

    /// The name of the confidence level.
    pub fn label(&self) -> (s: &'static str)
        ensures
            s@ == self.label_view(),
    {
        match self {
            Confidence::High => "High",
            Confidence::Medium => "Medium",
        }
    }
}

/// The file registers MCP tool handlers (by markers of the language).
pub open spec fn tool_context(content: Seq<char>, ext: Seq<char>) -> bool {
    if ext == "py"@ {
        ||| has_substring(content, "@server.tool"@)
        ||| has_substring(content, "@app.tool"@)
        ||| has_substring(content, "mcp.server"@)
        ||| has_substring(content, "Tool("@)
        ||| has_substring(content, "def handle_"@)
    } else {
        ||| has_substring(content, "server.tool("@)
        ||| has_substring(content, "server.setRequestHandler"@)
        ||| has_substring(content, "ListToolsRequestSchema"@)
        ||| has_substring(content, "CallToolRequestSchema"@)
        ||| has_substring(content, ".handle("@)
        ||| has_substring(content, "app.post("@)
        ||| has_substring(content, "McpServer"@)
        ||| has_substring(content, "@modelcontextprotocol"@)
    }
}

/// The line calls a Node.js file read or write.
pub open spec fn filesystem_call(t: Seq<char>) -> bool {
    ||| has_substring(t, "fs.readFile("@)
    ||| has_substring(t, "fs.writeFile("@)
    ||| has_substring(t, "fs.readFileSync("@)
    ||| has_substring(t, "fs.writeFileSync("@)
}

/// The line mentions a name that commonly carries user input.
pub open spec fn user_controlled(t: Seq<char>) -> bool {
    ||| has_substring(t, "req."@)
    ||| has_substring(t, "request."@)
    ||| has_substring(t, "args."@)
    ||| has_substring(t, "argv"@)
    ||| has_substring(t, "input."@)
    ||| has_substring(t, "params."@)
    ||| has_substring(t, "query."@)
    ||| has_substring(t, "body."@)
    ||| has_substring(t, "url"@)
    ||| has_substring(t, "uri"@)
    ||| has_substring(t, "target"@)
    ||| has_substring(t, "userInput"@)
    ||| has_substring(t, "user_input"@)
    ||| has_substring(t, "filename"@)
    ||| has_substring(t, "filepath"@)
    ||| has_substring(t, "path"@)
    ||| has_substring(t, "file"@)
}

/// The line makes an outbound HTTP request.
pub open spec fn network_call(t: Seq<char>) -> bool {
    ||| has_substring(t, "fetch("@)
    ||| has_substring(t, "axios("@)
    ||| has_substring(t, "axios.get("@)
    ||| has_substring(t, "axios.post("@)
    ||| has_substring(t, "http.request("@)
    ||| has_substring(t, "https.request("@)
}

/// The (trimmed) line is a comment.
pub open spec fn comment_line(t: Seq<char>) -> bool {
    ||| has_prefix(t, "//"@)
    ||| has_prefix(t, "#"@)
    ||| has_prefix(t, "*"@)
    ||| has_prefix(t, "/*"@)
}

/// The full path and extension of a file that is analyzed: a source file
/// outside `node_modules` and `.git`.
pub open spec fn source_candidate(path: Seq<char>, ext: Seq<char>) -> bool {
    !has_substring(path, "node_modules"@) && !has_substring(path, ".git"@) && source_extension(
        ext,
    )
}

// ------------------------------------------------------------------
// What each line yields
// ------------------------------------------------------------------

/// `rel:n`.
pub open spec fn location(rel: Seq<char>, n: nat) -> Seq<char> {
    rel + ":"@ + decimal(n)
}

/// The evidence quoting line `n` of `rel`.
pub open spec fn code_evidence(rel: Seq<char>, n: nat, code: Seq<char>) -> Seq<char> {
    "File: "@ + location(rel, n) + "\nCode: "@ + code
}

/// At most the first `n` characters of `s`.
pub open spec fn first_chars(s: Seq<char>, n: nat) -> Seq<char> {
    if s.len() <= n {
        s
    } else {
        s.take(n as int)
    }
}

/// The path traversal finding for line `n` (trimmed text `t`).
pub open spec fn traversal_draft(rel: Seq<char>, n: nat, t: Seq<char>) -> FindingView {
    FindingView {
        id: seq![],
        title: "Path Traversal — Unsanitized file access in "@ + location(rel, n),
        severity: Severity::High,
        category: Category::PathTraversal,
        description: "Filesystem operation appears to use user-controlled input."@,
        evidence: code_evidence(rel, n, t),
        remediation: "Validate and canonicalize paths before filesystem access."@,
        source: FindingSource::SourceCode,
    }
}

/// The SSRF finding for line `n` (trimmed text `t`).
pub open spec fn outbound_draft(rel: Seq<char>, n: nat, t: Seq<char>) -> FindingView {
    FindingView {
        id: seq![],
        title: "SSRF - User-controlled outbound request in "@ + location(rel, n),
        severity: Severity::High,
        category: Category::SSRF,
        description: "Network request uses user-controlled input."@,
        evidence: code_evidence(rel, n, t),
        remediation: "Validate destination URLs and block internal/private IP ranges."@,
        source: FindingSource::SourceCode,
    }
}

/// The confidence of a row's match.
pub open spec fn confidence_of(ctx: bool, row: PatternRow) -> Confidence {
    if ctx && row.tool_context_sensitive {
        Confidence::High
    } else {
        Confidence::Medium
    }
}

/// A row's severity at a confidence: critical drops to high without a tool handler.
pub open spec fn adjusted_severity(c: Confidence, s: Severity) -> Severity {
    if c == Confidence::High {
        s
    } else if s == Severity::Critical {
        Severity::High
    } else {
        s
    }
}

/// The finding of a row that matched line `n` (trimmed text `t`).
pub open spec fn row_draft(
    row: PatternRow,
    rel: Seq<char>,
    n: nat,
    t: Seq<char>,
    ctx: bool,
) -> FindingView {
    let c = confidence_of(ctx, row);
    FindingView {
        id: seq![],
        title: row.title@ + " in "@ + location(rel, n),
        severity: adjusted_severity(c, row.severity),
        category: row.category,
        description: row.description@ + " (Confidence: "@ + c.label_view() + ")"@,
        evidence: code_evidence(rel, n, first_chars(t, 200)),
        remediation: row.remediation@,
        source: FindingSource::SourceCode,
    }
}

/// The row findings of line `n`: each row, in order, except the path
/// traversal and SSRF rows, whose regex matches the untrimmed `line`.
pub open spec fn row_drafts(
    rows: Seq<PatternRow>,
    rel: Seq<char>,
    n: nat,
    line: Seq<char>,
    ctx: bool,
) -> Seq<FindingView>
    decreases rows.len(),
{
    if rows.len() == 0 {
        seq![]
    } else {
        let prev = row_drafts(rows.drop_last(), rel, n, line, ctx);
        let row = rows.last();
        if row.category == Category::PathTraversal || row.category == Category::SSRF
            || !regex_finds(row.regex@, line) {
            prev
        } else {
            prev.push(row_draft(row, rel, n, trimmed(line), ctx))
        }
    }
}

/// Everything line `idx` (from zero) of a file yields, in order: inside a
/// tool handler, a user-controlled file access and a user-controlled
/// outbound request, each on its own; then, unless the line is a comment,
/// the matching rows.
pub open spec fn line_drafts(rel: Seq<char>, ctx: bool, idx: int, line: Seq<char>) -> Seq<
    FindingView,
> {
    let t = trimmed(line);
    let n = (idx + 1) as nat;
    let file_access = if filesystem_call(t) && ctx && user_controlled(t) {
        seq![traversal_draft(rel, n, t)]
    } else {
        seq![]
    };
    let outbound = if network_call(t) && ctx && user_controlled(t) {
        seq![outbound_draft(rel, n, t)]
    } else {
        seq![]
    };
    let first = file_access + outbound;
    if comment_line(t) {
        first
    } else {
        first + row_drafts(pattern_table(), rel, n, line, ctx)
    }
}

/// Everything the lines of a file yield, in order.
pub open spec fn lines_drafts(rel: Seq<char>, ctx: bool, lines: Seq<Seq<char>>) -> Seq<
    FindingView,
>
    decreases lines.len(),
{
    if lines.len() == 0 {
        seq![]
    } else {
        lines_drafts(rel, ctx, lines.drop_last()) + line_drafts(
            rel,
            ctx,
            lines.len() - 1,
            lines.last(),
        )
    }
}

/// Everything a file yields: nothing unless it is a readable source file.
pub open spec fn file_drafts(f: WalkedFile) -> Seq<FindingView> {
    let ext = extension_of(f.file_name@);
    if !source_candidate(f.path@, ext) {
        seq![]
    } else {
        match f.content {
            None => seq![],
            Some(c) => lines_drafts(f.relative_path@, tool_context(c@, ext), lines_of(c@)),
        }
    }
}

/// Everything the files yield, in order.
pub open spec fn files_drafts(files: Seq<WalkedFile>) -> Seq<FindingView>
    decreases files.len(),
{
    if files.len() == 0 {
        seq![]
    } else {
        files_drafts(files.drop_last()) + file_drafts(files.last())
    }
}

/// The identifier prefix of source findings.
pub open spec fn source_prefix() -> Seq<char> {
    "KRYSTA-SRC-"@
}

// ------------------------------------------------------------------
// Lemmas
// ------------------------------------------------------------------

proof fn lemma_row_drafts_prefix(
    rows: Seq<PatternRow>,
    k: int,
    rel: Seq<char>,
    n: nat,
    line: Seq<char>,
    ctx: bool,
)
    requires
        0 <= k <= rows.len(),
    ensures
        row_drafts(rows.take(k), rel, n, line, ctx).len() <= row_drafts(rows, rel, n, line, ctx).len(),
    decreases rows.len() - k,
{
    if k < rows.len() {
        lemma_row_drafts_prefix(rows, k + 1, rel, n, line, ctx);
        assert(rows.take(k + 1).drop_last() =~= rows.take(k));
    } else {
        assert(rows.take(k) =~= rows);
    }
}

proof fn lemma_lines_drafts_prefix(rel: Seq<char>, ctx: bool, lines: Seq<Seq<char>>, k: int)
    requires
        0 <= k <= lines.len(),
    ensures
        lines_drafts(rel, ctx, lines.take(k)).len() <= lines_drafts(rel, ctx, lines).len(),
    decreases lines.len() - k,
{
    if k < lines.len() {
        lemma_lines_drafts_prefix(rel, ctx, lines, k + 1);
        assert(lines.take(k + 1).drop_last() =~= lines.take(k));
    } else {
        assert(lines.take(k) =~= lines);
    }
}

proof fn lemma_files_drafts_prefix(files: Seq<WalkedFile>, k: int)
    requires
        0 <= k <= files.len(),
    ensures
        files_drafts(files.take(k)).len() <= files_drafts(files).len(),
    decreases files.len() - k,
{
    if k < files.len() {
        lemma_files_drafts_prefix(files, k + 1);
        assert(files.take(k + 1).drop_last() =~= files.take(k));
    } else {
        assert(files.take(k) =~= files);
    }
}

proof fn lemma_lines_drafts_has(rel: Seq<char>, ctx: bool, lines: Seq<Seq<char>>, i: int, m: int)
    requires
        0 <= i < lines.len(),
        0 <= m < line_drafts(rel, ctx, i, lines[i]).len(),
    ensures
        exists|k: int|
            0 <= k < lines_drafts(rel, ctx, lines).len() && (#[trigger] lines_drafts(
                rel,
                ctx,
                lines,
            )[k]) == line_drafts(rel, ctx, i, lines[i])[m],
    decreases lines.len(),
{
    let prev = lines_drafts(rel, ctx, lines.drop_last());
    let cur = lines_drafts(rel, ctx, lines);
    if i == lines.len() - 1 {
        assert(lines.last() == lines[i]);
        assert(cur[prev.len() + m] == line_drafts(rel, ctx, i, lines[i])[m]);
    } else {
        assert(lines.drop_last()[i] == lines[i]);
        lemma_lines_drafts_has(rel, ctx, lines.drop_last(), i, m);
        let k = choose|k: int| 0 <= k < prev.len() && prev[k] == line_drafts(rel, ctx, i, lines[i])[m];
        assert(cur[k] == prev[k]);
    }
}

proof fn lemma_files_drafts_has(files: Seq<WalkedFile>, j: int, m: int)
    requires
        0 <= j < files.len(),
        0 <= m < file_drafts(files[j]).len(),
    ensures
        exists|k: int|
            0 <= k < files_drafts(files).len() && (#[trigger] files_drafts(files)[k])
                == file_drafts(files[j])[m],
    decreases files.len(),
{
    let prev = files_drafts(files.drop_last());
    let cur = files_drafts(files);
    if j == files.len() - 1 {
        assert(files.last() == files[j]);
        assert(cur[prev.len() + m] == file_drafts(files[j])[m]);
    } else {
        assert(files.drop_last()[j] == files[j]);
        lemma_files_drafts_has(files.drop_last(), j, m);
        let k = choose|k: int| 0 <= k < prev.len() && prev[k] == file_drafts(files[j])[m];
        assert(cur[k] == prev[k]);
    }
}

/// A JavaScript or TypeScript file outside `node_modules` and `.git` that
/// registers MCP tool handlers (it mentions `server.tool(`,
/// `server.setRequestHandler`, `ListToolsRequestSchema`,
/// `CallToolRequestSchema`, `.handle(`, `app.post(`, `McpServer` or
/// `@modelcontextprotocol`), with its text read.
pub open spec fn js_handler_file(f: WalkedFile) -> bool {
    &&& source_extension(extension_of(f.file_name@))
    &&& extension_of(f.file_name@) != "py"@
    &&& !has_substring(f.path@, "node_modules"@)
    &&& !has_substring(f.path@, ".git"@)
    &&& f.content is Some
    &&& ({
        let c = f.content->0@;
        ||| has_substring(c, "server.tool("@)
        ||| has_substring(c, "server.setRequestHandler"@)
        ||| has_substring(c, "ListToolsRequestSchema"@)
        ||| has_substring(c, "CallToolRequestSchema"@)
        ||| has_substring(c, ".handle("@)
        ||| has_substring(c, "app.post("@)
        ||| has_substring(c, "McpServer"@)
        ||| has_substring(c, "@modelcontextprotocol"@)
    })
}

/// A line that names a value a tool's caller controls: a request,
/// arguments, input, parameters, a query, a body, a URL, a target, user
/// input, a file name or a path.
pub open spec fn names_user_value(t: Seq<char>) -> bool {
    ||| has_substring(t, "req."@)
    ||| has_substring(t, "request."@)
    ||| has_substring(t, "args."@)
    ||| has_substring(t, "argv"@)
    ||| has_substring(t, "input."@)
    ||| has_substring(t, "params."@)
    ||| has_substring(t, "query."@)
    ||| has_substring(t, "body."@)
    ||| has_substring(t, "url"@)
    ||| has_substring(t, "uri"@)
    ||| has_substring(t, "target"@)
    ||| has_substring(t, "userInput"@)
    ||| has_substring(t, "user_input"@)
    ||| has_substring(t, "filename"@)
    ||| has_substring(t, "filepath"@)
    ||| has_substring(t, "path"@)
    ||| has_substring(t, "file"@)
}

/// Line `i` (trimmed) of a file's text.
pub open spec fn trimmed_line(f: WalkedFile, i: int) -> Seq<char> {
    trimmed(lines_of(f.content->0@)[i])
}

/// In a JavaScript or TypeScript file that registers MCP tool handlers,
/// every line that calls `fetch(`, `axios(`, `axios.get(`, `axios.post(`,
/// `http.request(` or `https.request(` with a value the caller controls is
/// reported as a user-controlled outbound request (SSRF) at that line.
pub proof fn lemma_outbound_requests_reported(files: Seq<WalkedFile>, j: int, i: int)
    requires
        0 <= j < files.len(),
        js_handler_file(files[j]),
        0 <= i < lines_of(files[j].content->0@).len(),
        ({
            let t = trimmed_line(files[j], i);
            ||| has_substring(t, "fetch("@)
            ||| has_substring(t, "axios("@)
            ||| has_substring(t, "axios.get("@)
            ||| has_substring(t, "axios.post("@)
            ||| has_substring(t, "http.request("@)
            ||| has_substring(t, "https.request("@)
        }),
        names_user_value(trimmed_line(files[j], i)),
    ensures
        exists|k: int|
            0 <= k < files_drafts(files).len() && (#[trigger] files_drafts(files)[k]).category
                == Category::SSRF && files_drafts(files)[k].title
                == "SSRF - User-controlled outbound request in "@ + files[j].relative_path@ + ":"@
                + decimal((i + 1) as nat),
{
    let f = files[j];
    let c = f.content->0@;
    let ext = extension_of(f.file_name@);
    let rel = f.relative_path@;
    let lines = lines_of(c);
    let line = lines[i];
    let t = trimmed(line);
    let n = (i + 1) as nat;
    assert(tool_context(c, ext));
    assert(network_call(t));
    assert(user_controlled(t));
    assert(source_candidate(f.path@, ext));
    let file_access = if filesystem_call(t) && user_controlled(t) {
        seq![traversal_draft(rel, n, t)]
    } else {
        seq![]
    };
    let ld = line_drafts(rel, true, i, line);
    let m = file_access.len() as int;
    assert(ld[m] == outbound_draft(rel, n, t));
    assert(file_drafts(f) == lines_drafts(rel, true, lines));
    lemma_lines_drafts_has(rel, true, lines, i, m);
    let k1 = choose|k: int|
        0 <= k < lines_drafts(rel, true, lines).len() && lines_drafts(rel, true, lines)[k] == ld[m];
    lemma_files_drafts_has(files, j, k1);
}

/// In a JavaScript or TypeScript file that registers MCP tool handlers,
/// every line that calls `fs.readFile(`, `fs.writeFile(`,
/// `fs.readFileSync(` or `fs.writeFileSync(` with a value the caller
/// controls is reported as unsanitized file access (path traversal) at
/// that line.
pub proof fn lemma_file_access_reported(files: Seq<WalkedFile>, j: int, i: int)
    requires
        0 <= j < files.len(),
        js_handler_file(files[j]),
        0 <= i < lines_of(files[j].content->0@).len(),
        ({
            let t = trimmed_line(files[j], i);
            ||| has_substring(t, "fs.readFile("@)
            ||| has_substring(t, "fs.writeFile("@)
            ||| has_substring(t, "fs.readFileSync("@)
            ||| has_substring(t, "fs.writeFileSync("@)
        }),
        names_user_value(trimmed_line(files[j], i)),
    ensures
        exists|k: int|
            0 <= k < files_drafts(files).len() && (#[trigger] files_drafts(files)[k]).category
                == Category::PathTraversal && files_drafts(files)[k].title
                == "Path Traversal — Unsanitized file access in "@ + files[j].relative_path@ + ":"@
                + decimal((i + 1) as nat),
{
    let f = files[j];
    let c = f.content->0@;
    let ext = extension_of(f.file_name@);
    let rel = f.relative_path@;
    let lines = lines_of(c);
    let line = lines[i];
    let t = trimmed(line);
    let n = (i + 1) as nat;
    assert(tool_context(c, ext));
    assert(filesystem_call(t));
    assert(user_controlled(t));
    assert(source_candidate(f.path@, ext));
    let ld = line_drafts(rel, true, i, line);
    assert(ld[0] == traversal_draft(rel, n, t));
    assert(file_drafts(f) == lines_drafts(rel, true, lines));
    lemma_lines_drafts_has(rel, true, lines, i, 0);
    let k1 = choose|k: int|
        0 <= k < lines_drafts(rel, true, lines).len() && lines_drafts(rel, true, lines)[k] == ld[0];
    lemma_files_drafts_has(files, j, k1);
}

// ------------------------------------------------------------------
// Executable analysis
// ------------------------------------------------------------------

/// The analyzer of source directories.
pub struct SourceAnalyzer;

/// `rel:n`.
fn location_text(rel: &str, n: u64) -> (s: String)
    ensures
        s@ == location(rel@, n as nat),
{
    let mut s = rel.to_owned();
    s.append(":");
    push_decimal(&mut s, n);
    s
}

/// The evidence quoting line `n` of `rel`.
fn code_evidence_text(rel: &str, n: u64, code: &[char]) -> (s: String)
    ensures
        s@ == code_evidence(rel@, n as nat, code@),
{
    let mut s = "File: ".to_owned();
    let loc = location_text(rel, n);
    s.append(loc.as_str());
    s.append("\nCode: ");
    let c = string_of(code);
    s.append(c.as_str());
    s
}

fn traversal_finding(rel: &str, n: u64, t: &[char]) -> (f: Finding)
    ensures
        f@ == traversal_draft(rel@, n as nat, t@),
{
    let mut title = "Path Traversal — Unsanitized file access in ".to_owned();
    let loc = location_text(rel, n);
    title.append(loc.as_str());
    Finding {
        id: String::new(),
        title: title,
        severity: Severity::High,
        category: Category::PathTraversal,
        description: "Filesystem operation appears to use user-controlled input.".to_owned(),
        evidence: code_evidence_text(rel, n, t),
        remediation: "Validate and canonicalize paths before filesystem access.".to_owned(),
        source: FindingSource::SourceCode,
    }
}

fn outbound_finding(rel: &str, n: u64, t: &[char]) -> (f: Finding)
    ensures
        f@ == outbound_draft(rel@, n as nat, t@),
{
    let mut title = "SSRF - User-controlled outbound request in ".to_owned();
    let loc = location_text(rel, n);
    title.append(loc.as_str());
    Finding {
        id: String::new(),
        title: title,
        severity: Severity::High,
        category: Category::SSRF,
        description: "Network request uses user-controlled input.".to_owned(),
        evidence: code_evidence_text(rel, n, t),
        remediation: "Validate destination URLs and block internal/private IP ranges.".to_owned(),
        source: FindingSource::SourceCode,
    }
}

fn row_finding(row: &PatternRow, rel: &str, n: u64, t: &[char], ctx: bool) -> (f: Finding)
    ensures
        f@ == row_draft(*row, rel@, n as nat, t@, ctx),
{
    let confidence = if ctx && row.tool_context_sensitive {
        Confidence::High
    } else {
        Confidence::Medium
    };
    let severity = if confidence == Confidence::High {
        row.severity
    } else {
        match row.severity {
            Severity::Critical => Severity::High,
            other => other,
        }
    };
    let mut title = row.title.to_owned();
    title.append(" in ");
    let loc = location_text(rel, n);
    title.append(loc.as_str());
    let mut description = row.description.to_owned();
    description.append(" (Confidence: ");
    description.append(confidence.label());
    description.append(")");
    let shown = if t.len() <= 200 {
        slice_chars(t, 0, t.len())
    } else {
        slice_chars(t, 0, 200)
    };
    proof {
        assert(t@.subrange(0, t@.len() as int) =~= t@);
    }
    Finding {
        id: String::new(),
        title: title,
        severity: severity,
        category: row.category,
        description: description,
        evidence: code_evidence_text(rel, n, shown.as_slice()),
        remediation: row.remediation.to_owned(),
        source: FindingSource::SourceCode,
    }
}

impl SourceAnalyzer {
    /// Compiles the line-level checks of `pattern_table`; the first regex
    /// that the regex crate refuses is the error.
    pub fn build_patterns() -> (r: Result<Vec<ScanPattern>, ScanError>)
        ensures
            r is Ok <==> table_compiles(),
            r matches Ok(ps) ==> compiled_table(ps@),
            r matches Err(e) ==> e matches ScanError::InvalidPattern(p) && first_refused_regex(
                p@,
            ),
    {
        let rows = pattern_rows();
        let mut ps: Vec<ScanPattern> = Vec::new();
        let n = rows.len();
        for k in 0..n
            invariant
                n == rows@.len(),
                rows@ == pattern_table(),
                ps@.len() == k,
                rows_compile(k as int),
                forall|j: int|
                    0 <= j < k ==> ps@[j].row == pattern_table()[j] && ps@[j].matcher.source()
                        == pattern_table()[j].regex@,
        {
            let row = rows[k];
            match TextPattern::compile(row.regex) {
                Some(m) => {
                    ps.push(ScanPattern { row: row, matcher: m });
                },
                None => {
                    let e = ScanError::InvalidPattern(row.regex.to_owned());
                    assert(first_refused_regex(row.regex@));
                    assert(!table_compiles());
                    return Err(e);
                },
            }
        }
        Ok(ps)
    }

    /// Whether a file registers MCP tool handlers, judged by markers of its
    /// language (`py` for Python, anything else for JavaScript/TypeScript).
    pub fn has_tool_handler_context(content: &str, ext: &str) -> (b: bool)
        ensures
            b == tool_context(content@, ext@),
    {
        let cs = chars_of(content);
        let es = chars_of(ext);
        tool_context_of(cs.as_slice(), es.as_slice())
    }

    /// Whether a file with this full path and name is analyzed.
    pub fn is_source_candidate(path: &str, file_name: &str) -> (b: bool)
        ensures
            b == source_candidate(path@, extension_of(file_name@)),
    {
        let p = chars_of(path);
        let e = file_extension(file_name);
        !contains_str(p.as_slice(), "node_modules") && !contains_str(p.as_slice(), ".git")
            && is_source_extension(e.as_slice())
    }

    /// Audits the files found under a source directory, in walk order.
    /// Every finding gets the identifier `KRYSTA-SRC-` and its position in
    /// the result (from one, three digits at least). Fails, before looking at
    /// any file, when a built-in regex does not compile, and fails when there
    /// are more findings than the `u32` counter can number.
    pub fn analyze_source(files: &Vec<WalkedFile>) -> (r: Result<Vec<Finding>, ScanError>)
        ensures
            !table_compiles() ==> (r matches Err(ScanError::InvalidPattern(p)) && first_refused_regex(
                p@,
            )),
            table_compiles() && files_drafts(files@).len() > u32::MAX ==> (r matches Err(
                ScanError::TooManyFindings,
            )),
            table_compiles() && files_drafts(files@).len() <= u32::MAX ==> (r matches Ok(fs)
                && finding_views(fs@) == numbered(files_drafts(files@), source_prefix())),
    {
        let patterns = match Self::build_patterns() {
            Ok(ps) => ps,
            Err(e) => return Err(e),
        };
        let mut findings: Vec<Finding> = Vec::new();
        let mut counter: u32 = 0;
        let n = files.len();
        proof {
            assert(finding_views(findings@) =~= numbered(files_drafts(files@.take(0)), source_prefix()));
        }
        for i in 0..n
            invariant
                n == files@.len(),
                compiled_table(patterns@),
                table_compiles(),
                counter == files_drafts(files@.take(i as int)).len(),
                finding_views(findings@) == numbered(
                    files_drafts(files@.take(i as int)),
                    source_prefix(),
                ),
        {
            proof {
                assert(files@.take(i + 1).drop_last() =~= files@.take(i as int));
                assert(files@.take(i + 1).last() == files@[i as int]);
            }
            let ok = analyze_file(
                &patterns,
                &files[i],
                &mut findings,
                &mut counter,
                Ghost(files_drafts(files@.take(i as int))),
            );
            if !ok {
                proof {
                    lemma_files_drafts_prefix(files@, i + 1);
                }
                return Err(ScanError::TooManyFindings);
            }
        }
        proof {
            assert(files@.take(n as int) =~= files@);
        }
        Ok(findings)
    }
}

/// `tool_context` on characters.
fn tool_context_of(content: &[char], ext: &[char]) -> (b: bool)
    ensures
        b == tool_context(content@, ext@),
{
    if crate::text::equals_str(ext, "py") {
        contains_str(content, "@server.tool") || contains_str(content, "@app.tool")
            || contains_str(content, "mcp.server") || contains_str(content, "Tool(")
            || contains_str(content, "def handle_")
    } else {
        contains_str(content, "server.tool(") || contains_str(content, "server.setRequestHandler")
            || contains_str(content, "ListToolsRequestSchema") || contains_str(
            content,
            "CallToolRequestSchema",
        ) || contains_str(content, ".handle(") || contains_str(content, "app.post(")
            || contains_str(content, "McpServer") || contains_str(content, "@modelcontextprotocol")
    }
}

fn is_filesystem_call(t: &[char]) -> (b: bool)
    ensures
        b == filesystem_call(t@),
{
    contains_str(t, "fs.readFile(") || contains_str(t, "fs.writeFile(") || contains_str(
        t,
        "fs.readFileSync(",
    ) || contains_str(t, "fs.writeFileSync(")
}

fn looks_user_controlled(t: &[char]) -> (b: bool)
    ensures
        b == user_controlled(t@),
{
    contains_str(t, "req.") || contains_str(t, "request.") || contains_str(t, "args.")
        || contains_str(t, "argv") || contains_str(t, "input.") || contains_str(t, "params.")
        || contains_str(t, "query.") || contains_str(t, "body.") || contains_str(t, "url")
        || contains_str(t, "uri") || contains_str(t, "target") || contains_str(t, "userInput")
        || contains_str(t, "user_input") || contains_str(t, "filename") || contains_str(
        t,
        "filepath",
    ) || contains_str(t, "path") || contains_str(t, "file")
}

fn is_network_call(t: &[char]) -> (b: bool)
    ensures
        b == network_call(t@),
{
    contains_str(t, "fetch(") || contains_str(t, "axios(") || contains_str(t, "axios.get(")
        || contains_str(t, "axios.post(") || contains_str(t, "http.request(") || contains_str(
        t,
        "https.request(",
    )
}

fn is_comment_line(t: &[char]) -> (b: bool)
    ensures
        b == comment_line(t@),
{
    starts_with_str(t, "//") || starts_with_str(t, "#") || starts_with_str(t, "*")
        || starts_with_str(t, "/*")
}

/// Audits line `idx` of a file and appends what it yields to `out`.
fn analyze_line(
    patterns: &Vec<ScanPattern>,
    rel: &str,
    ctx: bool,
    idx: usize,
    line: &Vec<char>,
    out: &mut Vec<Finding>,
    counter: &mut u32,
    Ghost(done): Ghost<Seq<FindingView>>,
) -> (ok: bool)
    requires
        compiled_table(patterns@),
        idx < usize::MAX,
        *old(counter) == done.len(),
        finding_views(old(out)@) == numbered(done, source_prefix()),
    ensures
        ok ==> *final(counter) == done.len() + line_drafts(rel@, ctx, idx as int, line@).len(),
        ok ==> finding_views(final(out)@) == numbered(
            done + line_drafts(rel@, ctx, idx as int, line@),
            source_prefix(),
        ),
        !ok ==> done.len() + line_drafts(rel@, ctx, idx as int, line@).len() > u32::MAX,
{
    let t = trim_chars(line.as_slice());
    let n: u64 = (idx + 1) as u64;
    let ghost tv = trimmed(line@);
    let ghost nn = (idx + 1) as nat;
    let ghost mut acc = done;
    let ghost first: Seq<FindingView> = seq![];
    let ghost file_access = if filesystem_call(tv) && ctx && user_controlled(tv) {
        seq![traversal_draft(rel@, nn, tv)]
    } else {
        seq![]
    };
    let ghost outbound = if network_call(tv) && ctx && user_controlled(tv) {
        seq![outbound_draft(rel@, nn, tv)]
    } else {
        seq![]
    };
    let ghost whole = line_drafts(rel@, ctx, idx as int, line@);
    proof {
        if comment_line(tv) {
            assert(whole == file_access + outbound);
        } else {
            assert(whole == file_access + outbound + row_drafts(pattern_table(), rel@, nn, line@, ctx));
        }
        assert(whole.len() >= file_access.len() + outbound.len());
    }
    if is_filesystem_call(t.as_slice()) && ctx && looks_user_controlled(t.as_slice()) {
        let d = traversal_finding(rel, n, t.as_slice());
        if *counter == u32::MAX {
            return false;
        }
        proof {
            lemma_numbered_push(acc, d@, source_prefix());
        }
        push_numbered(out, counter, "KRYSTA-SRC-", d);
        proof {
            acc = acc.push(d@);
            first = first.push(d@);
        }
    }
    if is_network_call(t.as_slice()) && ctx && looks_user_controlled(t.as_slice()) {
        let d2 = outbound_finding(rel, n, t.as_slice());
        if *counter == u32::MAX {
            return false;
        }
        proof {
            lemma_numbered_push(acc, d2@, source_prefix());
        }
        push_numbered(out, counter, "KRYSTA-SRC-", d2);
        proof {
            acc = acc.push(d2@);
            first = first.push(d2@);
        }
    }
    proof {
        assert(first =~= file_access + outbound);
        assert(acc =~= done + first);
    }
    if !is_comment_line(t.as_slice()) {
        let text = string_of(line.as_slice());
        let np = patterns.len();
        let ghost base = acc;
        proof {
            assert(row_drafts(pattern_table().take(0), rel@, nn, line@, ctx) =~= Seq::<FindingView>::empty());
            assert(base + row_drafts(pattern_table().take(0), rel@, nn, line@, ctx) =~= base);
        }
        for k in 0..np
            invariant
                np == patterns@.len(),
                compiled_table(patterns@),
                text@ == line@,
                t@ == tv,
                tv == trimmed(line@),
                n == nn,
                base == done + file_access + outbound,
                whole == file_access + outbound + row_drafts(pattern_table(), rel@, nn, line@, ctx),
                whole == line_drafts(rel@, ctx, idx as int, line@),
                *counter == acc.len(),
                acc == base + row_drafts(pattern_table().take(k as int), rel@, nn, line@, ctx),
                acc.len() <= base.len() + k,
                finding_views(out@) == numbered(acc, source_prefix()),
        {
            let ghost rows_k = pattern_table().take(k as int);
            let ghost rows_k1 = pattern_table().take(k + 1);
            proof {
                assert(rows_k1.drop_last() =~= rows_k);
                assert(rows_k1.last() == pattern_table()[k as int]);
            }
            let p = &patterns[k];
            proof {
                assert(p.row == pattern_table()[k as int]);
                assert(p.matcher.source() == pattern_table()[k as int].regex@);
            }
            if p.row.category != Category::PathTraversal && p.row.category != Category::SSRF
                && p.matcher.is_match(text.as_str()) {
                let d = row_finding(&p.row, rel, n, t.as_slice(), ctx);
                if *counter == u32::MAX {
                    proof {
                        let row = pattern_table()[k as int];
                        assert(regex_finds(row.regex@, line@));
                        assert(row_drafts(rows_k1, rel@, nn, line@, ctx).len() == row_drafts(
                            rows_k,
                            rel@,
                            nn,
                            line@,
                            ctx,
                        ).len() + 1);
                        lemma_row_drafts_prefix(pattern_table(), k + 1, rel@, nn, line@, ctx);
                    }
                    return false;
                }
                proof {
                    lemma_numbered_push(acc, d@, source_prefix());
                }
                push_numbered(out, counter, "KRYSTA-SRC-", d);
                proof {
                    let row = pattern_table()[k as int];
                    assert(t@ == tv);
                    assert(regex_finds(row.regex@, line@));
                    assert(d@ == row_draft(row, rel@, nn, trimmed(line@), ctx));
                    assert(row_drafts(rows_k1, rel@, nn, line@, ctx) == row_drafts(rows_k, rel@, nn, line@, ctx).push(d@));
                    acc = acc.push(d@);
                    assert(acc =~= base + row_drafts(rows_k1, rel@, nn, line@, ctx));
                }
            } else {
                proof {
                    let row = pattern_table()[k as int];
                    assert(row.category == Category::PathTraversal || row.category == Category::SSRF
                        || !regex_finds(row.regex@, line@));
                    assert(row_drafts(rows_k1, rel@, nn, line@, ctx) == row_drafts(rows_k, rel@, nn, line@, ctx));
                    assert(acc =~= base + row_drafts(rows_k1, rel@, nn, line@, ctx));
                }
            }
        }
        proof {
            assert(pattern_table().take(np as int) =~= pattern_table());
            assert(acc =~= done + line_drafts(rel@, ctx, idx as int, line@));
        }
    } else {
        proof {
            assert(acc =~= done + line_drafts(rel@, ctx, idx as int, line@));
        }
    }
    true
}

/// Audits one file and appends what it yields to `out`.
fn analyze_file(
    patterns: &Vec<ScanPattern>,
    file: &WalkedFile,
    out: &mut Vec<Finding>,
    counter: &mut u32,
    Ghost(done): Ghost<Seq<FindingView>>,
) -> (ok: bool)
    requires
        compiled_table(patterns@),
        *old(counter) == done.len(),
        finding_views(old(out)@) == numbered(done, source_prefix()),
    ensures
        ok ==> *final(counter) == done.len() + file_drafts(*file).len(),
        ok ==> finding_views(final(out)@) == numbered(done + file_drafts(*file), source_prefix()),
        !ok ==> done.len() + file_drafts(*file).len() > u32::MAX,
{
    let ext = file_extension(file.file_name.as_str());
    if !SourceAnalyzer::is_source_candidate(file.path.as_str(), file.file_name.as_str()) {
        assert(done + file_drafts(*file) =~= done);
        return true;
    }
    match &file.content {
        None => {
            assert(done + file_drafts(*file) =~= done);
        },
        Some(c) => {
            let cs = chars_of(c.as_str());
            let ctx = tool_context_of(cs.as_slice(), ext.as_slice());
            let lines = split_lines(cs.as_slice());
            let nl = lines.len();
            let ghost all = views(lines@);
            proof {
                assert(all.take(0) =~= Seq::<Seq<char>>::empty());
                assert(done + lines_drafts(file.relative_path@, ctx, all.take(0)) =~= done);
            }
            for i in 0..nl
                invariant
                    nl == lines@.len(),
                    all == views(lines@),
                    all == lines_of(c@),
                    compiled_table(patterns@),
                    file_drafts(*file) == lines_drafts(file.relative_path@, ctx, all),
                    *counter == done.len() + lines_drafts(
                        file.relative_path@,
                        ctx,
                        all.take(i as int),
                    ).len(),
                    finding_views(out@) == numbered(
                        done + lines_drafts(file.relative_path@, ctx, all.take(i as int)),
                        source_prefix(),
                    ),
            {
                let ghost before = done + lines_drafts(file.relative_path@, ctx, all.take(i as int));
                proof {
                    assert(all.take(i + 1).drop_last() =~= all.take(i as int));
                    assert(all.take(i + 1).last() == lines@[i as int]@);
                }
                let ok = analyze_line(
                    patterns,
                    file.relative_path.as_str(),
                    ctx,
                    i,
                    &lines[i],
                    out,
                    counter,
                    Ghost(before),
                );
                proof {
                    assert(before + line_drafts(file.relative_path@, ctx, i as int, lines@[i as int]@)
                        =~= done + lines_drafts(file.relative_path@, ctx, all.take(i + 1)));
                }
                if !ok {
                    proof {
                        lemma_lines_drafts_prefix(file.relative_path@, ctx, all, i + 1);
                    }
                    return false;
                }
            }
            proof {
                assert(all.take(nl as int) =~= all);
            }
        },
    }
    true
}


// ------------------------------------------------------------------
// Locating a local source directory
// ------------------------------------------------------------------

/// What the filesystem says of one path named in a server declaration.
pub struct PathFacts {
    pub exists: bool,
    pub is_dir: bool,
    /// For each of `source_markers`, whether it exists inside the path.
    pub marker_hits: Vec<bool>,
    /// The parent path, where there is one.
    pub parent: Option<String>,
    pub parent_is_dir: bool,
    /// For each of `source_markers`, whether it exists inside the parent.
    pub parent_marker_hits: Vec<bool>,
}

/// Some marker was found.
pub open spec fn any_hit(hits: Seq<bool>) -> bool {
    exists|i: int| 0 <= i < hits.len() && hits[i]
}

/// The directory that a command path designates: the path itself if it is a
/// directory, else its parent if that is a directory.
pub open spec fn command_dir(f: PathFacts, cmd: Seq<char>) -> Option<Seq<char>> {
    if !f.exists {
        None
    } else if f.is_dir {
        Some(cmd)
    } else if f.parent is Some && f.parent_is_dir {
        Some(f.parent->0@)
    } else {
        None
    }
}

/// The source directory that an argument path designates: the path itself
/// if it is a directory holding a marker, else its parent if that is a
/// directory holding a marker.
pub open spec fn argument_dir(f: PathFacts, arg: Seq<char>) -> Option<Seq<char>> {
    if !f.exists {
        None
    } else if f.is_dir {
        if any_hit(f.marker_hits@) {
            Some(arg)
        } else {
            None
        }
    } else if f.parent is Some && f.parent_is_dir && any_hit(f.parent_marker_hits@) {
        Some(f.parent->0@)
    } else {
        None
    }
}

/// The first argument that designates a source directory.
pub open spec fn first_argument_dir(args: Seq<String>, facts: Seq<PathFacts>) -> Option<Seq<char>>
    decreases args.len(),
{
    if args.len() == 0 || facts.len() == 0 {
        None
    } else {
        match argument_dir(facts[0], args[0]@) {
            Some(d) => Some(d),
            None => first_argument_dir(args.drop_first(), facts.drop_first()),
        }
    }
}

/// The local source directory of a server: from its command, else from its
/// first argument that designates one.
pub open spec fn local_source_dir(
    server: McpServer,
    command_facts: Option<PathFacts>,
    arg_facts: Seq<PathFacts>,
) -> Option<Seq<char>> {
    let from_command = match (server.command, command_facts) {
        (Some(c), Some(f)) => command_dir(f, c@),
        _ => None,
    };
    if from_command is Some {
        from_command
    } else {
        first_argument_dir(server.args@, arg_facts)
    }
}

/// The view of an optional string.
pub open spec fn opt_view(o: Option<String>) -> Option<Seq<char>> {
    match o {
        Some(s) => Some(s@),
        None => None,
    }
}

fn any_marker(hits: &Vec<bool>) -> (b: bool)
    ensures
        b == any_hit(hits@),
{
    let n = hits.len();
    for i in 0..n
        invariant
            n == hits@.len(),
            forall|j: int| 0 <= j < i ==> !hits@[j],
    {
        if hits[i] {
            return true;
        }
    }
    false
}

impl SourceAnalyzer {
    /// The entries whose presence marks a directory as a source tree.
    pub fn source_markers() -> (v: Vec<&'static str>)
        ensures
            v@ == seq!["package.json", "src", "index.js", "index.ts", "Cargo.toml"],
    {
        vec!["package.json", "src", "index.js", "index.ts", "Cargo.toml"]
    }

    /// The directory where the server's source lies on this machine, given
    /// what the filesystem says of its command (`command_facts`) and of each
    /// of its arguments (`arg_facts`, one per argument).
    pub fn detect_local_source_dir(
        server: &McpServer,
        command_facts: &Option<PathFacts>,
        arg_facts: &Vec<PathFacts>,
    ) -> (r: Option<String>)
        requires
            arg_facts@.len() == server.args@.len(),
            command_facts is Some <==> server.command is Some,
        ensures
            opt_view(r) == local_source_dir(*server, *command_facts, arg_facts@),
    {
        if let Some(cmd) = &server.command {
            if let Some(f) = command_facts {
                if f.exists {
                    if f.is_dir {
                        return Some(cmd.clone());
                    } else if let Some(parent) = &f.parent {
                        if f.parent_is_dir {
                            return Some(parent.clone());
                        }
                    }
                }
            }
        }
        let n = server.args.len();
        let ghost args = server.args@;
        let ghost facts = arg_facts@;
        assert(args.skip(0) =~= args);
        assert(facts.skip(0) =~= facts);
        for i in 0..n
            invariant
                n == args.len(),
                args == server.args@,
                facts == arg_facts@,
                facts.len() == n,
                local_source_dir(*server, *command_facts, facts) == first_argument_dir(
                    args.skip(i as int),
                    facts.skip(i as int),
                ),
        {
            proof {
                assert(args.skip(i as int).drop_first() =~= args.skip(i + 1));
                assert(facts.skip(i as int).drop_first() =~= facts.skip(i + 1));
                assert(args.skip(i as int)[0] == args[i as int]);
                assert(facts.skip(i as int)[0] == facts[i as int]);
            }
            let f = &arg_facts[i];
            if f.exists {
                if f.is_dir {
                    if any_marker(&f.marker_hits) {
                        return Some(server.args[i].clone());
                    }
                } else if let Some(parent) = &f.parent {
                    if f.parent_is_dir && any_marker(&f.parent_marker_hits) {
                        return Some(parent.clone());
                    }
                }
            }
        }
        None
    }

    /// The tarball name that `npm pack` printed: its output trimmed, `None`
    /// where nothing is left.
    pub fn packed_tarball_name(output: &str) -> (r: Option<String>)
        ensures
            match r {
                Some(name) => name@ == trimmed(output@) && name@.len() > 0,
                None => trimmed(output@).len() == 0,
            },
    {
        let name = str_trim(output);
        if name.as_str().is_empty() {
            None
        } else {
            Some(name)
        }
    }
}

} // verus!
