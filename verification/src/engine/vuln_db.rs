//! The database of known MCP vulnerabilities, and the check of a tool
//! against it: a vulnerability applies to a tool when the tool's name falls
//! under the vulnerability's affected tools and its evidence pattern matches
//! the tool's description and schema.
use vstd::prelude::*;

use crate::engine::mcp::copy_strings;
use crate::pattern::{regex_compiles, regex_finds, TextPattern};
use crate::text::{chars_of, contains_chars, equals_str, has_substring, lowercase, str_to_lowercase, str_views};

verus! {

/// How severe a known vulnerability is.
#[derive(Clone, Copy, Debug, PartialEq, Eq, Structural)]
pub enum Severity {
    Critical,
    High,
    Medium,
    Low,
}

/// What kind of weakness a known vulnerability is.
#[derive(Clone, Copy, Debug, PartialEq, Eq, Structural)]
pub enum Category {
    CommandInjection,
    PathTraversal,
    Authentication,
    NetworkExposure,
    InformationDisclosure,
    CredentialExposure,
    SSRF,
    ToolPoisoning,
}

/// A known vulnerability.
#[derive(Clone, Debug)]
pub struct Vulnerability {
    pub id: String,
    pub severity: Severity,
    pub category: Category,
    pub title: String,
    pub description: String,
    /// Names of affected tools (matched as lowercase substrings of the tool
    /// name), or `*` for every tool.
    pub affected_tools: Vec<String>,
    /// The regex that the tool's description and schema must match.
    pub evidence_pattern: String,
    pub remediation: String,
}

/// A vulnerability with its texts as character sequences.
pub struct VulnerabilityView {
    pub id: Seq<char>,
    pub severity: Severity,
    pub category: Category,
    pub title: Seq<char>,
    pub description: Seq<char>,
    pub affected_tools: Seq<Seq<char>>,
    pub evidence_pattern: Seq<char>,
    pub remediation: Seq<char>,
}

/// The views of a sequence of strings.
pub open spec fn string_views(v: Seq<String>) -> Seq<Seq<char>> {
    Seq::new(v.len(), |i: int| v[i]@)
}

impl View for Vulnerability {
    type V = VulnerabilityView;

    open spec fn view(&self) -> VulnerabilityView {
        VulnerabilityView {
            id: self.id@,
            severity: self.severity,
            category: self.category,
            title: self.title@,
            description: self.description@,
            affected_tools: string_views(self.affected_tools@),
            evidence_pattern: self.evidence_pattern@,
            remediation: self.remediation@,
        }
    }
}

/// The views of a sequence of vulnerabilities.
pub open spec fn vulnerability_views(v: Seq<Vulnerability>) -> Seq<VulnerabilityView> {
    Seq::new(v.len(), |i: int| v[i]@)
}

/// A vulnerability given by its texts.
pub open spec fn entry(
    id: &str,
    severity: Severity,
    category: Category,
    title: &str,
    description: &str,
    tools: Seq<&str>,
    pattern: &str,
    remediation: &str,
) -> VulnerabilityView {
    VulnerabilityView {
        id: id@,
        severity: severity,
        category: category,
        title: title@,
        description: description@,
        affected_tools: str_views(tools),
        evidence_pattern: pattern@,
        remediation: remediation@,
    }
}

/// The vulnerabilities the database starts with, in order.
pub open spec fn default_vulnerabilities() -> Seq<VulnerabilityView> {
    seq![
        entry("CVE-2026-MCP-001", Severity::Critical, Category::CommandInjection,
            "Command injection via tool description",
            "MCP server allows arbitrary command execution through tool inputSchema",
            seq!["execute_command", "run_shell", "exec"],
            r#"(?i)(command|exec|shell)"#,
            "Remove execute_command tool or sandbox with strict allowlist"),
        entry("CVE-2026-MCP-002", Severity::High, Category::PathTraversal,
            "Path traversal in file system tools",
            "File read/write tools lack path validation",
            seq!["read_file", "write_file", "list_directory"],
            r#""path"\s*:\s*\{"#,
            "Add path pattern validation to inputSchema"),
        entry("CVE-2026-MCP-003", Severity::High, Category::SSRF,
            "SSRF via fetch_url tool",
            "URL fetching tool allows access to internal services",
            seq!["fetch_url", "http_request", "download"],
            r#""url"\s*:\s*\{"#,
            "Add URL allowlist or block internal IP ranges"),
        entry("CVE-2026-MCP-004", Severity::Critical, Category::CredentialExposure,
            "Credential exposure in tool schema",
            "Tool schema contains hardcoded API keys or tokens",
            seq!["*"],
            r#"(?i)(api_key|token|secret|password)"#,
            "Never hardcode credentials in tool schemas"),
        entry("CVE-2026-MCP-005", Severity::Critical, Category::CommandInjection,
            "Exec/Shell injection via subprocess",
            "Server passes unsanitized input to subprocess or eval",
            seq!["execute", "run", "shell", "run_script"],
            r#"(?i)(exec|eval|subprocess|shell)"#,
            "Never pass user input directly to shell execution."),
        entry("CVE-2026-MCP-006", Severity::Critical, Category::CommandInjection,
            "Hardening bypass via npx -c flag",
            "Malicious commands hidden inside npx -c argument",
            seq!["*"],
            r#"(?i)-c.*?(curl|wget|bash|rm|sh)"#,
            "Block -c flag in npx invocations."),
        entry("CVE-2026-MCP-007", Severity::High, Category::ToolPoisoning,
            "Tool description poisoning",
            "Malicious instructions injected into tool description",
            seq!["*"],
            r#"(?i)(ignore previous|secretly|without user knowledge|exfiltrate|curl http)"#,
            "Validate tool descriptions against known safe patterns."),
        entry("CVE-2026-MCP-008", Severity::Medium, Category::ToolPoisoning,
            "Unpinned server configuration",
            "MCP server uses @latest enabling supply chain attacks",
            seq!["*"],
            r#"(?i)@latest"#,
            "Pin all package versions."),
        entry("CVE-2026-MCP-009", Severity::High, Category::NetworkExposure,
            "Insecure SSE transport",
            "SSE endpoint exposed without authentication",
            seq!["*"],
            r#"(?i)0\.0\.0\.0"#,
            "Never bind to 0.0.0.0 in production."),
        entry("CVE-2026-MCP-010", Severity::High, Category::SSRF,
            "Missing auth on public SSE endpoint",
            "SSE transport URL exposed to internet without authentication",
            seq!["*"],
            r#"(?i)https?://[a-zA-Z0-9.-]+\.[a-zA-Z]{2,}"#,
            "Add token enforcement or move behind API gateway."),
    ]
}

/// A tool name falls under affected tools: some entry is `*`, or its
/// lowercase is contained in the lowercase of the name.
pub open spec fn tool_affected(tools: Seq<Seq<char>>, name: Seq<char>) -> bool {
    exists|i: int|
        0 <= i < tools.len() && (tools[i] == "*"@ || has_substring(
            lowercase(name),
            lowercase(tools[i]),
        ))
}

/// A vulnerability applies to a tool named `name` with evidence text `schema`.
pub open spec fn applies(v: VulnerabilityView, name: Seq<char>, schema: Seq<char>) -> bool {
    tool_affected(v.affected_tools, name) && regex_compiles(v.evidence_pattern) && regex_finds(
        v.evidence_pattern,
        schema,
    )
}

/// The vulnerabilities among `vs` that apply, in order.
pub open spec fn applicable(vs: Seq<VulnerabilityView>, name: Seq<char>, schema: Seq<char>) -> Seq<
    VulnerabilityView,
>
    decreases vs.len(),
{
    if vs.len() == 0 {
        seq![]
    } else {
        let prev = applicable(vs.drop_last(), name, schema);
        if applies(vs.last(), name, schema) {
            prev.push(vs.last())
        } else {
            prev
        }
    }
}

/// Every vulnerability of `vs` whose affected tools include `*` or a name
/// contained (case-insensitively) in `name`, and whose evidence pattern
/// compiles and matches `schema`, is among those that apply.
pub proof fn lemma_applicable_complete(
    vs: Seq<VulnerabilityView>,
    name: Seq<char>,
    schema: Seq<char>,
    j: int,
)
    requires
        0 <= j < vs.len(),
        exists|a: int|
            0 <= a < vs[j].affected_tools.len() && (vs[j].affected_tools[a] == "*"@
                || has_substring(lowercase(name), lowercase(vs[j].affected_tools[a]))),
        regex_compiles(vs[j].evidence_pattern),
        regex_finds(vs[j].evidence_pattern, schema),
    ensures
        applicable(vs, name, schema).contains(vs[j]),
    decreases vs.len(),
{
    let prev = applicable(vs.drop_last(), name, schema);
    if j == vs.len() - 1 {
        assert(vs.last() == vs[j]);
        assert(applicable(vs, name, schema)[prev.len() as int] == vs[j]);
    } else {
        assert(vs.drop_last()[j] == vs[j]);
        lemma_applicable_complete(vs.drop_last(), name, schema, j);
        let k = choose|k: int| 0 <= k < prev.len() && prev[k] == vs[j];
        assert(applicable(vs, name, schema)[k] == prev[k]);
    }
}

/// A vulnerability built from its texts.
fn make_entry(
    id: &str,
    severity: Severity,
    category: Category,
    title: &str,
    description: &str,
    tools: &[&str],
    pattern: &str,
    remediation: &str,
) -> (v: Vulnerability)
    ensures
        v@ == entry(id, severity, category, title, description, tools@, pattern, remediation),
{
    let mut affected: Vec<String> = Vec::new();
    let n = tools.len();
    for i in 0..n
        invariant
            n == tools@.len(),
            string_views(affected@) == str_views(tools@.take(i as int)),
    {
        let ghost before = affected@;
        let name: &str = tools[i];
        let owned: String = name.to_owned();
        affected.push(owned);
        assert(affected@ == before.push(owned));
        assert(tools@.take(i + 1) =~= tools@.take(i as int).push(name));
        assert(string_views(affected@) =~= string_views(before).push(owned@));
        assert(str_views(tools@.take(i + 1)) =~= str_views(tools@.take(i as int)).push(name@));
    }
    assert(tools@.take(n as int) =~= tools@);
    Vulnerability {
        id: id.to_owned(),
        severity: severity,
        category: category,
        title: title.to_owned(),
        description: description.to_owned(),
        affected_tools: affected,
        evidence_pattern: pattern.to_owned(),
        remediation: remediation.to_owned(),
    }
}

impl Vulnerability {
    /// A copy of this vulnerability.
    pub fn duplicate(&self) -> (r: Vulnerability)
        ensures
            r@ == self@,
    {
        Vulnerability {
            id: self.id.clone(),
            severity: self.severity,
            category: self.category,
            title: self.title.clone(),
            description: self.description.clone(),
            affected_tools: copy_strings(&self.affected_tools),
            evidence_pattern: self.evidence_pattern.clone(),
            remediation: self.remediation.clone(),
        }
    }
}

/// The vulnerability database.
pub struct VulnDb {
    vulnerabilities: Vec<Vulnerability>,
}

impl View for VulnDb {
    type V = Seq<VulnerabilityView>;

    closed spec fn view(&self) -> Seq<VulnerabilityView> {
        vulnerability_views(self.vulnerabilities@)
    }
}

impl Default for VulnDb {
    fn default() -> (db: Self)
        ensures
            db@ == default_vulnerabilities(),
    {
        Self::new()
    }
}

impl VulnDb {
    /// The database of the built-in vulnerabilities.
    pub fn new() -> (db: Self)
        ensures
            db@ == default_vulnerabilities(),
    {
        let mut db = VulnDb { vulnerabilities: Vec::new() };
        assert(db@ =~= Seq::<VulnerabilityView>::empty());
        db.load_default_vulnerabilities();
        assert(db@ =~= default_vulnerabilities());
        db
    }

    /// Appends the built-in vulnerabilities.
    pub fn load_default_vulnerabilities(&mut self)
        ensures
            final(self)@ == old(self)@ + default_vulnerabilities(),
    {
        let ghost start = self.vulnerabilities@;
        let v1 = make_entry("CVE-2026-MCP-001", Severity::Critical, Category::CommandInjection,
            "Command injection via tool description",
            "MCP server allows arbitrary command execution through tool inputSchema",
            &["execute_command", "run_shell", "exec"],
            r#"(?i)(command|exec|shell)"#,
            "Remove execute_command tool or sandbox with strict allowlist");
        let v2 = make_entry("CVE-2026-MCP-002", Severity::High, Category::PathTraversal,
            "Path traversal in file system tools",
            "File read/write tools lack path validation",
            &["read_file", "write_file", "list_directory"],
            r#""path"\s*:\s*\{"#,
            "Add path pattern validation to inputSchema");
        let v3 = make_entry("CVE-2026-MCP-003", Severity::High, Category::SSRF,
            "SSRF via fetch_url tool",
            "URL fetching tool allows access to internal services",
            &["fetch_url", "http_request", "download"],
            r#""url"\s*:\s*\{"#,
            "Add URL allowlist or block internal IP ranges");
        let v4 = make_entry("CVE-2026-MCP-004", Severity::Critical, Category::CredentialExposure,
            "Credential exposure in tool schema",
            "Tool schema contains hardcoded API keys or tokens",
            &["*"],
            r#"(?i)(api_key|token|secret|password)"#,
            "Never hardcode credentials in tool schemas");
        let v5 = make_entry("CVE-2026-MCP-005", Severity::Critical, Category::CommandInjection,
            "Exec/Shell injection via subprocess",
            "Server passes unsanitized input to subprocess or eval",
            &["execute", "run", "shell", "run_script"],
            r#"(?i)(exec|eval|subprocess|shell)"#,
            "Never pass user input directly to shell execution.");
        let v6 = make_entry("CVE-2026-MCP-006", Severity::Critical, Category::CommandInjection,
            "Hardening bypass via npx -c flag",
            "Malicious commands hidden inside npx -c argument",
            &["*"],
            r#"(?i)-c.*?(curl|wget|bash|rm|sh)"#,
            "Block -c flag in npx invocations.");
        let v7 = make_entry("CVE-2026-MCP-007", Severity::High, Category::ToolPoisoning,
            "Tool description poisoning",
            "Malicious instructions injected into tool description",
            &["*"],
            r#"(?i)(ignore previous|secretly|without user knowledge|exfiltrate|curl http)"#,
            "Validate tool descriptions against known safe patterns.");
        let v8 = make_entry("CVE-2026-MCP-008", Severity::Medium, Category::ToolPoisoning,
            "Unpinned server configuration",
            "MCP server uses @latest enabling supply chain attacks",
            &["*"],
            r#"(?i)@latest"#,
            "Pin all package versions.");
        let v9 = make_entry("CVE-2026-MCP-009", Severity::High, Category::NetworkExposure,
            "Insecure SSE transport",
            "SSE endpoint exposed without authentication",
            &["*"],
            r#"(?i)0\.0\.0\.0"#,
            "Never bind to 0.0.0.0 in production.");
        let v10 = make_entry("CVE-2026-MCP-010", Severity::High, Category::SSRF,
            "Missing auth on public SSE endpoint",
            "SSE transport URL exposed to internet without authentication",
            &["*"],
            r#"(?i)https?://[a-zA-Z0-9.-]+\.[a-zA-Z]{2,}"#,
            "Add token enforcement or move behind API gateway.");
        assert(v1@ == default_vulnerabilities()[0]);
        assert(v2@ == default_vulnerabilities()[1]);
        assert(v3@ == default_vulnerabilities()[2]);
        assert(v4@.id == default_vulnerabilities()[3].id);
        assert(v4@.title == default_vulnerabilities()[3].title);
        assert(v4@.description == default_vulnerabilities()[3].description);
        assert(v4@.affected_tools == default_vulnerabilities()[3].affected_tools);
        assert(v4@.evidence_pattern == default_vulnerabilities()[3].evidence_pattern);
        assert(v4@.remediation == default_vulnerabilities()[3].remediation);
        assert(v4@ == default_vulnerabilities()[3]);
        assert(v5@ == default_vulnerabilities()[4]);
        assert(v6@ == default_vulnerabilities()[5]);
        assert(v7@ == default_vulnerabilities()[6]);
        assert(v8@ == default_vulnerabilities()[7]);
        assert(v9@ == default_vulnerabilities()[8]);
        assert(v10@ == default_vulnerabilities()[9]);
        self.vulnerabilities.push(v1);
        self.vulnerabilities.push(v2);
        self.vulnerabilities.push(v3);
        self.vulnerabilities.push(v4);
        self.vulnerabilities.push(v5);
        self.vulnerabilities.push(v6);
        self.vulnerabilities.push(v7);
        self.vulnerabilities.push(v8);
        self.vulnerabilities.push(v9);
        self.vulnerabilities.push(v10);
        assert(vulnerability_views(self.vulnerabilities@) =~= vulnerability_views(start)
            + default_vulnerabilities());
    }

    /// The vulnerabilities that apply to a tool named `tool_name` whose
    /// description and schema read `tool_schema`, in database order.
    pub fn check_tool(&self, tool_name: &str, tool_schema: &str) -> (r: Vec<Vulnerability>)
        ensures
            vulnerability_views(r@) == applicable(self@, tool_name@, tool_schema@),
    {
        let mut matches: Vec<Vulnerability> = Vec::new();
        let n = self.vulnerabilities.len();
        let lower_name = str_to_lowercase(tool_name);
        let name_chars = chars_of(lower_name.as_str());
        let ghost all = self@;
        assert(all.take(0) =~= Seq::<VulnerabilityView>::empty());
        for i in 0..n
            invariant
                n == self.vulnerabilities@.len(),
                all == self@,
                all == vulnerability_views(self.vulnerabilities@),
                name_chars@ == lowercase(tool_name@),
                vulnerability_views(matches@) == applicable(all.take(i as int), tool_name@, tool_schema@),
        {
            proof {
                assert(all.take(i + 1).drop_last() =~= all.take(i as int));
                assert(all.take(i + 1).last() == self.vulnerabilities@[i as int]@);
            }
            let vuln = &self.vulnerabilities[i];
            let affected = tool_matches(&vuln.affected_tools, name_chars.as_slice(), Ghost(tool_name@));
            if affected {
                match TextPattern::compile(vuln.evidence_pattern.as_str()) {
                    Some(re) => {
                        if re.is_match(tool_schema) {
                            let ghost before = matches@;
                            matches.push(vuln.duplicate());
                            assert(vulnerability_views(matches@) =~= vulnerability_views(before).push(vuln@));
                        }
                    },
                    None => {},
                }
            }
        }
        assert(all.take(n as int) =~= all);
        matches
    }

    /// The vulnerabilities of the database, in order.
    pub fn all_vulnerabilities(&self) -> (r: &[Vulnerability])
        ensures
            vulnerability_views(r@) == self@,
    {
        self.vulnerabilities.as_slice()
    }
}

/// Whether a tool whose lowercased name is `lower_name` falls under `tools`.
fn tool_matches(tools: &Vec<String>, lower_name: &[char], Ghost(name): Ghost<Seq<char>>) -> (b: bool)
    requires
        lower_name@ == lowercase(name),
    ensures
        b == tool_affected(string_views(tools@), name),
{
    let n = tools.len();
    for i in 0..n
        invariant
            n == tools@.len(),
            lower_name@ == lowercase(name),
            forall|j: int|
                0 <= j < i ==> !(tools@[j]@ == "*"@ || has_substring(
                    lowercase(name),
                    lowercase(tools@[j]@),
                )),
    {
        let t = &tools[i];
        let tv = chars_of(t.as_str());
        if equals_str(tv.as_slice(), "*") {
            assert(string_views(tools@)[i as int] == tools@[i as int]@);
            return true;
        }
        let lower_t = str_to_lowercase(t.as_str());
        let lt = chars_of(lower_t.as_str());
        if contains_chars(lower_name, lt.as_slice()) {
            assert(string_views(tools@)[i as int] == tools@[i as int]@);
            return true;
        }
    }
    assert forall|j: int| 0 <= j < string_views(tools@).len() implies !(string_views(tools@)[j] == "*"@
        || has_substring(lowercase(name), lowercase(string_views(tools@)[j]))) by {
        assert(string_views(tools@)[j] == tools@[j]@);
    }
    false
}

} // verus!
