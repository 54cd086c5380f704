//! The scanner: static checks of a server declaration, the evaluation of
//! the tools a server offers against the vulnerability database, the active
//! probes sent to those tools, and the merging of everything found.
//!
//! Connecting to servers, the package download and the timeouts are
//! handled outside; the scanner takes what they produced.
use vstd::prelude::*;

use crate::engine::mcp::{McpServer, TransportType};
use crate::engine::mcp_client::{Tool, ToolCallResult};
use crate::engine::package_analyzer::{server_package, PackageAnalyzer};
use crate::engine::source_analyzer::{local_source_dir, PathFacts, SourceAnalyzer};
use crate::engine::vuln_db::{self, applicable, vulnerability_views, VulnDb, VulnerabilityView, default_vulnerabilities};
use crate::json::{has_key, lookup, JsonValue};
use crate::models::finding::{finding_views, Category, Finding, FindingSource, FindingView, Severity};
use crate::pattern::{regex_compiles, regex_finds};
use crate::text::{
    byte_len, chars_of, contains_chars, contains_str, equals_str, find_chars, find_from,
    has_prefix, has_substring, lemma_find_from, occurs_at, lowercase, slice_chars, starts_with_str,
    str_contains, str_equals, str_to_lowercase,
};

verus! {

/// Scans MCP servers.
pub struct Scanner {
    vuln_db: VulnDb,
}

/// The finding severity of a database severity.
pub open spec fn severity_of(s: vuln_db::Severity) -> Severity {
    match s {
        vuln_db::Severity::Critical => Severity::Critical,
        vuln_db::Severity::High => Severity::High,
        vuln_db::Severity::Medium => Severity::Medium,
        vuln_db::Severity::Low => Severity::Low,
    }
}

/// The finding category of a database category.
pub open spec fn category_of(c: vuln_db::Category) -> Category {
    match c {
        vuln_db::Category::CommandInjection => Category::CommandInjection,
        vuln_db::Category::PathTraversal => Category::PathTraversal,
        vuln_db::Category::Authentication => Category::Authentication,
        vuln_db::Category::NetworkExposure => Category::NetworkExposure,
        vuln_db::Category::InformationDisclosure => Category::InformationDisclosure,
        vuln_db::Category::CredentialExposure => Category::CredentialExposure,
        vuln_db::Category::SSRF => Category::SSRF,
        vuln_db::Category::ToolPoisoning => Category::ToolPoisoning,
    }
}

/// The finding severity of a database severity.
pub fn map_severity(s: &vuln_db::Severity) -> (r: Severity)
    ensures
        r == severity_of(*s),
{
    match s {
        vuln_db::Severity::Critical => Severity::Critical,
        vuln_db::Severity::High => Severity::High,
        vuln_db::Severity::Medium => Severity::Medium,
        vuln_db::Severity::Low => Severity::Low,
    }
}

/// The finding category of a database category.
pub fn map_category(c: &vuln_db::Category) -> (r: Category)
    ensures
        r == category_of(*c),
{
    match c {
        vuln_db::Category::CommandInjection => Category::CommandInjection,
        vuln_db::Category::PathTraversal => Category::PathTraversal,
        vuln_db::Category::Authentication => Category::Authentication,
        vuln_db::Category::NetworkExposure => Category::NetworkExposure,
        vuln_db::Category::InformationDisclosure => Category::InformationDisclosure,
        vuln_db::Category::CredentialExposure => Category::CredentialExposure,
        vuln_db::Category::SSRF => Category::SSRF,
        vuln_db::Category::ToolPoisoning => Category::ToolPoisoning,
    }
}

// ------------------------------------------------------------------
// Static checks
// ------------------------------------------------------------------

/// The length of the leading run of `s` that holds none of `stops`.
pub open spec fn run_len(s: Seq<char>, stops: Seq<char>) -> nat
    decreases s.len(),
{
    if s.len() == 0 || stops.contains(s[0]) {
        0
    } else {
        1 + run_len(s.drop_first(), stops)
    }
}

/// The position of the last `@` in `s`, or -1.
pub open spec fn last_at(s: Seq<char>) -> int
    decreases s.len(),
{
    if s.len() == 0 {
        -1
    } else if s.last() == '@' {
        s.len() - 1
    } else {
        last_at(s.drop_last())
    }
}

/// The text of a URL after its scheme (the whole text where it has none).
pub open spec fn after_scheme(u: Seq<char>) -> Seq<char> {
    let p = find_from(u, "://"@, 0);
    if p >= 0 {
        u.skip(p + 3)
    } else {
        u
    }
}

/// The authority of a URL: what follows the scheme, up to a path, query
/// or fragment.
pub open spec fn authority_of(u: Seq<char>) -> Seq<char> {
    after_scheme(u).take(run_len(after_scheme(u), seq!['/', '?', '#']) as int)
}

/// The authority without its user information (what precedes its last `@`).
pub open spec fn host_port_of(u: Seq<char>) -> Seq<char> {
    authority_of(u).skip(last_at(authority_of(u)) + 1)
}

/// The host of a URL: its authority without user information and port.
pub open spec fn host_of(u: Seq<char>) -> Seq<char> {
    host_port_of(u).take(run_len(host_port_of(u), seq![':']) as int)
}

/// A host on the local machine or on a private network.
pub open spec fn private_host(h: Seq<char>) -> bool {
    ||| h == "localhost"@
    ||| h == "127.0.0.1"@
    ||| has_prefix(h, "10."@)
    ||| has_prefix(h, "192.168."@)
}

/// A URL (lowercased) whose host is local or private.
pub open spec fn local_url(u: Seq<char>) -> bool {
    private_host(host_of(u))
}

proof fn lemma_last_at(s: Seq<char>)
    ensures
        -1 <= last_at(s) < s.len(),
    decreases s.len(),
{
    if s.len() > 0 && s.last() != '@' {
        lemma_last_at(s.drop_last());
    }
}

/// Whether `c` is one of `stops`.
fn is_stop(c: char, stops: &[char]) -> (b: bool)
    ensures
        b == stops@.contains(c),
{
    let n = stops.len();
    for i in 0..n
        invariant
            n == stops@.len(),
            forall|j: int| 0 <= j < i ==> stops@[j] != c,
    {
        if stops[i] == c {
            return true;
        }
    }
    false
}

/// The length of the leading run of `s` that holds none of `stops`.
fn leading_run(s: &[char], stops: &[char]) -> (k: usize)
    ensures
        k == run_len(s@, stops@),
        k <= s@.len(),
{
    let n = s.len();
    let mut k: usize = 0;
    proof {
        assert(s@.skip(0) =~= s@);
    }
    while k < n && !is_stop(s[k], stops)
        invariant
            n == s@.len(),
            k <= n,
            run_len(s@, stops@) == k + run_len(s@.skip(k as int), stops@),
        decreases n - k,
    {
        proof {
            assert(s@.skip(k as int).drop_first() =~= s@.skip(k + 1));
            assert(s@.skip(k as int)[0] == s@[k as int]);
        }
        k = k + 1;
    }
    proof {
        if k < n {
            assert(s@.skip(k as int)[0] == s@[k as int]);
        }
        assert(run_len(s@.skip(k as int), stops@) == 0);
    }
    k
}

/// The position just after the last `@` of `s`, or 0.
fn after_last_at(s: &[char]) -> (p: usize)
    ensures
        p as int == last_at(s@) + 1,
{
    let mut i: usize = s.len();
    proof {
        assert(s@.take(i as int) =~= s@);
    }
    while i > 0
        invariant
            i <= s@.len(),
            last_at(s@) == last_at(s@.take(i as int)),
        decreases i,
    {
        proof {
            assert(s@.take(i as int).last() == s@[i - 1]);
            assert(s@.take(i as int).drop_last() =~= s@.take(i - 1));
        }
        if s[i - 1] == '@' {
            return i;
        }
        i = i - 1;
    }
    i
}

/// The host of a URL given as characters.
fn url_host(u: &[char]) -> (h: Vec<char>)
    ensures
        h@ == host_of(u@),
{
    let ulen = u.len();
    let scheme = chars_of("://");
    proof {
        reveal_strlit("://");
        assert(scheme@.len() == 3);
    }
    let start: usize = match find_chars(u, scheme.as_slice()) {
        Some(p) => {
            proof {
                lemma_find_from(u@, scheme@, 0);
                assert(find_from(u@, scheme@, 0) == p as int);
                assert(occurs_at(u@, scheme@, p as int));
                assert(p + 3 <= ulen);
            }
            p + 3
        },
        None => 0,
    };
    let rest = slice_chars(u, start, u.len());
    assert(rest@ =~= after_scheme(u@));
    let path_stops = vec!['/', '?', '#'];
    assert(path_stops@ =~= seq!['/', '?', '#']);
    let alen = leading_run(rest.as_slice(), path_stops.as_slice());
    let authority = slice_chars(rest.as_slice(), 0, alen);
    assert(authority@ =~= authority_of(u@));
    let from = after_last_at(authority.as_slice());
    proof {
        lemma_last_at(authority@);
    }
    let host_port = slice_chars(authority.as_slice(), from, authority.len());
    assert(host_port@ =~= host_port_of(u@));
    let port_stops = vec![':'];
    assert(port_stops@ =~= seq![':']);
    let hlen = leading_run(host_port.as_slice(), port_stops.as_slice());
    let h = slice_chars(host_port.as_slice(), 0, hlen);
    assert(h@ =~= host_of(u@));
    h
}

/// Whether a lowercased URL points at a local or private host.
fn is_local_url(u: &[char]) -> (b: bool)
    ensures
        b == local_url(u@),
{
    let h = url_host(u);
    equals_str(h.as_slice(), "localhost") || equals_str(h.as_slice(), "127.0.0.1")
        || starts_with_str(h.as_slice(), "10.") || starts_with_str(h.as_slice(), "192.168.")
}

/// A command that mentions a shell, a downloader, a deletion or an interpreter.
pub open spec fn dangerous_command(c: Seq<char>) -> bool {
    ||| has_substring(c, "rm"@)
    ||| has_substring(c, "curl"@)
    ||| has_substring(c, "wget"@)
    ||| has_substring(c, "bash"@)
    ||| has_substring(c, "sh"@)
    ||| has_substring(c, "python"@)
    ||| has_substring(c, "node"@)
}

/// A server name that suggests file system access.
pub open spec fn file_server_name(name: Seq<char>) -> bool {
    has_substring(name, "file"@) || has_substring(name, "fs"@)
}

/// The finding that a server has no authentication.
pub open spec fn missing_auth_finding(name: Seq<char>) -> FindingView {
    FindingView {
        id: "KRYSTA-001"@,
        title: name + " — Missing authentication"@,
        severity: Severity::High,
        category: Category::Authentication,
        description: "MCP server has no authentication configured. Any process can connect."@,
        evidence: "No auth token or credentials found in config"@,
        remediation: "Add API key or OAuth2 authentication to the MCP server."@,
        source: FindingSource::Static,
    }
}

/// The finding that a server is reachable from the internet.
pub open spec fn exposed_finding(name: Seq<char>, url: Seq<char>) -> FindingView {
    FindingView {
        id: "KRYSTA-002"@,
        title: name + " — Exposed to internet"@,
        severity: Severity::Critical,
        category: Category::NetworkExposure,
        description: "MCP server is accessible from the public internet."@,
        evidence: "URL: "@ + url,
        remediation: "Bind to localhost (127.0.0.1) or add IP allowlist."@,
        source: FindingSource::Static,
    }
}

/// The finding that a server's command looks dangerous.
pub open spec fn dangerous_command_finding(name: Seq<char>, cmd: Seq<char>) -> FindingView {
    FindingView {
        id: "KRYSTA-003"@,
        title: name + " — Potentially dangerous command"@,
        severity: Severity::High,
        category: Category::CommandInjection,
        description: "MCP server command contains potentially dangerous patterns."@,
        evidence: "Command: "@ + cmd,
        remediation: "Review command arguments. Avoid shell execution with user input."@,
        source: FindingSource::Static,
    }
}

/// The finding that a file system server risks path traversal.
pub open spec fn path_risk_finding(name: Seq<char>) -> FindingView {
    FindingView {
        id: "KRYSTA-004"@,
        title: name + " — Potential path traversal risk"@,
        severity: Severity::Medium,
        category: Category::PathTraversal,
        description: "File system MCP servers often have path traversal vulnerabilities."@,
        evidence: "Server name suggests file system access"@,
        remediation: "Validate all paths against an allowlist. Block ../ sequences."@,
        source: FindingSource::Static,
    }
}

/// What the static checks find in a server declaration, in order: missing
/// authentication always; internet exposure for a non-local URL; a
/// dangerous command; path traversal risk for a file system server.
pub open spec fn static_findings(server: McpServer) -> Seq<FindingView> {
    let name = server.name@;
    let a = seq![missing_auth_finding(name)];
    let b = match server.url {
        Some(u) => if !local_url(lowercase(u@)) {
            a.push(exposed_finding(name, u@))
        } else {
            a
        },
        None => a,
    };
    let c = match server.command {
        Some(cmd) => if dangerous_command(cmd@) {
            b.push(dangerous_command_finding(name, cmd@))
        } else {
            b
        },
        None => b,
    };
    if file_server_name(name) {
        c.push(path_risk_finding(name))
    } else {
        c
    }
}

/// A server whose command contains any of `rm`, `curl`, `wget`, `bash`,
/// `sh`, `python` or `node` is reported by the static checks as running a
/// potentially dangerous command, quoting the command.
pub proof fn lemma_dangerous_words_reported(server: McpServer, word: Seq<char>)
    requires
        server.command is Some,
        word == "rm"@ || word == "curl"@ || word == "wget"@ || word == "bash"@ || word == "sh"@
            || word == "python"@ || word == "node"@,
        has_substring(server.command->0@, word),
    ensures
        exists|k: int|
            0 <= k < static_findings(server).len() && (#[trigger] static_findings(server)[k]).id
                == "KRYSTA-003"@ && static_findings(server)[k].title == server.name@
                + " — Potentially dangerous command"@ && static_findings(server)[k].evidence
                == "Command: "@ + server.command->0@,
{
    let name = server.name@;
    let cmd = server.command->0@;
    let a = seq![missing_auth_finding(name)];
    let b = match server.url {
        Some(u) => if !local_url(lowercase(u@)) {
            a.push(exposed_finding(name, u@))
        } else {
            a
        },
        None => a,
    };
    assert(dangerous_command(cmd));
    let c = b.push(dangerous_command_finding(name, cmd));
    let k = b.len() as int;
    if file_server_name(name) {
        assert(static_findings(server) == c.push(path_risk_finding(name)));
        assert(static_findings(server)[k] == dangerous_command_finding(name, cmd));
    } else {
        assert(static_findings(server) == c);
        assert(static_findings(server)[k] == dangerous_command_finding(name, cmd));
    }
}

/// A server whose name contains `file` or `fs` is reported by the static
/// checks as a file system server at risk of path traversal.
pub proof fn lemma_file_servers_reported(server: McpServer)
    requires
        has_substring(server.name@, "file"@) || has_substring(server.name@, "fs"@),
    ensures
        exists|k: int|
            0 <= k < static_findings(server).len() && (#[trigger] static_findings(server)[k]).id
                == "KRYSTA-004"@ && static_findings(server)[k].title == server.name@
                + " — Potential path traversal risk"@,
{
    assert(file_server_name(server.name@));
    let fs = static_findings(server);
    assert(fs[fs.len() - 1] == path_risk_finding(server.name@));
}

proof fn lemma_run_len(s: Seq<char>, stops: Seq<char>)
    ensures
        run_len(s, stops) <= s.len(),
    decreases s.len(),
{
    if s.len() > 0 && !stops.contains(s[0]) {
        lemma_run_len(s.drop_first(), stops);
    }
}

/// The host of a URL is a piece of it.
proof fn lemma_host_in_url(u: Seq<char>) -> (a: int)
    ensures
        0 <= a && a + host_of(u).len() <= u.len(),
        u.subrange(a, a + host_of(u).len()) == host_of(u),
{
    let p = find_from(u, "://"@, 0);
    lemma_find_from(u, "://"@, 0);
    reveal_strlit("://");
    let s0: int = if p >= 0 {
        p + 3
    } else {
        0
    };
    let after = after_scheme(u);
    assert(after == u.skip(s0));
    let auth = authority_of(u);
    lemma_run_len(after, seq!['/', '?', '#']);
    lemma_last_at(auth);
    let s1 = last_at(auth) + 1;
    let hp = host_port_of(u);
    lemma_run_len(hp, seq![':']);
    let h = host_of(u);
    let a = s0 + s1;
    assert(u.subrange(a, a + h.len()) =~= h);
    a
}

proof fn lemma_find_from_at(u: Seq<char>, needle: Seq<char>, i: int, k: int)
    requires
        0 <= i <= k,
        needle.len() > 0,
        occurs_at(u, needle, k),
        forall|x: int| i <= x < k ==> u[x] != needle[0],
    ensures
        find_from(u, needle, i) == k,
    decreases k - i,
{
    if i < k {
        assert(!occurs_at(u, needle, i)) by {
            if occurs_at(u, needle, i) {
                assert(u.subrange(i, i + needle.len())[0] == needle[0]);
            }
        }
        lemma_find_from_at(u, needle, i + 1, k);
    }
}

proof fn lemma_run_len_concat(a: Seq<char>, b: Seq<char>, stops: Seq<char>)
    requires
        forall|x: int| 0 <= x < a.len() ==> !stops.contains(a[x]),
        b.len() == 0 || stops.contains(b[0]),
    ensures
        run_len(a + b, stops) == a.len(),
    decreases a.len(),
{
    if a.len() == 0 {
        assert(a + b =~= b);
    } else {
        assert((a + b).drop_first() =~= a.drop_first() + b);
        assert((a + b)[0] == a[0]);
        lemma_run_len_concat(a.drop_first(), b, stops);
    }
}

proof fn lemma_no_at(s: Seq<char>)
    requires
        forall|x: int| 0 <= x < s.len() ==> s[x] != '@',
    ensures
        last_at(s) == -1,
    decreases s.len(),
{
    if s.len() > 0 {
        lemma_no_at(s.drop_last());
    }
}

/// A character that can stand in a host name.
pub open spec fn host_char(c: char) -> bool {
    c != '@' && c != '/' && c != '?' && c != '#' && c != ':'
}

/// A server whose lowercased URL is `http://` or `https://`, a local or
/// private host (`localhost`, `127.0.0.1`, `10.*`, `192.168.*`), an
/// optional port and an optional path, query or fragment, is not reported
/// as exposed to the internet.
pub proof fn lemma_private_urls_not_reported(
    server: McpServer,
    scheme: Seq<char>,
    host: Seq<char>,
    port: Seq<char>,
    path: Seq<char>,
)
    requires
        server.url is Some,
        scheme == "http"@ || scheme == "https"@,
        lowercase(server.url->0@) == scheme + "://"@ + host + port + path,
        host == "localhost"@ || host == "127.0.0.1"@ || has_prefix(host, "10."@) || has_prefix(
            host,
            "192.168."@,
        ),
        forall|x: int| 0 <= x < host.len() ==> host_char(#[trigger] host[x]),
        port.len() == 0 || port[0] == ':',
        forall|x: int| 0 <= x < port.len() ==> #[trigger] port[x] != '@' && port[x] != '/'
            && port[x] != '?' && port[x] != '#',
        path.len() == 0 || path[0] == '/' || path[0] == '?' || path[0] == '#',
    ensures
        forall|k: int|
            0 <= k < static_findings(server).len() ==> (#[trigger] static_findings(server)[k]).id
                != "KRYSTA-002"@,
{
    let u = lowercase(server.url->0@);
    reveal_strlit("://");
    reveal_strlit("http");
    reveal_strlit("https");
    let sl = scheme.len() as int;
    assert(u.subrange(sl, sl + 3) =~= "://"@);
    assert forall|x: int| 0 <= x < sl implies u[x] != "://"@[0] by {
        assert(u[x] == scheme[x]);
    }
    lemma_find_from_at(u, "://"@, 0, sl);
    let after = host + port + path;
    assert(after_scheme(u) =~= after);
    let hp = host + port;
    assert forall|x: int| 0 <= x < hp.len() implies !seq!['/', '?', '#'].contains(#[trigger] hp[x]) by {
        if x < host.len() {
            assert(hp[x] == host[x]);
            assert(host_char(host[x]));
        } else {
            assert(hp[x] == port[x - host.len()]);
        }
    }
    assert(after =~= hp + path);
    lemma_run_len_concat(hp, path, seq!['/', '?', '#']);
    assert(authority_of(u) =~= hp);
    assert forall|x: int| 0 <= x < hp.len() implies hp[x] != '@' by {
        if x < host.len() {
            assert(hp[x] == host[x]);
            assert(host_char(host[x]));
        } else {
            assert(hp[x] == port[x - host.len()]);
        }
    }
    lemma_no_at(hp);
    assert(host_port_of(u) =~= hp);
    assert forall|x: int| 0 <= x < host.len() implies !seq![':'].contains(#[trigger] host[x]) by {
        assert(host_char(host[x]));
    }
    if port.len() > 0 {
        assert(seq![':'][0] == port[0]);
    }
    lemma_run_len_concat(host, port, seq![':']);
    assert(host_of(u) =~= host);
    assert(local_url(u));
    reveal_strlit("KRYSTA-001");
    reveal_strlit("KRYSTA-002");
    reveal_strlit("KRYSTA-003");
    reveal_strlit("KRYSTA-004");
    let fs = static_findings(server);
    assert forall|k: int| 0 <= k < fs.len() implies (#[trigger] fs[k]).id != "KRYSTA-002"@ by {
        assert(fs[k].id == "KRYSTA-001"@ || fs[k].id == "KRYSTA-003"@ || fs[k].id == "KRYSTA-004"@);
        assert("KRYSTA-001"@[9] != "KRYSTA-002"@[9]);
        assert("KRYSTA-003"@[9] != "KRYSTA-002"@[9]);
        assert("KRYSTA-004"@[9] != "KRYSTA-002"@[9]);
    }
}

/// A server whose lowercased URL mentions none of `localhost`,
/// `127.0.0.1`, `192.168.` and `10.` is reported by the static checks as
/// exposed to the internet, quoting the URL.
pub proof fn lemma_public_urls_reported(server: McpServer)
    requires
        server.url is Some,
        !has_substring(lowercase(server.url->0@), "localhost"@),
        !has_substring(lowercase(server.url->0@), "127.0.0.1"@),
        !has_substring(lowercase(server.url->0@), "192.168."@),
        !has_substring(lowercase(server.url->0@), "10."@),
    ensures
        exists|k: int|
            0 <= k < static_findings(server).len() && (#[trigger] static_findings(server)[k]).id
                == "KRYSTA-002"@ && static_findings(server)[k].evidence == "URL: "@
                + server.url->0@,
{
    let l = lowercase(server.url->0@);
    let h = host_of(l);
    let a = lemma_host_in_url(l);
    reveal_strlit("localhost");
    reveal_strlit("127.0.0.1");
    reveal_strlit("192.168.");
    reveal_strlit("10.");
    if h == "localhost"@ {
        assert(occurs_at(l, "localhost"@, a));
    }
    if h == "127.0.0.1"@ {
        assert(occurs_at(l, "127.0.0.1"@, a));
    }
    if has_prefix(h, "10."@) {
        assert(l.subrange(a, a + 3) =~= h.subrange(0, 3));
        assert(occurs_at(l, "10."@, a));
    }
    if has_prefix(h, "192.168."@) {
        assert(l.subrange(a, a + 8) =~= h.subrange(0, 8));
        assert(occurs_at(l, "192.168."@, a));
    }
    assert(!local_url(l));
    let fs = static_findings(server);
    assert(fs[1] == exposed_finding(server.name@, server.url->0@));
}

// ------------------------------------------------------------------
// Merging
// ------------------------------------------------------------------

/// Some finding of a dynamic probe or of the source analysis confirms `cat`.
pub open spec fn confirmed(fs: Seq<FindingView>, cat: Category) -> bool {
    exists|i: int|
        0 <= i < fs.len() && (fs[i].source == FindingSource::Dynamic || fs[i].source
            == FindingSource::SourceCode) && fs[i].category == cat
}

/// A static finding that a confirmed one makes redundant: the path
/// traversal risk once path traversal is confirmed, the dangerous command
/// once command injection is confirmed.
pub open spec fn superseded(f: FindingView, has_traversal: bool, has_injection: bool) -> bool {
    f.source == FindingSource::Static && ((f.id == "KRYSTA-004"@ && has_traversal) || (f.id
        == "KRYSTA-003"@ && has_injection))
}

/// The findings that are not superseded, in order.
pub open spec fn unsuperseded(fs: Seq<FindingView>, has_traversal: bool, has_injection: bool) -> Seq<
    FindingView,
>
    decreases fs.len(),
{
    if fs.len() == 0 {
        seq![]
    } else {
        let prev = unsuperseded(fs.drop_last(), has_traversal, has_injection);
        if superseded(fs.last(), has_traversal, has_injection) {
            prev
        } else {
            prev.push(fs.last())
        }
    }
}

/// Two findings with the same identifier and title.
pub open spec fn same_key(a: FindingView, b: FindingView) -> bool {
    a.id == b.id && a.title == b.title
}

/// `fs` with every run of findings of the same identifier and title
/// reduced to its first (what `dedup_by` on those fields leaves).
pub open spec fn collapsed(fs: Seq<FindingView>) -> Seq<FindingView>
    decreases fs.len(),
{
    if fs.len() <= 1 {
        fs
    } else {
        let prev = collapsed(fs.drop_last());
        if same_key(fs.last(), fs[fs.len() - 2]) {
            prev
        } else {
            prev.push(fs.last())
        }
    }
}

/// The findings of a scan after merging: superseded static findings
/// dropped, then runs of equal identifier and title collapsed.
pub open spec fn merged(fs: Seq<FindingView>) -> Seq<FindingView> {
    collapsed(
        unsuperseded(
            fs,
            confirmed(fs, Category::PathTraversal),
            confirmed(fs, Category::CommandInjection),
        ),
    )
}

/// No two neighbours share identifier and title.
pub open spec fn no_adjacent_repeats(fs: Seq<FindingView>) -> bool {
    forall|i: int| 0 <= i < fs.len() - 1 ==> !same_key(#[trigger] fs[i], fs[i + 1])
}

proof fn lemma_unsuperseded_members(fs: Seq<FindingView>, t: bool, c: bool)
    ensures
        forall|j: int|
            0 <= j < unsuperseded(fs, t, c).len() ==> fs.contains(
                #[trigger] unsuperseded(fs, t, c)[j],
            ) && !superseded(unsuperseded(fs, t, c)[j], t, c),
    decreases fs.len(),
{
    if fs.len() > 0 {
        lemma_unsuperseded_members(fs.drop_last(), t, c);
        let prev = unsuperseded(fs.drop_last(), t, c);
        assert forall|j: int| 0 <= j < prev.len() implies fs.contains(#[trigger] prev[j]) by {
            let k = choose|k: int| 0 <= k < fs.drop_last().len() && fs.drop_last()[k] == prev[j];
            assert(fs[k] == prev[j]);
        }
        assert(fs[fs.len() - 1] == fs.last());
    }
}

proof fn lemma_unsuperseded_identity(fs: Seq<FindingView>, t: bool, c: bool)
    requires
        forall|j: int| 0 <= j < fs.len() ==> !superseded(#[trigger] fs[j], t, c),
    ensures
        unsuperseded(fs, t, c) == fs,
    decreases fs.len(),
{
    if fs.len() > 0 {
        lemma_unsuperseded_identity(fs.drop_last(), t, c);
        assert(fs.drop_last().push(fs.last()) =~= fs);
    }
}

/// What `collapsed` keeps is drawn from its input, keeps its first element
/// and its last key, and has no neighbours of the same key.
proof fn lemma_collapsed(fs: Seq<FindingView>)
    ensures
        collapsed(fs).len() <= fs.len(),
        fs.len() > 0 ==> collapsed(fs).len() > 0 && same_key(collapsed(fs).last(), fs.last())
            && collapsed(fs)[0] == fs[0],
        forall|j: int| 0 <= j < collapsed(fs).len() ==> fs.contains(#[trigger] collapsed(fs)[j]),
        no_adjacent_repeats(collapsed(fs)),
    decreases fs.len(),
{
    if fs.len() > 1 {
        let prev = collapsed(fs.drop_last());
        lemma_collapsed(fs.drop_last());
        assert(fs.drop_last().last() == fs[fs.len() - 2]);
        assert forall|j: int| 0 <= j < prev.len() implies fs.contains(#[trigger] prev[j]) by {
            let k = choose|k: int| 0 <= k < fs.drop_last().len() && fs.drop_last()[k] == prev[j];
            assert(fs[k] == prev[j]);
        }
        if !same_key(fs.last(), fs[fs.len() - 2]) {
            let cur = prev.push(fs.last());
            assert(fs[fs.len() - 1] == fs.last());
            assert forall|i: int| 0 <= i < cur.len() - 1 implies !same_key(
                #[trigger] cur[i],
                cur[i + 1],
            ) by {
                if i < prev.len() - 1 {
                    assert(cur[i] == prev[i] && cur[i + 1] == prev[i + 1]);
                } else {
                    assert(cur[i] == prev.last());
                }
            }
        } else {
            assert(same_key(prev.last(), fs.last()));
        }
    } else if fs.len() == 1 {
        assert(fs[0] == fs.last());
    }
}

/// Collapsing a sequence without neighbouring repeats leaves it as it is.
proof fn lemma_collapsed_identity(fs: Seq<FindingView>)
    requires
        no_adjacent_repeats(fs),
    ensures
        collapsed(fs) == fs,
    decreases fs.len(),
{
    if fs.len() > 1 {
        let init = fs.drop_last();
        assert forall|i: int| 0 <= i < init.len() - 1 implies !same_key(
            #[trigger] init[i],
            init[i + 1],
        ) by {
            assert(init[i] == fs[i] && init[i + 1] == fs[i + 1]);
        }
        lemma_collapsed_identity(init);
        assert(!same_key(fs[fs.len() - 2], fs[fs.len() - 1]));
        assert(init.push(fs.last()) =~= fs);
    }
}

/// Merging keeps only findings of its input, and never two neighbours with
/// the same identifier and title.
pub proof fn lemma_merge_shape(fs: Seq<FindingView>)
    ensures
        no_adjacent_repeats(merged(fs)),
        merged(fs).len() <= fs.len(),
        forall|j: int| 0 <= j < merged(fs).len() ==> fs.contains(#[trigger] merged(fs)[j]),
{
    let t = confirmed(fs, Category::PathTraversal);
    let c = confirmed(fs, Category::CommandInjection);
    let u = unsuperseded(fs, t, c);
    lemma_unsuperseded_members(fs, t, c);
    lemma_unsuperseded_len(fs, t, c);
    lemma_collapsed(u);
    assert forall|j: int| 0 <= j < merged(fs).len() implies fs.contains(#[trigger] merged(fs)[j]) by {
        let k = choose|k: int| 0 <= k < u.len() && u[k] == merged(fs)[j];
        assert(u.contains(u[k]));
        assert(fs.contains(#[trigger] u[k]));
    }
}

proof fn lemma_unsuperseded_len(fs: Seq<FindingView>, t: bool, c: bool)
    ensures
        unsuperseded(fs, t, c).len() <= fs.len(),
    decreases fs.len(),
{
    if fs.len() > 0 {
        lemma_unsuperseded_len(fs.drop_last(), t, c);
    }
}

/// Once a dynamic probe or the source analysis confirms path traversal
/// (command injection), no static path traversal risk (dangerous command)
/// finding is left after merging.
pub proof fn lemma_merge_drops_superseded(fs: Seq<FindingView>)
    ensures
        confirmed(fs, Category::PathTraversal) ==> forall|j: int|
            0 <= j < merged(fs).len() ==> !(#[trigger] merged(fs)[j].source
                == FindingSource::Static && merged(fs)[j].id == "KRYSTA-004"@),
        confirmed(fs, Category::CommandInjection) ==> forall|j: int|
            0 <= j < merged(fs).len() ==> !(#[trigger] merged(fs)[j].source
                == FindingSource::Static && merged(fs)[j].id == "KRYSTA-003"@),
{
    let t = confirmed(fs, Category::PathTraversal);
    let c = confirmed(fs, Category::CommandInjection);
    let u = unsuperseded(fs, t, c);
    lemma_unsuperseded_members(fs, t, c);
    lemma_collapsed(u);
    assert forall|j: int| 0 <= j < merged(fs).len() implies !superseded(
        #[trigger] merged(fs)[j],
        t,
        c,
    ) by {
        let k = choose|k: int| 0 <= k < u.len() && u[k] == merged(fs)[j];
        assert(!superseded(u[k], t, c));
    }
}

proof fn lemma_unsuperseded_covers(fs: Seq<FindingView>, t: bool, c: bool)
    ensures
        forall|j: int|
            0 <= j < fs.len() && !superseded(#[trigger] fs[j], t, c) ==> unsuperseded(
                fs,
                t,
                c,
            ).contains(fs[j]),
    decreases fs.len(),
{
    if fs.len() > 0 {
        let init = fs.drop_last();
        lemma_unsuperseded_covers(init, t, c);
        let prev = unsuperseded(init, t, c);
        let cur = unsuperseded(fs, t, c);
        assert forall|j: int| 0 <= j < fs.len() && !superseded(#[trigger] fs[j], t, c) implies cur.contains(
            fs[j],
        ) by {
            if j < fs.len() - 1 {
                assert(init[j] == fs[j]);
                assert(prev.contains(init[j]));
                let k = choose|k: int| 0 <= k < prev.len() && prev[k] == init[j];
                if !superseded(fs.last(), t, c) {
                    assert(cur[k] == prev[k]);
                }
                assert(cur[k] == fs[j]);
            } else {
                assert(fs[j] == fs.last());
                assert(cur[prev.len() as int] == fs.last());
            }
        }
    }
}

/// Some finding of `out` has the identifier and title of `f`.
pub open spec fn keeps_key(out: Seq<FindingView>, f: FindingView) -> bool {
    exists|k: int| 0 <= k < out.len() && same_key(out[k], f)
}

proof fn lemma_collapsed_covers(fs: Seq<FindingView>)
    ensures
        forall|j: int| 0 <= j < fs.len() ==> keeps_key(collapsed(fs), #[trigger] fs[j]),
    decreases fs.len(),
{
    if fs.len() > 1 {
        let init = fs.drop_last();
        lemma_collapsed_covers(init);
        let prev = collapsed(init);
        assert forall|j: int| 0 <= j < fs.len() implies keeps_key(collapsed(fs), #[trigger] fs[j]) by {
            let jj = if j < fs.len() - 1 {
                j
            } else {
                fs.len() - 2
            };
            assert(init[jj] == fs[jj]);
            assert(keeps_key(prev, init[jj]));
            let k = choose|k: int| 0 <= k < prev.len() && same_key(prev[k], init[jj]);
            if j < fs.len() - 1 {
                if !same_key(fs.last(), fs[fs.len() - 2]) {
                    assert(collapsed(fs)[k] == prev[k]);
                }
                assert(same_key(collapsed(fs)[k], fs[j]));
            } else if same_key(fs.last(), fs[fs.len() - 2]) {
                assert(fs[j] == fs.last());
                assert(same_key(collapsed(fs)[k], fs[j]));
            } else {
                assert(fs[j] == fs.last());
                assert(collapsed(fs)[prev.len() as int] == fs.last());
                assert(same_key(collapsed(fs)[prev.len() as int], fs[j]));
            }
        }
    } else {
        assert forall|j: int| 0 <= j < fs.len() implies keeps_key(collapsed(fs), #[trigger] fs[j]) by {
            assert(same_key(collapsed(fs)[j], fs[j]));
        }
    }
}

/// Merging loses nothing else: every finding that is not superseded has
/// one with the same identifier and title in the merged findings.
pub proof fn lemma_merge_keeps_the_rest(fs: Seq<FindingView>)
    ensures
        forall|j: int|
            0 <= j < fs.len() && !superseded(
                #[trigger] fs[j],
                confirmed(fs, Category::PathTraversal),
                confirmed(fs, Category::CommandInjection),
            ) ==> keeps_key(merged(fs), fs[j]),
{
    let t = confirmed(fs, Category::PathTraversal);
    let c = confirmed(fs, Category::CommandInjection);
    let u = unsuperseded(fs, t, c);
    lemma_unsuperseded_covers(fs, t, c);
    lemma_collapsed_covers(u);
    assert forall|j: int| 0 <= j < fs.len() && !superseded(#[trigger] fs[j], t, c) implies keeps_key(
        merged(fs),
        fs[j],
    ) by {
        assert(u.contains(fs[j]));
        let i = choose|i: int| 0 <= i < u.len() && u[i] == fs[j];
        assert(keeps_key(collapsed(u), u[i]));
        let k = choose|k: int| 0 <= k < collapsed(u).len() && same_key(collapsed(u)[k], u[i]);
        assert(same_key(merged(fs)[k], fs[j]));
    }
}

/// `idx` picks the elements of `a` out of `b`, in order: `a[i]` is
/// `b[idx[i]]` and the positions increase.
pub open spec fn embeds(a: Seq<FindingView>, b: Seq<FindingView>, idx: Seq<int>) -> bool {
    &&& idx.len() == a.len()
    &&& forall|i: int| 0 <= i < idx.len() ==> 0 <= #[trigger] idx[i] < b.len() && a[i] == b[idx[i]]
    &&& forall|i: int, j: int| 0 <= i < j < idx.len() ==> #[trigger] idx[i] < #[trigger] idx[j]
}

/// `a` is `b` with some elements left out, the rest in their order.
pub open spec fn is_subsequence(a: Seq<FindingView>, b: Seq<FindingView>) -> bool {
    exists|idx: Seq<int>| embeds(a, b, idx)
}

proof fn lemma_unsuperseded_embeds(fs: Seq<FindingView>, t: bool, c: bool) -> (idx: Seq<int>)
    ensures
        embeds(unsuperseded(fs, t, c), fs, idx),
    decreases fs.len(),
{
    if fs.len() == 0 {
        Seq::empty()
    } else {
        let init = fs.drop_last();
        let prev = lemma_unsuperseded_embeds(init, t, c);
        assert forall|i: int| 0 <= i < prev.len() implies 0 <= #[trigger] prev[i] < fs.len()
            && unsuperseded(init, t, c)[i] == fs[prev[i]] by {
            assert(init[prev[i]] == fs[prev[i]]);
        }
        if superseded(fs.last(), t, c) {
            prev
        } else {
            let idx = prev.push(fs.len() - 1);
            let u = unsuperseded(fs, t, c);
            assert forall|i: int| 0 <= i < idx.len() implies 0 <= #[trigger] idx[i] < fs.len()
                && u[i] == fs[idx[i]] by {
                if i < prev.len() {
                    assert(idx[i] == prev[i]);
                    assert(u[i] == unsuperseded(init, t, c)[i]);
                }
            }
            assert forall|i: int, j: int| 0 <= i < j < idx.len() implies #[trigger] idx[i]
                < #[trigger] idx[j] by {
                if j == prev.len() {
                    assert(idx[i] == prev[i]);
                } else {
                    assert(idx[i] == prev[i] && idx[j] == prev[j]);
                }
            }
            idx
        }
    }
}

proof fn lemma_collapsed_embeds(fs: Seq<FindingView>) -> (idx: Seq<int>)
    ensures
        embeds(collapsed(fs), fs, idx),
    decreases fs.len(),
{
    if fs.len() <= 1 {
        Seq::new(fs.len(), |i: int| i)
    } else {
        let init = fs.drop_last();
        let prev = lemma_collapsed_embeds(init);
        assert forall|i: int| 0 <= i < prev.len() implies 0 <= #[trigger] prev[i] < fs.len()
            && collapsed(init)[i] == fs[prev[i]] by {
            assert(init[prev[i]] == fs[prev[i]]);
        }
        if same_key(fs.last(), fs[fs.len() - 2]) {
            prev
        } else {
            let idx = prev.push(fs.len() - 1);
            let k = collapsed(fs);
            assert forall|i: int| 0 <= i < idx.len() implies 0 <= #[trigger] idx[i] < fs.len()
                && k[i] == fs[idx[i]] by {
                if i < prev.len() {
                    assert(idx[i] == prev[i]);
                    assert(k[i] == collapsed(init)[i]);
                }
            }
            assert forall|i: int, j: int| 0 <= i < j < idx.len() implies #[trigger] idx[i]
                < #[trigger] idx[j] by {
                if j == prev.len() {
                    assert(idx[i] == prev[i]);
                } else {
                    assert(idx[i] == prev[i] && idx[j] == prev[j]);
                }
            }
            idx
        }
    }
}

/// Merging keeps the order of what it keeps: the merged findings are the
/// input with some findings left out.
pub proof fn lemma_merge_is_subsequence(fs: Seq<FindingView>)
    ensures
        is_subsequence(merged(fs), fs),
{
    let t = confirmed(fs, Category::PathTraversal);
    let c = confirmed(fs, Category::CommandInjection);
    let u = unsuperseded(fs, t, c);
    let i1 = lemma_unsuperseded_embeds(fs, t, c);
    let i2 = lemma_collapsed_embeds(u);
    let m = merged(fs);
    let idx = Seq::new(i2.len(), |k: int| i1[i2[k]]);
    assert forall|k: int| 0 <= k < idx.len() implies 0 <= #[trigger] idx[k] < fs.len() && m[k]
        == fs[idx[k]] by {
        assert(0 <= i2[k] < u.len());
        assert(0 <= i1[i2[k]] < fs.len());
    }
    assert forall|a: int, b: int| 0 <= a < b < idx.len() implies #[trigger] idx[a]
        < #[trigger] idx[b] by {
        assert(i2[a] < i2[b]);
        assert(i1[i2[a]] < i1[i2[b]]);
    }
    assert(embeds(m, fs, idx));
}

/// Merging twice is merging once.
pub proof fn lemma_merge_idempotent(fs: Seq<FindingView>)
    ensures
        merged(merged(fs)) == merged(fs),
{
    let t = confirmed(fs, Category::PathTraversal);
    let c = confirmed(fs, Category::CommandInjection);
    let u = unsuperseded(fs, t, c);
    let m = merged(fs);
    lemma_unsuperseded_members(fs, t, c);
    lemma_collapsed(u);
    let t2 = confirmed(m, Category::PathTraversal);
    let c2 = confirmed(m, Category::CommandInjection);
    // What merging kept is drawn from the input, so it confirms no more.
    assert(t2 ==> t) by {
        if t2 {
            let i = choose|i: int|
                0 <= i < m.len() && (m[i].source == FindingSource::Dynamic || m[i].source
                    == FindingSource::SourceCode) && m[i].category == Category::PathTraversal;
            assert(m.contains(m[i]));
            let k = choose|k: int| 0 <= k < u.len() && u[k] == m[i];
            assert(u.contains(u[k]));
            let l = choose|l: int| 0 <= l < fs.len() && fs[l] == u[k];
        }
    }
    assert(c2 ==> c) by {
        if c2 {
            let i = choose|i: int|
                0 <= i < m.len() && (m[i].source == FindingSource::Dynamic || m[i].source
                    == FindingSource::SourceCode) && m[i].category == Category::CommandInjection;
            let k = choose|k: int| 0 <= k < u.len() && u[k] == m[i];
            let l = choose|l: int| 0 <= l < fs.len() && fs[l] == u[k];
        }
    }
    assert forall|j: int| 0 <= j < m.len() implies !superseded(#[trigger] m[j], t2, c2) by {
        let k = choose|k: int| 0 <= k < u.len() && u[k] == m[j];
        assert(!superseded(u[k], t, c));
    }
    lemma_unsuperseded_identity(m, t2, c2);
    lemma_collapsed_identity(m);
}

// ------------------------------------------------------------------
// Executable checks
// ------------------------------------------------------------------

/// The text `a` followed by `b`.
fn concat_str(a: &str, b: &str) -> (s: String)
    ensures
        s@ == a@ + b@,
{
    let mut s = a.to_owned();
    s.append(b);
    s
}

/// Whether two findings have the same identifier and title.
fn same_key_exec(a: &Finding, b: &Finding) -> (r: bool)
    ensures
        r == same_key(a@, b@),
{
    a.id == b.id && a.title == b.title
}

/// Moves the findings of `from` to the end of `to`.
pub fn append_findings(to: &mut Vec<Finding>, from: Vec<Finding>)
    ensures
        finding_views(final(to)@) == finding_views(old(to)@) + finding_views(from@),
{
    let mut from = from;
    let ghost before = to@;
    let ghost items = from@;
    to.append(&mut from);
    assert(to@ == before + items);
    assert(finding_views(to@) =~= finding_views(before) + finding_views(items));
}

impl Scanner {
    /// The vulnerabilities that the scanner checks tools against.
    pub closed spec fn database(&self) -> Seq<VulnerabilityView> {
        self.vuln_db@
    }

    /// A scanner with the built-in vulnerability database.
    pub fn new() -> (s: Self)
        ensures
            s.database() == default_vulnerabilities(),
    {
        Scanner { vuln_db: VulnDb::new() }
    }

    /// The checks made on a server declaration alone.
    pub fn static_checks(&self, server: &McpServer) -> (r: Vec<Finding>)
        ensures
            finding_views(r@) == static_findings(*server),
    {
        let name = server.name.as_str();
        let mut findings: Vec<Finding> = Vec::new();
        findings.push(
            Finding {
                id: "KRYSTA-001".to_owned(),
                title: concat_str(name, " — Missing authentication"),
                severity: Severity::High,
                category: Category::Authentication,
                description: "MCP server has no authentication configured. Any process can connect.".to_owned(),
                evidence: "No auth token or credentials found in config".to_owned(),
                remediation: "Add API key or OAuth2 authentication to the MCP server.".to_owned(),
                source: FindingSource::Static,
            },
        );
        let ghost a = finding_views(findings@);
        assert(a =~= seq![missing_auth_finding(server.name@)]);
        if let Some(url) = &server.url {
            let lower = str_to_lowercase(url.as_str());
            let lv = chars_of(lower.as_str());
            if !is_local_url(lv.as_slice()) {
                findings.push(
                    Finding {
                        id: "KRYSTA-002".to_owned(),
                        title: concat_str(name, " — Exposed to internet"),
                        severity: Severity::Critical,
                        category: Category::NetworkExposure,
                        description: "MCP server is accessible from the public internet.".to_owned(),
                        evidence: concat_str("URL: ", url.as_str()),
                        remediation: "Bind to localhost (127.0.0.1) or add IP allowlist.".to_owned(),
                        source: FindingSource::Static,
                    },
                );
                assert(finding_views(findings@) =~= a.push(exposed_finding(server.name@, url@)));
            } else {
                assert(finding_views(findings@) =~= a);
            }
        }
        let ghost b = finding_views(findings@);
        if let Some(cmd) = &server.command {
            let cv = chars_of(cmd.as_str());
            if contains_str(cv.as_slice(), "rm") || contains_str(cv.as_slice(), "curl")
                || contains_str(cv.as_slice(), "wget") || contains_str(cv.as_slice(), "bash")
                || contains_str(cv.as_slice(), "sh") || contains_str(cv.as_slice(), "python")
                || contains_str(cv.as_slice(), "node") {
                findings.push(
                    Finding {
                        id: "KRYSTA-003".to_owned(),
                        title: concat_str(name, " — Potentially dangerous command"),
                        severity: Severity::High,
                        category: Category::CommandInjection,
                        description: "MCP server command contains potentially dangerous patterns.".to_owned(),
                        evidence: concat_str("Command: ", cmd.as_str()),
                        remediation: "Review command arguments. Avoid shell execution with user input.".to_owned(),
                        source: FindingSource::Static,
                    },
                );
                assert(finding_views(findings@) =~= b.push(dangerous_command_finding(server.name@, cmd@)));
            }
        }
        let ghost c = finding_views(findings@);
        if str_contains(name, "file") || str_contains(name, "fs") {
            findings.push(
                Finding {
                    id: "KRYSTA-004".to_owned(),
                    title: concat_str(name, " — Potential path traversal risk"),
                    severity: Severity::Medium,
                    category: Category::PathTraversal,
                    description: "File system MCP servers often have path traversal vulnerabilities.".to_owned(),
                    evidence: "Server name suggests file system access".to_owned(),
                    remediation: "Validate all paths against an allowlist. Block ../ sequences.".to_owned(),
                    source: FindingSource::Static,
                },
            );
            assert(finding_views(findings@) =~= c.push(path_risk_finding(server.name@)));
        }
        findings
    }

    /// Merges the findings of a scan: drops the static path traversal risk
    /// when path traversal is confirmed and the static dangerous command
    /// when command injection is confirmed, then collapses runs of findings
    /// with the same identifier and title to their first.
    pub fn merge_findings(&self, findings: Vec<Finding>) -> (r: Vec<Finding>)
        ensures
            finding_views(r@) == merged(finding_views(findings@)),
    {
        let ghost fv = finding_views(findings@);
        let n = findings.len();
        // Which categories dynamic probes or the source analysis confirmed.
        let mut has_traversal = false;
        let mut has_injection = false;
        for i in 0..n
            invariant
                n == findings@.len(),
                fv == finding_views(findings@),
                has_traversal <==> exists|j: int|
                    0 <= j < i && (fv[j].source == FindingSource::Dynamic || fv[j].source
                        == FindingSource::SourceCode) && fv[j].category == Category::PathTraversal,
                has_injection <==> exists|j: int|
                    0 <= j < i && (fv[j].source == FindingSource::Dynamic || fv[j].source
                        == FindingSource::SourceCode) && fv[j].category
                        == Category::CommandInjection,
        {
            let f = &findings[i];
            let confirmed_source = f.source == FindingSource::Dynamic || f.source
                == FindingSource::SourceCode;
            assert(fv[i as int] == f@);
            if confirmed_source && f.category == Category::PathTraversal {
                has_traversal = true;
            }
            if confirmed_source && f.category == Category::CommandInjection {
                has_injection = true;
            }
        }
        assert(has_traversal == confirmed(fv, Category::PathTraversal));
        assert(has_injection == confirmed(fv, Category::CommandInjection));
        // Drop the superseded static findings, keeping the order.
        let mut kept: Vec<Finding> = Vec::new();
        let mut rest = findings;
        // Walk the findings in order by reversing once.
        let mut queue: Vec<Finding> = Vec::new();
        while rest.len() > 0
            invariant
                fv == finding_views(rest@) + finding_views(queue@.reverse()),
            decreases rest.len(),
        {
            let ghost before_q = queue@;
            let ghost before_r = rest@;
            let f = rest.pop().unwrap();
            proof {
                assert(before_r == rest@.push(f));
            }
            queue.push(f);
            proof {
                assert(queue@.reverse() =~= seq![f].add(before_q.reverse()));
                assert(finding_views(before_r) =~= finding_views(rest@).push(f@));
                assert(finding_views(queue@.reverse()) =~= seq![f@] + finding_views(before_q.reverse()));
                assert(fv =~= finding_views(rest@) + finding_views(queue@.reverse()));
            }
        }
        // queue holds the findings last first.
        assert(rest@.len() == 0);
        assert(finding_views(rest@) =~= Seq::<FindingView>::empty());
        assert(fv =~= finding_views(queue@.reverse()));
        let ghost tk = has_traversal;
        let ghost ci = has_injection;
        let mut idx: usize = 0;
        let total = queue.len();
        while queue.len() > 0
            invariant
                total == fv.len(),
                idx + queue@.len() == total,
                fv.take(idx as int) + finding_views(queue@.reverse()) == fv,
                finding_views(kept@) == unsuperseded(fv.take(idx as int), tk, ci),
                tk == has_traversal,
                ci == has_injection,
            decreases queue.len(),
        {
            let ghost before_q = queue@;
            let f = queue.pop().unwrap();
            proof {
                assert(before_q == queue@.push(f));
                assert(before_q.reverse() =~= seq![f] + queue@.reverse());
                assert(finding_views(before_q.reverse()) =~= seq![f@] + finding_views(queue@.reverse()));
                assert(fv[idx as int] == f@) by {
                    assert((fv.take(idx as int) + finding_views(before_q.reverse()))[idx as int] == f@);
                }
                assert(fv.take(idx + 1) =~= fv.take(idx as int).push(f@));
                assert(fv.take(idx + 1).drop_last() =~= fv.take(idx as int));
            }
            let drop = f.source == FindingSource::Static && ((str_equals(f.id.as_str(), "KRYSTA-004")
                && has_traversal) || (str_equals(f.id.as_str(), "KRYSTA-003") && has_injection));
            if !drop {
                let ghost before_k = kept@;
                kept.push(f);
                assert(finding_views(kept@) =~= finding_views(before_k).push(f@));
            }
            idx = idx + 1;
            proof {
                assert(fv.take(idx as int) + finding_views(queue@.reverse()) =~= fv);
            }
        }
        assert(fv.take(total as int) =~= fv);
        // Collapse runs of equal identifier and title.
        collapse_runs(kept)
    }
}

/// `fs` with runs of equal identifier and title collapsed to their first.
fn collapse_runs(fs: Vec<Finding>) -> (r: Vec<Finding>)
    ensures
        finding_views(r@) == collapsed(finding_views(fs@)),
{
    let ghost fv = finding_views(fs@);
    let mut out: Vec<Finding> = Vec::new();
    let mut i: usize = 0;
    let mut rest = fs;
    let mut queue: Vec<Finding> = Vec::new();
    while rest.len() > 0
        invariant
            fv == finding_views(rest@) + finding_views(queue@.reverse()),
        decreases rest.len(),
    {
        let ghost before_q = queue@;
        let ghost before_r = rest@;
        let f = rest.pop().unwrap();
        proof {
            assert(before_r == rest@.push(f));
        }
        queue.push(f);
        proof {
            assert(queue@.reverse() =~= seq![f].add(before_q.reverse()));
            assert(finding_views(before_r) =~= finding_views(rest@).push(f@));
            assert(finding_views(queue@.reverse()) =~= seq![f@] + finding_views(before_q.reverse()));
            assert(fv =~= finding_views(rest@) + finding_views(queue@.reverse()));
        }
    }
    assert(finding_views(rest@) =~= Seq::<FindingView>::empty());
    assert(fv =~= finding_views(queue@.reverse()));
    let total = queue.len();
    while queue.len() > 0
        invariant
            total == fv.len(),
            i + queue@.len() == total,
            fv.take(i as int) + finding_views(queue@.reverse()) == fv,
            finding_views(out@) == collapsed(fv.take(i as int)),
            i > 0 ==> out@.len() > 0 && same_key(out@.last()@, fv[i - 1]),
        decreases queue.len(),
    {
        let ghost before_q = queue@;
        let f = queue.pop().unwrap();
        proof {
            assert(before_q == queue@.push(f));
            assert(before_q.reverse() =~= seq![f] + queue@.reverse());
            assert(finding_views(before_q.reverse()) =~= seq![f@] + finding_views(queue@.reverse()));
            assert(fv[i as int] == f@) by {
                assert((fv.take(i as int) + finding_views(before_q.reverse()))[i as int] == f@);
            }
            assert(fv.take(i + 1) =~= fv.take(i as int).push(f@));
            assert(fv.take(i + 1).drop_last() =~= fv.take(i as int));
            lemma_collapsed(fv.take(i as int));
            if i > 0 {
                assert(fv.take(i + 1)[i - 1] == fv[i - 1]);
                assert(out@.last()@ == finding_views(out@).last());
            }
        }
        let repeat = if out.len() > 0 {
            let last = out.len() - 1;
            same_key_exec(&f, &out[last])
        } else {
            false
        };
        if !repeat {
            let ghost before_o = out@;
            out.push(f);
            assert(finding_views(out@) =~= finding_views(before_o).push(f@));
        }
        i = i + 1;
        proof {
            assert(fv.take(i as int) + finding_views(queue@.reverse()) =~= fv);
        }
    }
    assert(fv.take(total as int) =~= fv);
    out
}


// ------------------------------------------------------------------
// Tools checked against the vulnerability database
// ------------------------------------------------------------------

/// What a tool is checked on: its name, description and schema, spaced.
pub open spec fn tool_context_text(t: Tool) -> Seq<char> {
    t.name@ + " "@ + t.description@ + " "@ + t.schema_text@
}

/// The evidence quoting a tool.
pub open spec fn tool_evidence(t: Tool) -> Seq<char> {
    "Tool: "@ + t.name@ + " | Schema: "@ + t.schema_text@ + " | Desc: "@ + t.description@
}

/// The finding that vulnerability `v` applies to tool `t` of the server named `name`.
pub open spec fn vulnerability_finding(name: Seq<char>, t: Tool, v: VulnerabilityView) -> FindingView {
    FindingView {
        id: v.id,
        title: name + " — "@ + v.title,
        severity: severity_of(v.severity),
        category: category_of(v.category),
        description: v.description,
        evidence: tool_evidence(t),
        remediation: v.remediation,
        source: FindingSource::Dynamic,
    }
}

/// The two vulnerabilities about exposed SSE endpoints, which do not
/// concern a stdio server.
pub open spec fn excluded_for(v: VulnerabilityView, transport: TransportType) -> bool {
    (v.id == "CVE-2026-MCP-009"@ || v.id == "CVE-2026-MCP-010"@) && transport
        == TransportType::Stdio
}

/// Reporting the vulnerabilities `vs` that apply to tool `t`, given the
/// identifiers already reported: each is reported once per scan.
pub open spec fn report_matches(
    server: McpServer,
    t: Tool,
    vs: Seq<VulnerabilityView>,
    reported: Seq<Seq<char>>,
) -> (Seq<FindingView>, Seq<Seq<char>>)
    decreases vs.len(),
{
    if vs.len() == 0 {
        (seq![], reported)
    } else {
        let (fs, rep) = report_matches(server, t, vs.drop_last(), reported);
        let v = vs.last();
        if excluded_for(v, server.transport) || rep.contains(v.id) {
            (fs, rep)
        } else {
            (fs.push(vulnerability_finding(server.name@, t, v)), rep.push(v.id))
        }
    }
}

/// Checking the tools of a server against the database `db`, in order:
/// the findings and the identifiers reported.
pub open spec fn tool_scan(db: Seq<VulnerabilityView>, server: McpServer, tools: Seq<Tool>) -> (
    Seq<FindingView>,
    Seq<Seq<char>>,
)
    decreases tools.len(),
{
    if tools.len() == 0 {
        (seq![], seq![])
    } else {
        let (fs, rep) = tool_scan(db, server, tools.drop_last());
        let t = tools.last();
        let (nf, nrep) = report_matches(
            server,
            t,
            applicable(db, t.name@, tool_context_text(t)),
            rep,
        );
        (fs + nf, nrep)
    }
}

/// The identifiers of findings.
pub open spec fn finding_ids(fs: Seq<FindingView>) -> Seq<Seq<char>> {
    Seq::new(fs.len(), |i: int| fs[i].id)
}

proof fn lemma_report_matches(
    server: McpServer,
    t: Tool,
    vs: Seq<VulnerabilityView>,
    reported: Seq<Seq<char>>,
)
    requires
        reported.no_duplicates(),
    ensures
        report_matches(server, t, vs, reported).1 == reported + finding_ids(
            report_matches(server, t, vs, reported).0,
        ),
        report_matches(server, t, vs, reported).1.no_duplicates(),
        forall|j: int|
            0 <= j < report_matches(server, t, vs, reported).0.len() ==> !(server.transport
                == TransportType::Stdio && (#[trigger] report_matches(
                server,
                t,
                vs,
                reported,
            ).0[j].id == "CVE-2026-MCP-009"@ || report_matches(server, t, vs, reported).0[j].id
                == "CVE-2026-MCP-010"@)),
    decreases vs.len(),
{
    if vs.len() > 0 {
        lemma_report_matches(server, t, vs.drop_last(), reported);
        let (fs, rep) = report_matches(server, t, vs.drop_last(), reported);
        let v = vs.last();
        if !(excluded_for(v, server.transport) || rep.contains(v.id)) {
            let f = vulnerability_finding(server.name@, t, v);
            assert(finding_ids(fs.push(f)) =~= finding_ids(fs).push(v.id));
            assert(rep.push(v.id) =~= reported + finding_ids(fs.push(f)));
            assert forall|a: int, b: int|
                0 <= a < rep.push(v.id).len() && 0 <= b < rep.push(v.id).len() && a != b implies rep.push(
                v.id,
            )[a] != rep.push(v.id)[b] by {
                if a == rep.len() {
                    assert(rep[b] != v.id);
                } else if b == rep.len() {
                    assert(rep[a] != v.id);
                }
            }
        }
    } else {
        assert(reported + finding_ids(Seq::<FindingView>::empty()) =~= reported);
    }
}

/// Checking tools reports each vulnerability at most once per scan, and
/// never an exposed-SSE vulnerability for a stdio server.
pub proof fn lemma_tool_scan_reports_once(
    db: Seq<VulnerabilityView>,
    server: McpServer,
    tools: Seq<Tool>,
)
    ensures
        finding_ids(tool_scan(db, server, tools).0).no_duplicates(),
        forall|j: int|
            0 <= j < tool_scan(db, server, tools).0.len() ==> !(server.transport
                == TransportType::Stdio && (#[trigger] tool_scan(db, server, tools).0[j].id
                == "CVE-2026-MCP-009"@ || tool_scan(db, server, tools).0[j].id
                == "CVE-2026-MCP-010"@)),
        tool_scan(db, server, tools).1 == finding_ids(tool_scan(db, server, tools).0),
    decreases tools.len(),
{
    if tools.len() == 0 {
        assert(finding_ids(Seq::<FindingView>::empty()) =~= Seq::<Seq<char>>::empty());
    } else {
        lemma_tool_scan_reports_once(db, server, tools.drop_last());
        let (fs, rep) = tool_scan(db, server, tools.drop_last());
        let t = tools.last();
        let vs = applicable(db, t.name@, tool_context_text(t));
        lemma_report_matches(server, t, vs, rep);
        let (nf, nrep) = report_matches(server, t, vs, rep);
        assert(finding_ids(fs + nf) =~= finding_ids(fs) + finding_ids(nf));
        assert forall|j: int| 0 <= j < (fs + nf).len() implies !(server.transport
            == TransportType::Stdio && (#[trigger] (fs + nf)[j].id == "CVE-2026-MCP-009"@ || (fs
            + nf)[j].id == "CVE-2026-MCP-010"@)) by {
            if j < fs.len() {
                assert((fs + nf)[j] == fs[j]);
            } else {
                assert((fs + nf)[j] == nf[j - fs.len()]);
            }
        }
    }
}

proof fn lemma_report_matches_has(
    server: McpServer,
    t: Tool,
    vs: Seq<VulnerabilityView>,
    reported: Seq<Seq<char>>,
)
    ensures
        forall|x: Seq<char>|
            reported.contains(x) ==> #[trigger] report_matches(server, t, vs, reported).1.contains(
                x,
            ),
        forall|v: VulnerabilityView|
            vs.contains(v) && !excluded_for(v, server.transport) ==> #[trigger] report_matches(
                server,
                t,
                vs,
                reported,
            ).1.contains(v.id),
    decreases vs.len(),
{
    if vs.len() > 0 {
        lemma_report_matches_has(server, t, vs.drop_last(), reported);
        let (fs, rep) = report_matches(server, t, vs.drop_last(), reported);
        let last = vs.last();
        let res = report_matches(server, t, vs, reported).1;
        assert forall|x: Seq<char>| rep.contains(x) implies res.contains(x) by {
            if !(excluded_for(last, server.transport) || rep.contains(last.id)) {
                let i = choose|i: int| 0 <= i < rep.len() && rep[i] == x;
                assert(rep.push(last.id)[i] == x);
            }
        }
        assert forall|v: VulnerabilityView|
            vs.contains(v) && !excluded_for(v, server.transport) implies res.contains(v.id) by {
            let i = choose|i: int| 0 <= i < vs.len() && vs[i] == v;
            if i < vs.len() - 1 {
                assert(vs.drop_last()[i] == v);
                assert(vs.drop_last().contains(v));
                assert(rep.contains(v.id));
            } else {
                assert(v == last);
                if !rep.contains(v.id) {
                    assert(rep.push(v.id)[rep.len() as int] == v.id);
                }
            }
        }
    }
}

proof fn lemma_tool_scan_has(
    db: Seq<VulnerabilityView>,
    server: McpServer,
    tools: Seq<Tool>,
    i: int,
    v: VulnerabilityView,
)
    requires
        0 <= i < tools.len(),
        applicable(db, tools[i].name@, tool_context_text(tools[i])).contains(v),
        !excluded_for(v, server.transport),
    ensures
        tool_scan(db, server, tools).1.contains(v.id),
    decreases tools.len(),
{
    let (fs, rep) = tool_scan(db, server, tools.drop_last());
    let t = tools.last();
    let vs = applicable(db, t.name@, tool_context_text(t));
    lemma_report_matches_has(server, t, vs, rep);
    if i == tools.len() - 1 {
        assert(t == tools[i]);
    } else {
        assert(tools.drop_last()[i] == tools[i]);
        lemma_tool_scan_has(db, server, tools.drop_last(), i, v);
    }
}

/// Checking a server's tools reports every vulnerability of the database
/// that applies to one of them: whose affected tools include `*` or a name
/// contained (case-insensitively) in the tool's name, and whose evidence
/// pattern matches the tool's name, description and schema, spaced. Only
/// the exposed-SSE entries are left out for stdio servers.
pub proof fn lemma_tool_scan_complete(
    db: Seq<VulnerabilityView>,
    server: McpServer,
    tools: Seq<Tool>,
    i: int,
    j: int,
)
    requires
        0 <= i < tools.len(),
        0 <= j < db.len(),
        exists|a: int|
            0 <= a < db[j].affected_tools.len() && (db[j].affected_tools[a] == "*"@
                || has_substring(lowercase(tools[i].name@), lowercase(db[j].affected_tools[a]))),
        regex_compiles(db[j].evidence_pattern),
        regex_finds(
            db[j].evidence_pattern,
            tools[i].name@ + " "@ + tools[i].description@ + " "@ + tools[i].schema_text@,
        ),
        !(server.transport == TransportType::Stdio && (db[j].id == "CVE-2026-MCP-009"@ || db[j].id
            == "CVE-2026-MCP-010"@)),
    ensures
        exists|k: int|
            0 <= k < tool_scan(db, server, tools).0.len() && (#[trigger] tool_scan(
                db,
                server,
                tools,
            ).0[k]).id == db[j].id,
{
    let t = tools[i];
    vuln_db::lemma_applicable_complete(db, t.name@, tool_context_text(t), j);
    lemma_tool_scan_has(db, server, tools, i, db[j]);
    lemma_tool_scan_reports_once(db, server, tools);
    let fs = tool_scan(db, server, tools).0;
    let ids = tool_scan(db, server, tools).1;
    let k = choose|k: int| 0 <= k < ids.len() && ids[k] == db[j].id;
    assert(finding_ids(fs)[k] == fs[k].id);
}

/// Whether `id` is among `reported`.
fn is_reported(reported: &Vec<String>, id: &String) -> (b: bool)
    ensures
        b == vuln_db::string_views(reported@).contains(id@),
{
    let n = reported.len();
    for i in 0..n
        invariant
            n == reported@.len(),
            forall|j: int| 0 <= j < i ==> reported@[j]@ != id@,
    {
        if reported[i] == *id {
            assert(vuln_db::string_views(reported@)[i as int] == id@);
            return true;
        }
    }
    assert forall|j: int| 0 <= j < vuln_db::string_views(reported@).len() implies vuln_db::string_views(reported@)[j] != id@ by {
        assert(vuln_db::string_views(reported@)[j] == reported@[j]@);
    }
    false
}

/// The finding that vulnerability `v` applies to tool `t`.
fn vulnerability_finding_exec(server_name: &str, t: &Tool, v: &vuln_db::Vulnerability) -> (f: Finding)
    ensures
        f@ == vulnerability_finding(server_name@, *t, v@),
{
    let mut title = server_name.to_owned();
    title.append(" — ");
    title.append(v.title.as_str());
    let mut evidence = "Tool: ".to_owned();
    evidence.append(t.name.as_str());
    evidence.append(" | Schema: ");
    evidence.append(t.schema_text.as_str());
    evidence.append(" | Desc: ");
    evidence.append(t.description.as_str());
    Finding {
        id: v.id.clone(),
        title: title,
        severity: map_severity(&v.severity),
        category: map_category(&v.category),
        description: v.description.clone(),
        evidence: evidence,
        remediation: v.remediation.clone(),
        source: FindingSource::Dynamic,
    }
}

impl Scanner {
    /// Checks the tools a server offers against the vulnerability database:
    /// each tool's name, description and schema are matched; every
    /// vulnerability is reported once per server, with the tool that first
    /// matched; exposed-SSE vulnerabilities are not reported for stdio servers.
    pub fn tool_findings(&self, server: &McpServer, tools: &Vec<Tool>) -> (r: Vec<Finding>)
        ensures
            finding_views(r@) == tool_scan(self.database(), *server, tools@).0,
    {
        let mut findings: Vec<Finding> = Vec::new();
        let mut reported: Vec<String> = Vec::new();
        let n = tools.len();
        let ghost db = self.database();
        proof {
            assert(tools@.take(0) =~= Seq::<Tool>::empty());
            assert(finding_views(findings@) =~= Seq::<FindingView>::empty());
            assert(vuln_db::string_views(reported@) =~= Seq::<Seq<char>>::empty());
        }
        for i in 0..n
            invariant
                n == tools@.len(),
                db == self.database(),
                (finding_views(findings@), vuln_db::string_views(reported@)) == tool_scan(
                    db,
                    *server,
                    tools@.take(i as int),
                ),
        {
            proof {
                assert(tools@.take(i + 1).drop_last() =~= tools@.take(i as int));
                assert(tools@.take(i + 1).last() == tools@[i as int]);
            }
            let t = &tools[i];
            let mut context = t.name.clone();
            context.append(" ");
            context.append(t.description.as_str());
            context.append(" ");
            context.append(t.schema_text.as_str());
            let matches = self.vuln_db.check_tool(t.name.as_str(), context.as_str());
            let ghost vs = applicable(db, t.name@, tool_context_text(*t));
            let ghost base_f = finding_views(findings@);
            let ghost base_r = vuln_db::string_views(reported@);
            let m = matches.len();
            proof {
                assert(vulnerability_views(matches@) == vs);
                assert(vs.take(0) =~= Seq::<VulnerabilityView>::empty());
                assert(base_f + Seq::<FindingView>::empty() =~= base_f);
            }
            for j in 0..m
                invariant
                    m == matches@.len(),
                    vulnerability_views(matches@) == vs,
                    (finding_views(findings@), vuln_db::string_views(reported@)) == (
                        base_f + report_matches(*server, *t, vs.take(j as int), base_r).0,
                        report_matches(*server, *t, vs.take(j as int), base_r).1,
                    ),
            {
                proof {
                    assert(vs.take(j + 1).drop_last() =~= vs.take(j as int));
                    assert(vs.take(j + 1).last() == matches@[j as int]@);
                }
                let v = &matches[j];
                let excluded = (str_equals(v.id.as_str(), "CVE-2026-MCP-009") || str_equals(
                    v.id.as_str(),
                    "CVE-2026-MCP-010",
                )) && server.transport == TransportType::Stdio;
                if !excluded && !is_reported(&reported, &v.id) {
                    let f = vulnerability_finding_exec(server.name.as_str(), t, v);
                    let ghost bf = findings@;
                    let ghost br = reported@;
                    findings.push(f);
                    reported.push(v.id.clone());
                    proof {
                        assert(finding_views(findings@) =~= finding_views(bf).push(f@));
                        assert(vuln_db::string_views(reported@) =~= vuln_db::string_views(br).push(v@.id));
                    }
                }
            }
            proof {
                assert(vs.take(m as int) =~= vs);
            }
        }
        proof {
            assert(tools@.take(n as int) =~= tools@);
        }
        findings
    }

    /// The findings of a deep scan: those of the active probes, then those
    /// of checking the server's tools against the database.
    pub fn deep_scan_findings(&self, server: &McpServer, tools: &Vec<Tool>, dynamic: Vec<Finding>) -> (r: Vec<Finding>)
        ensures
            finding_views(r@) == finding_views(dynamic@) + tool_scan(self.database(), *server, tools@).0,
    {
        let mut findings = dynamic;
        let more = self.tool_findings(server, tools);
        append_findings(&mut findings, more);
        findings
    }
}


// ------------------------------------------------------------------
// A whole scan
// ------------------------------------------------------------------

/// The finding that reports a deep scan that could not complete.
pub open spec fn deep_scan_incomplete(name: Seq<char>, reason: Seq<char>) -> FindingView {
    FindingView {
        id: "KRYSTA-WARN-001"@,
        title: name + " — Deep scan incomplete"@,
        severity: Severity::Low,
        category: Category::InformationDisclosure,
        description: "Deep scan could not complete: "@ + reason
            + ". Static findings are still valid."@,
        evidence: "Server process may have failed to start or timed out."@,
        remediation: "Check server command and try again. Ensure the MCP server is installable."@,
        source: FindingSource::Dynamic,
    }
}

/// What a deep scan adds to the findings of the server named `name`:
/// nothing when none was asked for, its findings when it completed, and
/// the incomplete-scan finding when it failed.
pub open spec fn deep_part(name: Seq<char>, deep: Option<Result<Vec<Finding>, String>>) -> Seq<
    FindingView,
> {
    match deep {
        None => seq![],
        Some(Ok(v)) => finding_views(v@),
        Some(Err(e)) => seq![deep_scan_incomplete(name, e@)],
    }
}

/// The findings of a whole scan of `server`: the static checks, those of
/// the package and source analysis, and those of the deep scan, merged.
pub open spec fn scan_findings(
    server: McpServer,
    package: Seq<FindingView>,
    deep: Option<Result<Vec<Finding>, String>>,
) -> Seq<FindingView> {
    merged(static_findings(server) + package + deep_part(server.name@, deep))
}

proof fn lemma_unsuperseded_first(fs: Seq<FindingView>, t: bool, c: bool)
    requires
        fs.len() > 0,
        !superseded(fs[0], t, c),
    ensures
        unsuperseded(fs, t, c).len() > 0,
        unsuperseded(fs, t, c)[0] == fs[0],
    decreases fs.len(),
{
    let prev = unsuperseded(fs.drop_last(), t, c);
    if fs.len() > 1 {
        assert(fs.drop_last()[0] == fs[0]);
        lemma_unsuperseded_first(fs.drop_last(), t, c);
        assert(prev[0] == fs[0]);
        if !superseded(fs.last(), t, c) {
            assert(prev.push(fs.last())[0] == prev[0]);
        }
    } else {
        assert(fs.last() == fs[0]);
        assert(fs.drop_last().len() == 0);
        assert(prev.len() == 0);
        assert(prev.push(fs.last())[0] == fs[0]);
    }
}

/// Every scan reports first that the server has no authentication,
/// whatever the other analyses found.
pub proof fn lemma_scan_reports_missing_auth(
    server: McpServer,
    package: Seq<FindingView>,
    deep: Option<Result<Vec<Finding>, String>>,
)
    ensures
        scan_findings(server, package, deep).len() > 0,
        scan_findings(server, package, deep)[0] == missing_auth_finding(server.name@),
{
    let fs = static_findings(server) + package + deep_part(server.name@, deep);
    assert(static_findings(server)[0] == missing_auth_finding(server.name@));
    assert(fs[0] == missing_auth_finding(server.name@));
    reveal_strlit("KRYSTA-001");
    reveal_strlit("KRYSTA-003");
    reveal_strlit("KRYSTA-004");
    assert("KRYSTA-001"@[9] != "KRYSTA-003"@[9]);
    assert("KRYSTA-001"@[9] != "KRYSTA-004"@[9]);
    let t = confirmed(fs, Category::PathTraversal);
    let c = confirmed(fs, Category::CommandInjection);
    lemma_unsuperseded_first(fs, t, c);
    lemma_collapsed(unsuperseded(fs, t, c));
}

fn deep_scan_incomplete_exec(name: &str, reason: &str) -> (f: Finding)
    ensures
        f@ == deep_scan_incomplete(name@, reason@),
{
    let mut title = name.to_owned();
    title.append(" — Deep scan incomplete");
    let mut description = "Deep scan could not complete: ".to_owned();
    description.append(reason);
    description.append(". Static findings are still valid.");
    Finding {
        id: "KRYSTA-WARN-001".to_owned(),
        title: title,
        severity: Severity::Low,
        category: Category::InformationDisclosure,
        description: description,
        evidence: "Server process may have failed to start or timed out.".to_owned(),
        remediation: "Check server command and try again. Ensure the MCP server is installable.".to_owned(),
        source: FindingSource::Dynamic,
    }
}

/// How a deep scan reaches a server.
pub enum DeepScanPlan {
    /// Start `command` with `args` and talk to it over stdio.
    Stdio { command: String, args: Vec<String> },
    /// Ask the server at this URL for its tools.
    Remote(String),
    /// The server offers no way to list its tools.
    Nothing,
}

/// Where the package and source analysis of a server looks.
pub enum AnalysisPlan {
    /// The server's source lies in this local directory.
    Local(String),
    /// The server runs this registry package, to be fetched.
    Registry(String),
    /// There is nothing to analyze.
    Nothing,
}

impl Scanner {
    /// A whole scan of `server`, given what the package and source
    /// analysis found (`package`; empty where it failed) and how the deep
    /// scan ended (`None` where none was asked for, the reason where it
    /// failed).
    pub fn scan(
        &self,
        server: &McpServer,
        package: Vec<Finding>,
        deep: Option<Result<Vec<Finding>, String>>,
    ) -> (r: Vec<Finding>)
        ensures
            finding_views(r@) == scan_findings(*server, finding_views(package@), deep),
    {
        let mut findings = self.static_checks(server);
        append_findings(&mut findings, package);
        let ghost before = finding_views(findings@);
        match deep {
            None => {
                assert(finding_views(findings@) =~= before + deep_part(server.name@, deep));
            },
            Some(Ok(v)) => {
                append_findings(&mut findings, v);
            },
            Some(Err(e)) => {
                let f = deep_scan_incomplete_exec(server.name.as_str(), e.as_str());
                findings.push(f);
                assert(finding_views(findings@) =~= before + deep_part(server.name@, deep));
            },
        }
        self.merge_findings(findings)
    }

    /// Where to analyze the package and source of `server`: its local
    /// source directory where it has one, else the registry package it
    /// runs, else nowhere.
    pub fn analysis_plan(
        server: &McpServer,
        command_facts: &Option<PathFacts>,
        arg_facts: &Vec<PathFacts>,
    ) -> (r: AnalysisPlan)
        requires
            arg_facts@.len() == server.args@.len(),
            command_facts is Some <==> server.command is Some,
        ensures
            match local_source_dir(*server, *command_facts, arg_facts@) {
                Some(d) => r matches AnalysisPlan::Local(x) && x@ == d,
                None => match server_package(*server) {
                    Some(p) => r matches AnalysisPlan::Registry(x) && x@ == p,
                    None => r is Nothing,
                },
            },
    {
        match SourceAnalyzer::detect_local_source_dir(server, command_facts, arg_facts) {
            Some(d) => AnalysisPlan::Local(d),
            None => match PackageAnalyzer::extract_package(server) {
                Some(p) => AnalysisPlan::Registry(p),
                None => AnalysisPlan::Nothing,
            },
        }
    }

    /// How to reach `server` for a deep scan: a stdio server is started
    /// with its command, an SSE or HTTP server is asked at its URL; a
    /// stdio server without a command cannot be scanned.
    pub fn deep_scan_plan(server: &McpServer) -> (r: Result<DeepScanPlan, String>)
        ensures
            match server.transport {
                TransportType::Stdio => match server.command {
                    Some(c) => r matches Ok(DeepScanPlan::Stdio { command, args }) && command@
                        == c@ && args@ == server.args@,
                    None => r matches Err(e) && e@ == "Missing command for stdio server"@,
                },
                TransportType::Sse | TransportType::Http => match server.url {
                    Some(u) => r matches Ok(DeepScanPlan::Remote(url)) && url@ == u@,
                    None => r matches Ok(DeepScanPlan::Nothing),
                },
                TransportType::Unknown => r matches Ok(DeepScanPlan::Nothing),
            },
    {
        match server.transport {
            TransportType::Stdio => match &server.command {
                Some(c) => Ok(
                    DeepScanPlan::Stdio {
                        command: c.clone(),
                        args: crate::engine::mcp::copy_strings(&server.args),
                    },
                ),
                None => Err("Missing command for stdio server".to_owned()),
            },
            TransportType::Sse | TransportType::Http => match &server.url {
                Some(u) => Ok(DeepScanPlan::Remote(u.clone())),
                None => Ok(DeepScanPlan::Nothing),
            },
            TransportType::Unknown => Ok(DeepScanPlan::Nothing),
        }
    }
}


// ------------------------------------------------------------------
// Parameters of a tool
// ------------------------------------------------------------------

/// The `properties` object of an input schema.
pub open spec fn schema_properties(schema: Option<JsonValue>) -> Option<Seq<(String, JsonValue)>> {
    match schema {
        Some(s) => match s.member("properties"@) {
            Some(p) => p.entries(),
            None => None,
        },
        None => None,
    }
}

/// The first candidate that is a property name.
pub open spec fn exact_candidate(props: Seq<(String, JsonValue)>, cands: Seq<&str>) -> Option<
    Seq<char>,
>
    decreases cands.len(),
{
    if cands.len() == 0 {
        None
    } else if lookup(props, cands[0]@) is Some {
        Some(cands[0]@)
    } else {
        exact_candidate(props, cands.drop_first())
    }
}

/// The first property whose lowercased name contains `c`.
pub open spec fn key_containing(props: Seq<(String, JsonValue)>, c: Seq<char>) -> Option<Seq<char>>
    decreases props.len(),
{
    if props.len() == 0 {
        None
    } else if has_substring(lowercase(props[0].0@), c) {
        Some(props[0].0@)
    } else {
        key_containing(props.drop_first(), c)
    }
}

/// For the first candidate that some property name contains (lowercased),
/// the first such property.
pub open spec fn fuzzy_candidate(props: Seq<(String, JsonValue)>, cands: Seq<&str>) -> Option<
    Seq<char>,
>
    decreases cands.len(),
{
    if cands.len() == 0 {
        None
    } else {
        match key_containing(props, cands[0]@) {
            Some(k) => Some(k),
            None => fuzzy_candidate(props, cands.drop_first()),
        }
    }
}

/// The parameter to put a payload in: a candidate that is a property, else
/// a property that contains a candidate, else the first property, else the
/// first candidate (`input` when there is none).
pub open spec fn chosen_param(schema: Option<JsonValue>, cands: Seq<&str>) -> Seq<char> {
    let fallback = if cands.len() > 0 {
        cands[0]@
    } else {
        "input"@
    };
    match schema_properties(schema) {
        Some(props) => match exact_candidate(props, cands) {
            Some(c) => c,
            None => match fuzzy_candidate(props, cands) {
                Some(k) => k,
                None => if props.len() > 0 {
                    props[0].0@
                } else {
                    fallback
                },
            },
        },
        None => fallback,
    }
}

/// The first property among `props` whose lowercased name contains `c`.
fn find_key_containing(props: &Vec<(String, JsonValue)>, c: &str) -> (r: Option<String>)
    ensures
        match r {
            Some(k) => key_containing(props@, c@) == Some(k@),
            None => key_containing(props@, c@) is None,
        },
{
    let n = props.len();
    let cv = chars_of(c);
    let ghost all = props@;
    assert(all.skip(0) =~= all);
    for i in 0..n
        invariant
            n == all.len(),
            all == props@,
            cv@ == c@,
            key_containing(all, c@) == key_containing(all.skip(i as int), c@),
    {
        proof {
            assert(all.skip(i as int).drop_first() =~= all.skip(i + 1));
            assert(all.skip(i as int)[0] == all[i as int]);
        }
        let lower = str_to_lowercase(props[i].0.as_str());
        let lv = chars_of(lower.as_str());
        if contains_chars(lv.as_slice(), cv.as_slice()) {
            return Some(props[i].0.clone());
        }
    }
    None
}

impl Scanner {
    /// The parameter of `tool` that a payload goes into (see `chosen_param`).
    pub fn find_param_name(tool: &Tool, candidates: &Vec<&str>) -> (r: String)
        ensures
            r@ == chosen_param(tool.input_schema, candidates@),
    {
        proof {
            reveal_strlit("input");
        }
        let fallback: String = if candidates.len() > 0 {
            candidates[0].to_owned()
        } else {
            "input".to_owned()
        };
        let props: &Vec<(String, JsonValue)> = match &tool.input_schema {
            Some(schema) => match schema.get("properties") {
                Some(p) => match p.as_object() {
                    Some(props) => props,
                    None => return fallback,
                },
                None => return fallback,
            },
            None => return fallback,
        };
        let ghost cands = candidates@;
        let n = candidates.len();
        assert(cands.skip(0) =~= cands);
        assert(cands.skip(n as int) =~= Seq::<&str>::empty());
        assert(schema_properties(tool.input_schema) == Some(props@));
        for i in 0..n
            invariant
                n == cands.len(),
                cands == candidates@,
                schema_properties(tool.input_schema) == Some(props@),
                exact_candidate(props@, cands) == exact_candidate(props@, cands.skip(i as int)),
        {
            proof {
                assert(cands.skip(i as int).drop_first() =~= cands.skip(i + 1));
                assert(cands.skip(i as int)[0] == cands[i as int]);
            }
            if has_key(props, candidates[i]) {
                return candidates[i].to_owned();
            }
        }
        for i in 0..n
            invariant
                n == cands.len(),
                cands == candidates@,
                schema_properties(tool.input_schema) == Some(props@),
                fallback@ == (if cands.len() > 0 { cands[0]@ } else { "input"@ }),
                exact_candidate(props@, cands) is None,
                fuzzy_candidate(props@, cands) == fuzzy_candidate(props@, cands.skip(i as int)),
        {
            proof {
                assert(cands.skip(i as int).drop_first() =~= cands.skip(i + 1));
                assert(cands.skip(i as int)[0] == cands[i as int]);
            }
            if let Some(k) = find_key_containing(props, candidates[i]) {
                return k;
            }
        }
        if props.len() > 0 {
            props[0].0.clone()
        } else {
            fallback
        }
    }
}

// ------------------------------------------------------------------
// Active probes
// ------------------------------------------------------------------

/// What an active probe tries.
#[derive(Clone, Copy, Debug, PartialEq, Eq, Structural)]
pub enum ProbeKind {
    /// Reading system files through file tools.
    PathTraversal,
    /// Running commands through execution tools.
    CommandInjection,
    /// Reaching internal addresses through URL tools.
    Ssrf,
}

/// The payloads of a probe, each with the text whose presence in the
/// response confirms it (empty for none).
pub open spec fn probe_payloads(kind: ProbeKind) -> Seq<(&'static str, &'static str)> {
    match kind {
        ProbeKind::PathTraversal => seq![
            ("../../Windows/win.ini", "[fonts]"),
            ("../../../../etc/passwd", "root:"),
            ("../../../etc/shadow", "root:"),
        ],
        ProbeKind::CommandInjection => seq![
            ("echo KRYSTA_CANARY_TOKEN_7x9z", "KRYSTA_CANARY_TOKEN_7x9z"),
            ("whoami", ""),
            ("id", "uid="),
        ],
        ProbeKind::Ssrf => seq![
            ("http://169.254.169.254/latest/meta-data/", ""),
            ("http://localhost:22", ""),
            ("http://127.0.0.1:8080", ""),
            ("http://[::1]:80", ""),
        ],
    }
}

fn payloads_of(kind: ProbeKind) -> (v: Vec<(&'static str, &'static str)>)
    ensures
        v@ == probe_payloads(kind),
{
    match kind {
        ProbeKind::PathTraversal => vec![
            ("../../Windows/win.ini", "[fonts]"),
            ("../../../../etc/passwd", "root:"),
            ("../../../etc/shadow", "root:"),
        ],
        ProbeKind::CommandInjection => vec![
            ("echo KRYSTA_CANARY_TOKEN_7x9z", "KRYSTA_CANARY_TOKEN_7x9z"),
            ("whoami", ""),
            ("id", "uid="),
        ],
        ProbeKind::Ssrf => vec![
            ("http://169.254.169.254/latest/meta-data/", ""),
            ("http://localhost:22", ""),
            ("http://127.0.0.1:8080", ""),
            ("http://[::1]:80", ""),
        ],
    }
}

/// The parameter names a probe looks for, by preference.
pub open spec fn param_candidates(kind: ProbeKind) -> Seq<&'static str> {
    match kind {
        ProbeKind::PathTraversal => seq!["path", "file", "filename", "filepath"],
        ProbeKind::CommandInjection => seq!["command", "cmd", "script", "input", "code"],
        ProbeKind::Ssrf => seq!["url", "uri", "href", "endpoint", "target"],
    }
}

fn candidates_of(kind: ProbeKind) -> (v: Vec<&'static str>)
    ensures
        v@ == param_candidates(kind),
{
    match kind {
        ProbeKind::PathTraversal => vec!["path", "file", "filename", "filepath"],
        ProbeKind::CommandInjection => vec!["command", "cmd", "script", "input", "code"],
        ProbeKind::Ssrf => vec!["url", "uri", "href", "endpoint", "target"],
    }
}

/// A tool a probe targets, judged by its lowercased name and description.
pub open spec fn targeted(kind: ProbeKind, name: Seq<char>, desc: Seq<char>) -> bool {
    match kind {
        ProbeKind::PathTraversal => has_substring(name, "read"@) || has_substring(name, "file"@)
            || has_substring(name, "get_content"@) || has_substring(desc, "read"@)
            || has_substring(desc, "file"@),
        ProbeKind::CommandInjection => has_substring(name, "exec"@) || has_substring(
            name,
            "command"@,
        ) || has_substring(name, "shell"@) || has_substring(name, "run"@) || has_substring(
            name,
            "terminal"@,
        ) || has_substring(desc, "execute"@) || has_substring(desc, "command"@),
        ProbeKind::Ssrf => has_substring(name, "fetch"@) || has_substring(name, "http"@)
            || has_substring(name, "request"@) || has_substring(name, "download"@)
            || has_substring(name, "url"@) || has_substring(desc, "fetch"@) || has_substring(
            desc,
            "url"@,
        ) || has_substring(desc, "http"@),
    }
}

/// The tools a probe targets, in order, each with the parameter to use.
pub open spec fn probe_targets(kind: ProbeKind, tools: Seq<Tool>) -> Seq<(Seq<char>, Seq<char>)>
    decreases tools.len(),
{
    if tools.len() == 0 {
        seq![]
    } else {
        let prev = probe_targets(kind, tools.drop_last());
        let t = tools.last();
        if targeted(kind, lowercase(t.name@), lowercase(t.description@)) {
            prev.push((t.name@, chosen_param(t.input_schema, param_candidates(kind))))
        } else {
            prev
        }
    }
}

proof fn lemma_probe_targets_has(kind: ProbeKind, tools: Seq<Tool>, i: int)
    requires
        0 <= i < tools.len(),
        targeted(kind, lowercase(tools[i].name@), lowercase(tools[i].description@)),
    ensures
        exists|k: int|
            0 <= k < probe_targets(kind, tools).len() && (#[trigger] probe_targets(kind, tools)[k])
                == (tools[i].name@, chosen_param(tools[i].input_schema, param_candidates(kind))),
    decreases tools.len(),
{
    let prev = probe_targets(kind, tools.drop_last());
    if i == tools.len() - 1 {
        assert(tools.last() == tools[i]);
        assert(probe_targets(kind, tools)[prev.len() as int] == (
            tools[i].name@,
            chosen_param(tools[i].input_schema, param_candidates(kind)),
        ));
    } else {
        assert(tools.drop_last()[i] == tools[i]);
        lemma_probe_targets_has(kind, tools.drop_last(), i);
        let k = choose|k: int|
            0 <= k < prev.len() && prev[k] == (
                tools[i].name@,
                chosen_param(tools[i].input_schema, param_candidates(kind)),
            );
        assert(probe_targets(kind, tools)[k] == prev[k]);
    }
}

/// A path traversal probe targets every tool whose lowercased name contains
/// `read`, `file` or `get_content`, or whose lowercased description
/// contains `read` or `file`.
pub proof fn lemma_file_tools_probed(tools: Seq<Tool>, i: int)
    requires
        0 <= i < tools.len(),
        ({
            let n = lowercase(tools[i].name@);
            let d = lowercase(tools[i].description@);
            has_substring(n, "read"@) || has_substring(n, "file"@) || has_substring(n, "get_content"@)
                || has_substring(d, "read"@) || has_substring(d, "file"@)
        }),
    ensures
        exists|k: int|
            0 <= k < probe_targets(ProbeKind::PathTraversal, tools).len() && (#[trigger] probe_targets(
                ProbeKind::PathTraversal,
                tools,
            )[k]).0 == tools[i].name@,
{
    lemma_probe_targets_has(ProbeKind::PathTraversal, tools, i);
}

/// A command-injection probe targets every tool whose lowercased name
/// contains `exec`, `command`, `shell`, `run` or `terminal`, or whose
/// lowercased description contains `execute` or `command`.
pub proof fn lemma_command_tools_probed(tools: Seq<Tool>, i: int)
    requires
        0 <= i < tools.len(),
        ({
            let n = lowercase(tools[i].name@);
            let d = lowercase(tools[i].description@);
            has_substring(n, "exec"@) || has_substring(n, "command"@) || has_substring(n, "shell"@)
                || has_substring(n, "run"@) || has_substring(n, "terminal"@) || has_substring(
                d,
                "execute"@,
            ) || has_substring(d, "command"@)
        }),
    ensures
        exists|k: int|
            0 <= k < probe_targets(ProbeKind::CommandInjection, tools).len() && (
            #[trigger] probe_targets(ProbeKind::CommandInjection, tools)[k]).0 == tools[i].name@,
{
    lemma_probe_targets_has(ProbeKind::CommandInjection, tools, i);
}

/// An SSRF probe targets every tool whose lowercased name contains `fetch`,
/// `http`, `request`, `download` or `url`, or whose lowercased description
/// contains `fetch`, `url` or `http`.
pub proof fn lemma_url_tools_probed(tools: Seq<Tool>, i: int)
    requires
        0 <= i < tools.len(),
        ({
            let n = lowercase(tools[i].name@);
            let d = lowercase(tools[i].description@);
            has_substring(n, "fetch"@) || has_substring(n, "http"@) || has_substring(n, "request"@)
                || has_substring(n, "download"@) || has_substring(n, "url"@) || has_substring(
                d,
                "fetch"@,
            ) || has_substring(d, "url"@) || has_substring(d, "http"@)
        }),
    ensures
        exists|k: int|
            0 <= k < probe_targets(ProbeKind::Ssrf, tools).len() && (#[trigger] probe_targets(
                ProbeKind::Ssrf,
                tools,
            )[k]).0 == tools[i].name@,
{
    lemma_probe_targets_has(ProbeKind::Ssrf, tools, i);
}

/// How a call of a tool ended.
pub enum CallOutcome {
    /// The tool answered.
    Returned(ToolCallResult),
    /// The call failed or timed out.
    Failed,
}

/// A response confirms a probe: for path traversal it holds the indicator;
/// for command injection it holds the indicator, or, without one, is
/// non-empty, longer than two bytes and free of `error`; for SSRF the tool
/// did not report an error.
pub open spec fn confirms(kind: ProbeKind, indicator: Seq<char>, o: CallOutcome) -> bool {
    match o {
        CallOutcome::Failed => false,
        CallOutcome::Returned(r) => {
            let text = r.content_text@;
            match kind {
                ProbeKind::PathTraversal => has_substring(text, indicator),
                ProbeKind::CommandInjection => if indicator.len() > 0 {
                    has_substring(text, indicator)
                } else {
                    text.len() > 0 && !has_substring(text, "error"@) && byte_len(text) > 2
                },
                ProbeKind::Ssrf => r.is_error != Some(true),
            }
        },
    }
}

/// What confirms a probe: a failed or timed-out call never does; for path
/// traversal the response text holds the payload's indicator; for command
/// injection it holds the indicator, or, for a payload without one, is
/// longer than two bytes and free of `error`; for SSRF the tool did not
/// flag an error.
pub proof fn lemma_confirming_responses(kind: ProbeKind, indicator: Seq<char>, r: ToolCallResult)
    ensures
        !confirms(kind, indicator, CallOutcome::Failed),
        kind == ProbeKind::PathTraversal ==> (confirms(kind, indicator, CallOutcome::Returned(r))
            <==> has_substring(r.content_text@, indicator)),
        kind == ProbeKind::CommandInjection && indicator.len() > 0 ==> (confirms(
            kind,
            indicator,
            CallOutcome::Returned(r),
        ) <==> has_substring(r.content_text@, indicator)),
        kind == ProbeKind::CommandInjection && indicator.len() == 0 ==> (confirms(
            kind,
            indicator,
            CallOutcome::Returned(r),
        ) <==> (byte_len(r.content_text@) > 2 && !has_substring(r.content_text@, "error"@))),
        kind == ProbeKind::Ssrf ==> (confirms(kind, indicator, CallOutcome::Returned(r)) <==> r.is_error
            != Some(true)),
{
    let t = r.content_text@;
    if kind == ProbeKind::CommandInjection && indicator.len() == 0 && byte_len(t) > 2 {
        assert(t.len() > 0) by {
            if t.len() == 0 {
                assert(vstd::utf8::encode_utf8(t).len() == 0);
            }
        }
    }
}

/// The finding of a confirmed probe.
pub open spec fn probe_finding(kind: ProbeKind, server: Seq<char>, tool: Seq<char>, payload: Seq<char>) -> FindingView {
    match kind {
        ProbeKind::PathTraversal => FindingView {
            id: "KRYSTA-REAL-001"@,
            title: server + " — Confirmed Path Traversal"@,
            severity: Severity::Critical,
            category: Category::PathTraversal,
            description: "Successfully escaped sandbox using filesystem tool."@,
            evidence: "Tool '"@ + tool + "' accepted payload '"@ + payload
                + "' and returned sensitive file content"@,
            remediation: "Restrict filesystem access to allowed directories. Resolve canonical paths and validate against allowlist."@,
            source: FindingSource::Dynamic,
        },
        ProbeKind::CommandInjection => FindingView {
            id: "KRYSTA-REAL-002"@,
            title: server + " — Confirmed Command Injection"@,
            severity: Severity::Critical,
            category: Category::CommandInjection,
            description: "Server executed arbitrary command without sanitization."@,
            evidence: "Tool '"@ + tool + "' executed '"@ + payload + "' and produced output"@,
            remediation: "Validate commands against a strict allowlist. Never pass user input directly to shell execution."@,
            source: FindingSource::Dynamic,
        },
        ProbeKind::Ssrf => FindingView {
            id: "KRYSTA-REAL-003"@,
            title: server + " — Confirmed SSRF"@,
            severity: Severity::Critical,
            category: Category::SSRF,
            description: "Server accepted request to an internal/metadata URL."@,
            evidence: "Tool '"@ + tool + "' accepted internal URL '"@ + payload
                + "' without rejection"@,
            remediation: "Restrict URLs using an allowlist. Block private IP ranges (10.x, 172.16-31.x, 192.168.x, 169.254.x, ::1)."@,
            source: FindingSource::Dynamic,
        },
    }
}

/// The category a probe confirms.
pub open spec fn probe_category(kind: ProbeKind) -> Category {
    match kind {
        ProbeKind::PathTraversal => Category::PathTraversal,
        ProbeKind::CommandInjection => Category::CommandInjection,
        ProbeKind::Ssrf => Category::SSRF,
    }
}

/// Where a probe stands after a call of target `tool` with payload
/// `payload`, out of `n_targets` targets and `n_payloads` payloads: a
/// confirmed path traversal ends the probe; another confirmation moves on
/// to the next tool; a miss moves on to the next payload, or to the next
/// tool after the last one.
pub open spec fn next_position(
    kind: ProbeKind,
    tool: nat,
    payload: nat,
    n_targets: nat,
    n_payloads: nat,
    hit: bool,
) -> (nat, nat) {
    if hit {
        if kind == ProbeKind::PathTraversal {
            (n_targets, 0)
        } else {
            (tool + 1, 0)
        }
    } else if payload + 1 < n_payloads {
        (tool, payload + 1)
    } else {
        (tool + 1, 0)
    }
}

/// Whether the response `o` confirms a probe of kind `kind` whose payload
/// carries the indicator `indicator`.
fn confirms_exec(kind: ProbeKind, indicator: &str, o: &CallOutcome) -> (b: bool)
    ensures
        b == confirms(kind, indicator@, *o),
{
    match o {
        CallOutcome::Failed => false,
        CallOutcome::Returned(r) => {
            let text = r.content_text.as_str();
            match kind {
                ProbeKind::PathTraversal => str_contains(text, indicator),
                ProbeKind::CommandInjection => {
                    if indicator.unicode_len() > 0 {
                        str_contains(text, indicator)
                    } else {
                        text.unicode_len() > 0 && !str_contains(text, "error") && text.len() > 2
                    }
                },
                ProbeKind::Ssrf => match r.is_error {
                    Some(e) => !e,
                    None => true,
                },
            }
        },
    }
}

/// The finding of a confirmed probe of kind `kind`.
fn probe_finding_exec(kind: ProbeKind, server: &str, tool: &str, payload: &str) -> (f: Finding)
    ensures
        f@ == probe_finding(kind, server@, tool@, payload@),
{
    let mut title = server.to_owned();
    let mut evidence = "Tool '".to_owned();
    evidence.append(tool);
    match kind {
        ProbeKind::PathTraversal => {
            title.append(" — Confirmed Path Traversal");
            evidence.append("' accepted payload '");
            evidence.append(payload);
            evidence.append("' and returned sensitive file content");
            Finding {
                id: "KRYSTA-REAL-001".to_owned(),
                title: title,
                severity: Severity::Critical,
                category: Category::PathTraversal,
                description: "Successfully escaped sandbox using filesystem tool.".to_owned(),
                evidence: evidence,
                remediation: "Restrict filesystem access to allowed directories. Resolve canonical paths and validate against allowlist.".to_owned(),
                source: FindingSource::Dynamic,
            }
        },
        ProbeKind::CommandInjection => {
            title.append(" — Confirmed Command Injection");
            evidence.append("' executed '");
            evidence.append(payload);
            evidence.append("' and produced output");
            Finding {
                id: "KRYSTA-REAL-002".to_owned(),
                title: title,
                severity: Severity::Critical,
                category: Category::CommandInjection,
                description: "Server executed arbitrary command without sanitization.".to_owned(),
                evidence: evidence,
                remediation: "Validate commands against a strict allowlist. Never pass user input directly to shell execution.".to_owned(),
                source: FindingSource::Dynamic,
            }
        },
        ProbeKind::Ssrf => {
            title.append(" — Confirmed SSRF");
            evidence.append("' accepted internal URL '");
            evidence.append(payload);
            evidence.append("' without rejection");
            Finding {
                id: "KRYSTA-REAL-003".to_owned(),
                title: title,
                severity: Severity::Critical,
                category: Category::SSRF,
                description: "Server accepted request to an internal/metadata URL.".to_owned(),
                evidence: evidence,
                remediation: "Restrict URLs using an allowlist. Block private IP ranges (10.x, 172.16-31.x, 192.168.x, 169.254.x, ::1).".to_owned(),
                source: FindingSource::Dynamic,
            }
        },
    }
}

/// A tool a probe targets, with the parameter to use.
pub struct ProbeTarget {
    pub tool_name: String,
    pub param: String,
}

/// The tool names and parameters of targets.
pub open spec fn target_views(ts: Seq<ProbeTarget>) -> Seq<(Seq<char>, Seq<char>)> {
    Seq::new(ts.len(), |i: int| (ts[i].tool_name@, ts[i].param@))
}

/// One call a probe asks for: `payload` as `param` of `tool_name`.
pub struct ProbeCall {
    pub tool_name: String,
    pub param: String,
    pub payload: String,
}

/// An active probe of a server's tools. It asks for one call at a time
/// (`next_call`) and learns how it ended (`record`): each targeted tool is
/// tried with each payload in turn until one is confirmed; the path
/// traversal probe stops at its first confirmation, the others go on with
/// the next tool.
pub struct Probe {
    kind: ProbeKind,
    server_name: String,
    targets: Vec<ProbeTarget>,
    payloads: Vec<(&'static str, &'static str)>,
    tool: usize,
    payload: usize,
    findings: Vec<Finding>,
    /// For each finding, the target and payload that produced it.
    hits: Ghost<Seq<(nat, nat)>>,
}

impl Probe {
    /// What the probe tries.
    pub closed spec fn kind(&self) -> ProbeKind {
        self.kind
    }

    /// The name of the probed server.
    pub closed spec fn server(&self) -> Seq<char> {
        self.server_name@
    }

    /// The targeted tools and their parameters.
    pub closed spec fn targets(&self) -> Seq<(Seq<char>, Seq<char>)> {
        target_views(self.targets@)
    }

    /// The index of the tool under test.
    pub closed spec fn tool_index(&self) -> nat {
        self.tool as nat
    }

    /// The index of the payload to send next.
    pub closed spec fn payload_index(&self) -> nat {
        self.payload as nat
    }

    /// The findings so far.
    pub closed spec fn found(&self) -> Seq<FindingView> {
        finding_views(self.findings@)
    }

    /// For each finding, the indices of the target and the payload that
    /// produced it.
    pub closed spec fn hits(&self) -> Seq<(nat, nat)> {
        self.hits@
    }

    /// All calls have been made, or the probe stopped.
    pub open spec fn finished(&self) -> bool {
        self.tool_index() >= self.targets().len()
    }

    /// Calls the probe may still ask for, at most.
    pub open spec fn remaining(&self) -> nat {
        if self.finished() {
            0
        } else {
            ((self.targets().len() - self.tool_index()) * probe_payloads(self.kind()).len()
                - self.payload_index()) as nat
        }
    }

    /// The state of a probe is consistent.
    pub closed spec fn wf(&self) -> bool {
        &&& self.payloads@ == probe_payloads(self.kind)
        &&& self.tool_index() <= self.targets().len()
        &&& self.payload_index() < probe_payloads(self.kind()).len()
        &&& self.found().len() <= self.tool_index()
        &&& self.kind() == ProbeKind::PathTraversal ==> (self.found().len() <= 1 && (
        !self.finished() ==> self.found().len() == 0))
        &&& forall|j: int|
            0 <= j < self.found().len() ==> (#[trigger] self.found()[j]).category
                == probe_category(self.kind()) && self.found()[j].source
                == FindingSource::Dynamic && self.found()[j].severity == Severity::Critical
        &&& self.hits().len() == self.found().len()
        &&& forall|j: int|
            0 <= j < self.hits().len() ==> {
                let (t, p) = #[trigger] self.hits()[j];
                &&& t < self.tool_index()
                &&& t < self.targets().len()
                &&& p < probe_payloads(self.kind()).len()
                &&& self.found()[j] == probe_finding(
                    self.kind(),
                    self.server(),
                    self.targets()[t as int].0,
                    probe_payloads(self.kind())[p as int].0@,
                )
            }
        &&& forall|i: int, j: int|
            0 <= i < j < self.hits().len() ==> (#[trigger] self.hits()[i]).0 < (
            #[trigger] self.hits()[j]).0
    }

    /// Each finding of a probe comes from a distinct targeted tool, in the
    /// order of the tools, and is the probe's finding for that tool and one
    /// of its payloads.
    pub proof fn lemma_probe_findings(&self)
        requires
            self.wf(),
        ensures
            self.hits().len() == self.found().len(),
            forall|j: int|
                0 <= j < self.hits().len() ==> {
                    let (t, p) = #[trigger] self.hits()[j];
                    &&& t < self.targets().len()
                    &&& p < probe_payloads(self.kind()).len()
                    &&& self.found()[j] == probe_finding(
                        self.kind(),
                        self.server(),
                        self.targets()[t as int].0,
                        probe_payloads(self.kind())[p as int].0@,
                    )
                },
            forall|i: int, j: int|
                0 <= i < j < self.hits().len() ==> (#[trigger] self.hits()[i]).0 < (
                #[trigger] self.hits()[j]).0,
    {
    }

    /// What a probe finds stays within bounds: at most one finding per
    /// targeted tool and, for path traversal, at most one in all; each
    /// finding is critical, of the probe's category and found dynamically.
    pub proof fn lemma_probe_bounds(&self)
        requires
            self.wf(),
        ensures
            self.found().len() <= self.targets().len(),
            self.kind() == ProbeKind::PathTraversal ==> self.found().len() <= 1,
            forall|j: int|
                0 <= j < self.found().len() ==> (#[trigger] self.found()[j]).category
                    == probe_category(self.kind()) && self.found()[j].source
                    == FindingSource::Dynamic && self.found()[j].severity == Severity::Critical,
    {
    }

    /// A probe of the tools `tools` of the server named `server_name`.
    pub fn new(kind: ProbeKind, server_name: &str, tools: &Vec<Tool>) -> (p: Self)
        ensures
            p.wf(),
            p.kind() == kind,
            p.server() == server_name@,
            p.targets() == probe_targets(kind, tools@),
            p.tool_index() == 0,
            p.payload_index() == 0,
            p.found().len() == 0,
    {
        let cands = candidates_of(kind);
        let mut targets: Vec<ProbeTarget> = Vec::new();
        let n = tools.len();
        assert(tools@.take(0) =~= Seq::<Tool>::empty());
        assert(target_views(targets@) =~= Seq::<(Seq<char>, Seq<char>)>::empty());
        for i in 0..n
            invariant
                n == tools@.len(),
                cands@ == param_candidates(kind),
                target_views(targets@) == probe_targets(kind, tools@.take(i as int)),
        {
            proof {
                assert(tools@.take(i + 1).drop_last() =~= tools@.take(i as int));
                assert(tools@.take(i + 1).last() == tools@[i as int]);
            }
            let t = &tools[i];
            let name = str_to_lowercase(t.name.as_str());
            let desc = str_to_lowercase(t.description.as_str());
            let nv = chars_of(name.as_str());
            let dv = chars_of(desc.as_str());
            let hit = match kind {
                ProbeKind::PathTraversal => contains_str(nv.as_slice(), "read") || contains_str(
                    nv.as_slice(),
                    "file",
                ) || contains_str(nv.as_slice(), "get_content") || contains_str(
                    dv.as_slice(),
                    "read",
                ) || contains_str(dv.as_slice(), "file"),
                ProbeKind::CommandInjection => contains_str(nv.as_slice(), "exec") || contains_str(
                    nv.as_slice(),
                    "command",
                ) || contains_str(nv.as_slice(), "shell") || contains_str(nv.as_slice(), "run")
                    || contains_str(nv.as_slice(), "terminal") || contains_str(
                    dv.as_slice(),
                    "execute",
                ) || contains_str(dv.as_slice(), "command"),
                ProbeKind::Ssrf => contains_str(nv.as_slice(), "fetch") || contains_str(
                    nv.as_slice(),
                    "http",
                ) || contains_str(nv.as_slice(), "request") || contains_str(
                    nv.as_slice(),
                    "download",
                ) || contains_str(nv.as_slice(), "url") || contains_str(dv.as_slice(), "fetch")
                    || contains_str(dv.as_slice(), "url") || contains_str(dv.as_slice(), "http"),
            };
            if hit {
                let param = Scanner::find_param_name(t, &cands);
                let ghost before = targets@;
                targets.push(ProbeTarget { tool_name: t.name.clone(), param: param });
                assert(target_views(targets@) =~= target_views(before).push((t.name@, chosen_param(t.input_schema, param_candidates(kind)))));
            }
        }
        assert(tools@.take(n as int) =~= tools@);
        let p = Probe {
            kind: kind,
            server_name: server_name.to_owned(),
            targets: targets,
            payloads: payloads_of(kind),
            tool: 0,
            payload: 0,
            findings: Vec::new(),
            hits: Ghost(Seq::empty()),
        };
        assert(p.targets() =~= target_views(targets@));
        assert(p.found() =~= Seq::<FindingView>::empty());
        p
    }

    /// The next call to make: the payload under test to the tool under
    /// test; `None` once the probe is finished.
    pub fn next_call(&self) -> (r: Option<ProbeCall>)
        requires
            self.wf(),
        ensures
            r is None <==> self.finished(),
            r matches Some(c) ==> c.tool_name@ == self.targets()[self.tool_index() as int].0
                && c.param@ == self.targets()[self.tool_index() as int].1 && c.payload@
                == probe_payloads(self.kind())[self.payload_index() as int].0@,
    {
        if self.tool >= self.targets.len() {
            return None;
        }
        let target = &self.targets[self.tool];
        let (payload, _) = self.payloads[self.payload];
        Some(
            ProbeCall {
                tool_name: target.tool_name.clone(),
                param: target.param.clone(),
                payload: payload.to_owned(),
            },
        )
    }

    /// Records how the call that `next_call` asked for ended. A confirming
    /// response adds the probe's finding for the tool and payload under
    /// test; the probe then moves on as `next_position` says.
    pub fn record(&mut self, outcome: &CallOutcome)
        requires
            old(self).wf(),
            !old(self).finished(),
        ensures
            final(self).wf(),
            final(self).kind() == old(self).kind(),
            final(self).server() == old(self).server(),
            final(self).targets() == old(self).targets(),
            ({
                let kind = old(self).kind();
                let tool = old(self).tool_index();
                let payload = old(self).payload_index();
                let (name, _) = old(self).targets()[tool as int];
                let (text, indicator) = probe_payloads(kind)[payload as int];
                let hit = confirms(kind, indicator@, *outcome);
                &&& (final(self).tool_index(), final(self).payload_index()) == next_position(
                    kind,
                    tool,
                    payload,
                    old(self).targets().len(),
                    probe_payloads(kind).len(),
                    hit,
                )
                &&& final(self).found() == if hit {
                    old(self).found().push(probe_finding(kind, old(self).server(), name, text@))
                } else {
                    old(self).found()
                }
            }),
            final(self).remaining() < old(self).remaining(),
    {
        let ghost old_found = self.found();
        let ghost t0: int = self.tool as int;
        let ghost p0: int = self.payload as int;
        assert(self.targets().len() == self.targets@.len());
        assert(self.tool < self.targets.len());
        let (text, indicator) = self.payloads[self.payload];
        let hit = confirms_exec(self.kind, indicator, outcome);
        if hit {
            let f = probe_finding_exec(
                self.kind,
                self.server_name.as_str(),
                self.targets[self.tool].tool_name.as_str(),
                text,
            );
            self.findings.push(f);
            proof {
                assert(self.found() =~= old_found.push(f@));
            }
            self.hits = Ghost(self.hits@.push((t0 as nat, p0 as nat)));
            match self.kind {
                ProbeKind::PathTraversal => {
                    self.tool = self.targets.len();
                },
                _ => {
                    self.tool = self.tool + 1;
                },
            }
            self.payload = 0;
        } else if self.payload + 1 < self.payloads.len() {
            self.payload = self.payload + 1;
        } else {
            self.tool = self.tool + 1;
            self.payload = 0;
        }
        proof {
            let n: int = self.targets().len() as int;
            let m: int = probe_payloads(self.kind()).len() as int;
            let t1: int = self.tool as int;
            let p1: int = self.payload as int;
            assert((n - t0) * m - p0 > 0) by (nonlinear_arith)
                requires
                    t0 < n,
                    0 <= p0 < m,
            ;
            if !self.finished() {
                assert((n - t1) * m - p1 < (n - t0) * m - p0) by (nonlinear_arith)
                    requires
                        t1 >= t0,
                        t1 > t0 || p1 > p0,
                        t1 > t0 ==> p1 == 0,
                        0 <= p0 < m,
                        t1 < n,
                ;
            }
        }
    }

    /// The findings of the probe.
    pub fn into_findings(self) -> (r: Vec<Finding>)
        ensures
            finding_views(r@) == self.found(),
    {
        self.findings
    }
}

} // verus!
