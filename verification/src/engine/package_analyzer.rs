//! npm package analysis: which package an MCP server runs, what `npm view`
//! says of it, and an audit of its contents for lifecycle scripts,
//! non-registry and unpinned dependencies, missing metadata, bundled binaries and
//! obfuscated or heavily minified code.
//!
//! Reading `package.json`, walking the package and running `npm` happen
//! outside; the analysis takes what they produced.
use vstd::prelude::*;

use crate::engine::mcp::McpServer;
use crate::error::ScanError;
use crate::files::{
    extension_of, file_extension, is_script_extension, script_extension, WalkedFile,
};
use crate::json::{json_parsed, lookup, lookup_entry, parse_json, JsonValue};
use crate::models::finding::{
    finding_views, lemma_numbered_from_push, numbered, numbered_from, push_numbered,
    Category, Finding, FindingSource, FindingView, Severity,
};
use crate::pattern::{regex_compiles, regex_finds, TextPattern};
use crate::text::{
    byte_len, chars_of, contains_str, decimal, equals_str, has_prefix, has_substring, join_strs, joined,
    lines_of, starts_with_str,
    lowercase, push_decimal, slice_chars, split_lines, str_contains, str_starts_with,
    str_to_lowercase, str_views, string_of,
};

verus! {

/// Lifecycle scripts whose command is one of these is critical rather than high.
pub const DANGEROUS_COMMAND_PATTERN: &'static str =
    r"(?i)(curl|wget|bash|sh\s|powershell|cmd\s|rm\s|del\s|net\s|nc\s|ncat)";

/// Hex escapes, `_0x` identifiers and escaped index strings mark obfuscated code.
pub const OBFUSCATION_PATTERN: &'static str = r"(?i)(\\x[0-9a-f]{2}){10,}|(_0x[a-f0-9]{4,})|(\['\\x)";

/// The identifier prefix of package findings.
pub open spec fn package_prefix() -> Seq<char> {
    "KRYSTA-PKG-"@
}

// ------------------------------------------------------------------
// Which package a server runs
// ------------------------------------------------------------------

/// A command that runs an npm package.
pub open spec fn npm_launcher(c: Seq<char>) -> bool {
    c == "npx"@ || c == "npx.cmd"@ || c == "npm"@ || c == "npm.cmd"@
}

/// An argument taken as the package name: not a flag, not `run`, and either
/// scoped, a path, or a plain name without a dot.
pub open spec fn package_argument(a: Seq<char>) -> bool {
    if has_prefix(a, "-"@) {
        false
    } else if a == "run"@ {
        false
    } else if has_prefix(a, "@"@) || has_substring(a, "/"@) {
        true
    } else {
        !has_substring(a, "."@) && a.len() > 0 && a != "-y"@ && a != "--yes"@
    }
}

/// The first argument taken as the package name.
pub open spec fn first_package_argument(args: Seq<String>) -> Option<Seq<char>>
    decreases args.len(),
{
    if args.len() == 0 {
        None
    } else if package_argument(args[0]@) {
        Some(args[0]@)
    } else {
        first_package_argument(args.drop_first())
    }
}

/// The package that a server runs: only for an npm or npx command.
pub open spec fn server_package(server: McpServer) -> Option<Seq<char>> {
    match server.command {
        Some(c) => if npm_launcher(c@) {
            first_package_argument(server.args@)
        } else {
            None
        },
        None => None,
    }
}

/// The text of member `key` of `v`, where it is a string.
pub open spec fn member_text(v: JsonValue, key: Seq<char>) -> Option<Seq<char>> {
    match v.member(key) {
        Some(m) => m.text(),
        None => None,
    }
}

/// The view of an optional string.
pub open spec fn opt_text(o: Option<String>) -> Option<Seq<char>> {
    match o {
        Some(s) => Some(s@),
        None => None,
    }
}

/// What `npm view` says of a package.
#[derive(Debug)]
pub struct PackageInfo {
    pub package: String,
    pub version: String,
    pub repository: Option<String>,
    pub homepage: Option<String>,
    pub tarball: Option<String>,
}

/// What `npm view` says of `package`, read from its JSON document `value`:
/// the version ("" where missing), the homepage, the repository (its `url`
/// where it is an object) and the tarball of `dist`.
pub open spec fn describes(i: PackageInfo, package: Seq<char>, value: JsonValue) -> bool {
    &&& i.package@ == package
    &&& i.version@ == match member_text(value, "version"@) {
        Some(s) => s,
        None => seq![],
    }
    &&& opt_text(i.homepage) == member_text(value, "homepage"@)
    &&& opt_text(i.repository) == match value.member("repository"@) {
        Some(rep) => if rep is Object {
            member_text(rep, "url"@)
        } else {
            rep.text()
        },
        None => None,
    }
    &&& opt_text(i.tarball) == match value.member("dist"@) {
        Some(dist) => member_text(dist, "tarball"@),
        None => None,
    }
}

// ------------------------------------------------------------------
// package.json
// ------------------------------------------------------------------

/// The `package.json` of a package, as found on disk.
pub enum PackageManifest {
    /// Neither `package.json` nor `package/package.json` exists.
    Absent,
    /// The file exists but could not be read; the reader's message.
    Unreadable(String),
    /// The text of the file.
    Read(String),
}

/// The document a manifest holds: its text parsed as JSON, where it was read
/// and parses.
pub open spec fn parsed_manifest(m: PackageManifest) -> Option<JsonValue> {
    match m {
        PackageManifest::Read(t) => json_parsed(t@),
        _ => None,
    }
}

/// The scripts that npm runs around installation.
pub open spec fn lifecycle_scripts() -> Seq<&'static str> {
    seq!["preinstall", "postinstall", "preuninstall", "postuninstall", "prepare", "prepublish"]
}

/// The dependency sections of `package.json`.
pub open spec fn dependency_sections() -> Seq<&'static str> {
    seq!["dependencies", "devDependencies", "optionalDependencies"]
}

/// The metadata fields whose absence is reported.
pub open spec fn metadata_fields() -> Seq<&'static str> {
    seq!["license", "repository", "engines"]
}

/// At most the first `n` characters of `s`.
pub open spec fn leading_chars(s: Seq<char>, n: nat) -> Seq<char> {
    if s.len() <= n {
        s
    } else {
        s.take(n as int)
    }
}

/// The finding for lifecycle script `name` running `cmd`.
pub open spec fn script_draft(name: Seq<char>, cmd: Seq<char>) -> FindingView {
    FindingView {
        id: seq![],
        title: "Lifecycle script '"@ + name + "' detected"@,
        severity: if regex_finds(DANGEROUS_COMMAND_PATTERN@, cmd) {
            Severity::Critical
        } else {
            Severity::High
        },
        category: Category::CommandInjection,
        description: "package.json contains a '"@ + name
            + "' script that runs during installation. This is a common supply-chain attack vector."@,
        evidence: "Script '"@ + name + "': "@ + leading_chars(cmd, 200),
        remediation: "Audit the lifecycle script contents. Consider using --ignore-scripts during installation."@,
        source: FindingSource::Package,
    }
}

/// The `scripts` object of a manifest.
pub open spec fn scripts_of(value: JsonValue) -> Option<Seq<(String, JsonValue)>> {
    match value.member("scripts"@) {
        Some(s) => s.entries(),
        None => None,
    }
}

/// The findings for the lifecycle scripts `names`, in order, that `scripts`
/// defines as strings.
pub open spec fn script_drafts(scripts: Option<Seq<(String, JsonValue)>>, names: Seq<&str>) -> Seq<
    FindingView,
>
    decreases names.len(),
{
    if names.len() == 0 {
        seq![]
    } else {
        let prev = script_drafts(scripts, names.drop_last());
        let name = names.last()@;
        match scripts {
            Some(entries) => match lookup(entries, name) {
                Some(v) => match v.text() {
                    Some(cmd) => prev.push(script_draft(name, cmd)),
                    None => prev,
                },
                None => prev,
            },
            None => prev,
        }
    }
}

/// The version text of a dependency ("" when it is not a string).
pub open spec fn version_text(v: JsonValue) -> Seq<char> {
    match v.text() {
        Some(s) => s,
        None => seq![],
    }
}

/// A version that fetches from git or a URL rather than the registry.
pub open spec fn non_registry(ver: Seq<char>) -> bool {
    has_prefix(ver, "git"@) || has_prefix(ver, "http"@) || has_substring(ver, "github"@)
}

/// The finding for a non-registry dependency.
pub open spec fn dependency_draft(name: Seq<char>, ver: Seq<char>) -> FindingView {
    FindingView {
        id: seq![],
        title: "Non-registry dependency: "@ + name,
        severity: Severity::Medium,
        category: Category::ToolPoisoning,
        description: "Dependency '"@ + name
            + "' is fetched from a git/URL source instead of the npm registry. This bypasses registry integrity checks."@,
        evidence: name + ": "@ + ver,
        remediation: "Pin dependencies to registry versions with exact version numbers."@,
        source: FindingSource::Package,
    }
}

/// A version spec that accepts a range of registry versions rather than one
/// exact version: caret and tilde ranges, wildcards, comparisons, `x`
/// placeholders and `latest`.
pub open spec fn unpinned(ver: Seq<char>) -> bool {
    ||| has_prefix(ver, "^"@)
    ||| has_prefix(ver, "~"@)
    ||| has_substring(ver, "*"@)
    ||| has_substring(ver, ">"@)
    ||| has_substring(ver, "<"@)
    ||| has_substring(ver, ".x"@)
    ||| has_substring(ver, ".X"@)
    ||| ver == "x"@
    ||| ver == "X"@
    ||| ver == "latest"@
}

/// The finding for a dependency on a version range.
pub open spec fn unpinned_draft(name: Seq<char>, ver: Seq<char>) -> FindingView {
    FindingView {
        id: seq![],
        title: "Unpinned dependency: "@ + name,
        severity: Severity::Low,
        category: Category::ToolPoisoning,
        description: "Dependency '"@ + name
            + "' accepts a range of versions instead of one exact version. A new release can change what gets installed."@,
        evidence: name + ": "@ + ver,
        remediation: "Pin dependencies to registry versions with exact version numbers."@,
        source: FindingSource::Package,
    }
}

/// What one dependency yields: a non-registry source, else an unpinned
/// version range, else nothing.
pub open spec fn dependency_drafts(name: Seq<char>, ver: Seq<char>) -> Seq<FindingView> {
    if non_registry(ver) {
        seq![dependency_draft(name, ver)]
    } else if unpinned(ver) {
        seq![unpinned_draft(name, ver)]
    } else {
        seq![]
    }
}

/// The findings for the dependencies among `entries`, in order.
pub open spec fn entries_drafts(entries: Seq<(String, JsonValue)>) -> Seq<FindingView>
    decreases entries.len(),
{
    if entries.len() == 0 {
        seq![]
    } else {
        let prev = entries_drafts(entries.drop_last());
        let e = entries.last();
        prev + dependency_drafts(e.0@, version_text(e.1))
    }
}

/// The entries of section `name` of a manifest (none when it is not an object).
pub open spec fn section_entries(value: JsonValue, name: Seq<char>) -> Seq<(String, JsonValue)> {
    match value.member(name) {
        Some(d) => match d.entries() {
            Some(es) => es,
            None => seq![],
        },
        None => seq![],
    }
}

/// The findings for the dependencies of `sections`, section by section.
pub open spec fn section_drafts(value: JsonValue, sections: Seq<&str>) -> Seq<FindingView>
    decreases sections.len(),
{
    if sections.len() == 0 {
        seq![]
    } else {
        section_drafts(value, sections.drop_last()) + entries_drafts(
            section_entries(value, sections.last()@),
        )
    }
}

/// The fields among `fields` that the manifest lacks, in order.
pub open spec fn missing_fields(value: JsonValue, fields: Seq<&str>) -> Seq<&str>
    decreases fields.len(),
{
    if fields.len() == 0 {
        seq![]
    } else {
        let prev = missing_fields(value, fields.drop_last());
        if value.member(fields.last()@) is None {
            prev.push(fields.last())
        } else {
            prev
        }
    }
}

/// The finding for missing metadata.
pub open spec fn metadata_draft(missing: Seq<&str>) -> FindingView {
    let list = joined(str_views(missing), ", "@);
    FindingView {
        id: seq![],
        title: "Missing package metadata"@,
        severity: Severity::Low,
        category: Category::InformationDisclosure,
        description: "package.json is missing fields: "@ + list
            + ". This reduces traceability and trust."@,
        evidence: "Missing: "@ + list,
        remediation: "Add license, repository, and engines fields to package.json."@,
        source: FindingSource::Package,
    }
}

/// Everything a parsed manifest yields, in order: lifecycle scripts,
/// non-registry dependencies, then missing metadata.
pub open spec fn manifest_drafts(value: JsonValue) -> Seq<FindingView> {
    let missing = missing_fields(value, metadata_fields());
    script_drafts(scripts_of(value), lifecycle_scripts()) + section_drafts(
        value,
        dependency_sections(),
    ) + if missing.len() > 0 {
        seq![metadata_draft(missing)]
    } else {
        seq![]
    }
}

// ------------------------------------------------------------------
// Package files
// ------------------------------------------------------------------

/// The (lowercased) extensions of files that may be binaries or scripts.
pub open spec fn suspicious_extension(e: Seq<char>) -> bool {
    ||| e == "exe"@
    ||| e == "dll"@
    ||| e == "so"@
    ||| e == "dylib"@
    ||| e == "bat"@
    ||| e == "cmd"@
    ||| e == "ps1"@
    ||| e == "sh"@
    ||| e == "node"@
    ||| e == "wasm"@
}

/// The severity of a suspicious file by its extension.
pub open spec fn suspicious_severity(e: Seq<char>) -> Severity {
    if e == "exe"@ || e == "dll"@ || e == "bat"@ || e == "cmd"@ || e == "ps1"@ || e == "sh"@ {
        Severity::High
    } else if e == "node"@ || e == "so"@ || e == "dylib"@ {
        Severity::Medium
    } else {
        Severity::Low
    }
}

/// The finding for a suspicious file.
pub open spec fn suspicious_draft(rel: Seq<char>, e: Seq<char>) -> FindingView {
    FindingView {
        id: seq![],
        title: "Suspicious file: "@ + rel,
        severity: suspicious_severity(e),
        category: Category::CommandInjection,
        description: "Package contains a ."@ + e
            + " file which may be a bundled binary or script. Native binaries in npm packages can execute arbitrary code."@,
        evidence: "File: "@ + rel,
        remediation: "Audit the file contents. Prefer pure JavaScript packages without native binaries."@,
        source: FindingSource::Package,
    }
}

/// What one file yields as a possible binary or script.
pub open spec fn file_suspicious_drafts(f: WalkedFile) -> Seq<FindingView> {
    let e = lowercase(extension_of(f.file_name@));
    if suspicious_extension(e) {
        seq![suspicious_draft(f.relative_path@, e)]
    } else {
        seq![]
    }
}

/// What the files yield as possible binaries or scripts, in order.
pub open spec fn suspicious_drafts(files: Seq<WalkedFile>) -> Seq<FindingView>
    decreases files.len(),
{
    if files.len() == 0 {
        seq![]
    } else {
        suspicious_drafts(files.drop_last()) + file_suspicious_drafts(files.last())
    }
}

/// The finding for an obfuscated script.
pub open spec fn obfuscated_draft(rel: Seq<char>) -> FindingView {
    FindingView {
        id: seq![],
        title: "Obfuscated code: "@ + rel,
        severity: Severity::High,
        category: Category::ToolPoisoning,
        description: "File contains obfuscated JavaScript. Obfuscation is commonly used to hide malicious behavior in supply-chain attacks."@,
        evidence: "File: "@ + rel,
        remediation: "Deobfuscate and audit the file contents. Consider using a non-obfuscated alternative."@,
        source: FindingSource::Package,
    }
}

/// The finding for a script of `bytes` bytes on `lines` lines.
pub open spec fn minified_draft(rel: Seq<char>, bytes: nat, lines: nat) -> FindingView {
    FindingView {
        id: seq![],
        title: "Heavily minified code: "@ + rel,
        severity: Severity::Medium,
        category: Category::ToolPoisoning,
        description: "File is "@ + decimal(bytes) + " bytes but only "@ + decimal(lines)
            + " line(s). Extreme minification makes code review difficult and may hide malicious logic."@,
        evidence: "File: "@ + rel + " ("@ + decimal(bytes) + " bytes, "@ + decimal(lines)
            + " lines)"@,
        remediation: "Prefer unminified source or vendor a readable copy for audit."@,
        source: FindingSource::Package,
    }
}

/// A script of at most three lines and more than 50,000 bytes.
pub open spec fn heavily_minified(content: Seq<char>) -> bool {
    lines_of(content).len() <= 3 && byte_len(content) > 50_000
}

/// What one readable script yields: obfuscation, then heavy minification.
pub open spec fn file_obfuscation_drafts(f: WalkedFile) -> Seq<FindingView> {
    if !script_extension(extension_of(f.file_name@)) {
        seq![]
    } else {
        match f.content {
            None => seq![],
            Some(c) => {
                let first = if regex_finds(OBFUSCATION_PATTERN@, c@) {
                    seq![obfuscated_draft(f.relative_path@)]
                } else {
                    seq![]
                };
                if heavily_minified(c@) {
                    first.push(
                        minified_draft(
                            f.relative_path@,
                            byte_len(c@) as nat,
                            lines_of(c@).len(),
                        ),
                    )
                } else {
                    first
                }
            },
        }
    }
}

/// What the files yield as obfuscated or minified scripts, in order.
pub open spec fn obfuscation_drafts(files: Seq<WalkedFile>) -> Seq<FindingView>
    decreases files.len(),
{
    if files.len() == 0 {
        seq![]
    } else {
        obfuscation_drafts(files.drop_last()) + file_obfuscation_drafts(files.last())
    }
}

/// What a manifest yields (nothing unless it was read and parses).
pub open spec fn manifest_yield(m: PackageManifest) -> Seq<FindingView> {
    match parsed_manifest(m) {
        Some(v) => manifest_drafts(v),
        None => seq![],
    }
}

// ------------------------------------------------------------------
// Lemmas
// ------------------------------------------------------------------

proof fn lemma_script_drafts_prefix(
    scripts: Option<Seq<(String, JsonValue)>>,
    names: Seq<&str>,
    k: int,
)
    requires
        0 <= k <= names.len(),
    ensures
        script_drafts(scripts, names.take(k)).len() <= script_drafts(scripts, names).len(),
    decreases names.len() - k,
{
    if k < names.len() {
        lemma_script_drafts_prefix(scripts, names, k + 1);
        assert(names.take(k + 1).drop_last() =~= names.take(k));
    } else {
        assert(names.take(k) =~= names);
    }
}

proof fn lemma_entries_drafts_prefix(entries: Seq<(String, JsonValue)>, k: int)
    requires
        0 <= k <= entries.len(),
    ensures
        entries_drafts(entries.take(k)).len() <= entries_drafts(entries).len(),
    decreases entries.len() - k,
{
    if k < entries.len() {
        lemma_entries_drafts_prefix(entries, k + 1);
        assert(entries.take(k + 1).drop_last() =~= entries.take(k));
    } else {
        assert(entries.take(k) =~= entries);
    }
}

proof fn lemma_section_drafts_prefix(value: JsonValue, sections: Seq<&str>, k: int)
    requires
        0 <= k <= sections.len(),
    ensures
        section_drafts(value, sections.take(k)).len() <= section_drafts(value, sections).len(),
    decreases sections.len() - k,
{
    if k < sections.len() {
        lemma_section_drafts_prefix(value, sections, k + 1);
        assert(sections.take(k + 1).drop_last() =~= sections.take(k));
    } else {
        assert(sections.take(k) =~= sections);
    }
}

proof fn lemma_suspicious_prefix(files: Seq<WalkedFile>, k: int)
    requires
        0 <= k <= files.len(),
    ensures
        suspicious_drafts(files.take(k)).len() <= suspicious_drafts(files).len(),
    decreases files.len() - k,
{
    if k < files.len() {
        lemma_suspicious_prefix(files, k + 1);
        assert(files.take(k + 1).drop_last() =~= files.take(k));
    } else {
        assert(files.take(k) =~= files);
    }
}

proof fn lemma_obfuscation_prefix(files: Seq<WalkedFile>, k: int)
    requires
        0 <= k <= files.len(),
    ensures
        obfuscation_drafts(files.take(k)).len() <= obfuscation_drafts(files).len(),
    decreases files.len() - k,
{
    if k < files.len() {
        lemma_obfuscation_prefix(files, k + 1);
        assert(files.take(k + 1).drop_last() =~= files.take(k));
    } else {
        assert(files.take(k) =~= files);
    }
}

proof fn lemma_entries_drafts_has(entries: Seq<(String, JsonValue)>, j: int, m: int)
    requires
        0 <= j < entries.len(),
        0 <= m < dependency_drafts(entries[j].0@, version_text(entries[j].1)).len(),
    ensures
        exists|k: int|
            0 <= k < entries_drafts(entries).len() && (#[trigger] entries_drafts(entries)[k])
                == dependency_drafts(entries[j].0@, version_text(entries[j].1))[m],
    decreases entries.len(),
{
    let prev = entries_drafts(entries.drop_last());
    let cur = entries_drafts(entries);
    let target = dependency_drafts(entries[j].0@, version_text(entries[j].1))[m];
    if j == entries.len() - 1 {
        assert(entries.last() == entries[j]);
        assert(cur[prev.len() + m] == target);
    } else {
        assert(entries.drop_last()[j] == entries[j]);
        lemma_entries_drafts_has(entries.drop_last(), j, m);
        let k = choose|k: int| 0 <= k < prev.len() && prev[k] == target;
        assert(cur[k] == prev[k]);
    }
}

proof fn lemma_section_drafts_has(value: JsonValue, sections: Seq<&str>, s: int, m: int)
    requires
        0 <= s < sections.len(),
        0 <= m < entries_drafts(section_entries(value, sections[s]@)).len(),
    ensures
        exists|k: int|
            0 <= k < section_drafts(value, sections).len() && (#[trigger] section_drafts(
                value,
                sections,
            )[k]) == entries_drafts(section_entries(value, sections[s]@))[m],
    decreases sections.len(),
{
    let prev = section_drafts(value, sections.drop_last());
    let cur = section_drafts(value, sections);
    let target = entries_drafts(section_entries(value, sections[s]@))[m];
    if s == sections.len() - 1 {
        assert(sections.last() == sections[s]);
        assert(cur[prev.len() + m] == target);
    } else {
        assert(sections.drop_last()[s] == sections[s]);
        lemma_section_drafts_has(value, sections.drop_last(), s, m);
        let k = choose|k: int| 0 <= k < prev.len() && prev[k] == target;
        assert(cur[k] == prev[k]);
    }
}

/// The finding drawn from entry `j` of dependency section `section` is among
/// what the manifest yields.
proof fn lemma_dependency_finding_yielded(value: JsonValue, section: Seq<char>, j: int)
    requires
        section == "dependencies"@ || section == "devDependencies"@ || section
            == "optionalDependencies"@,
        0 <= j < section_entries(value, section).len(),
        dependency_drafts(
            section_entries(value, section)[j].0@,
            version_text(section_entries(value, section)[j].1),
        ).len() > 0,
    ensures
        exists|k: int|
            0 <= k < manifest_drafts(value).len() && (#[trigger] manifest_drafts(value)[k])
                == dependency_drafts(
                section_entries(value, section)[j].0@,
                version_text(section_entries(value, section)[j].1),
            )[0],
{
    let secs = dependency_sections();
    let si: int = if section == "dependencies"@ {
        0
    } else if section == "devDependencies"@ {
        1
    } else {
        2
    };
    assert(secs[si]@ == section);
    let es = section_entries(value, section);
    lemma_entries_drafts_has(es, j, 0);
    let k1 = choose|k: int|
        0 <= k < entries_drafts(es).len() && entries_drafts(es)[k] == dependency_drafts(
            es[j].0@,
            version_text(es[j].1),
        )[0];
    lemma_section_drafts_has(value, secs, si, k1);
    let k2 = choose|k: int|
        0 <= k < section_drafts(value, secs).len() && section_drafts(value, secs)[k]
            == entries_drafts(es)[k1];
    let pre = script_drafts(scripts_of(value), lifecycle_scripts());
    assert(manifest_drafts(value)[pre.len() + k2] == section_drafts(value, secs)[k2]);
}

/// Every dependency (in `dependencies`, `devDependencies` or
/// `optionalDependencies`) whose version text starts with `git` or `http`,
/// or mentions `github`, is reported as a medium non-registry dependency,
/// quoting its name and version.
pub proof fn lemma_non_registry_reported(value: JsonValue, section: Seq<char>, j: int)
    requires
        section == "dependencies"@ || section == "devDependencies"@ || section
            == "optionalDependencies"@,
        0 <= j < section_entries(value, section).len(),
        ({
            let ver = version_text(section_entries(value, section)[j].1);
            has_prefix(ver, "git"@) || has_prefix(ver, "http"@) || has_substring(ver, "github"@)
        }),
    ensures
        exists|k: int|
            0 <= k < manifest_drafts(value).len() && (#[trigger] manifest_drafts(value)[k]).title
                == "Non-registry dependency: "@ + section_entries(value, section)[j].0@
                && manifest_drafts(value)[k].severity == Severity::Medium
                && manifest_drafts(value)[k].evidence == section_entries(value, section)[j].0@
                + ": "@ + version_text(section_entries(value, section)[j].1),
{
    lemma_dependency_finding_yielded(value, section, j);
}

/// Every registry dependency whose version text is a range (caret, tilde,
/// wildcard, comparison, `x` placeholder or `latest`) is reported as an
/// unpinned dependency, quoting its name and version.
pub proof fn lemma_unpinned_reported(value: JsonValue, section: Seq<char>, j: int)
    requires
        section == "dependencies"@ || section == "devDependencies"@ || section
            == "optionalDependencies"@,
        0 <= j < section_entries(value, section).len(),
        ({
            let ver = version_text(section_entries(value, section)[j].1);
            &&& !(has_prefix(ver, "git"@) || has_prefix(ver, "http"@) || has_substring(
                ver,
                "github"@,
            ))
            &&& (has_prefix(ver, "^"@) || has_prefix(ver, "~"@) || has_substring(ver, "*"@)
                || has_substring(ver, ">"@) || has_substring(ver, "<"@) || has_substring(ver, ".x"@)
                || has_substring(ver, ".X"@) || ver == "x"@ || ver == "X"@ || ver == "latest"@)
        }),
    ensures
        exists|k: int|
            0 <= k < manifest_drafts(value).len() && (#[trigger] manifest_drafts(value)[k]).title
                == "Unpinned dependency: "@ + section_entries(value, section)[j].0@
                && manifest_drafts(value)[k].evidence == section_entries(value, section)[j].0@
                + ": "@ + version_text(section_entries(value, section)[j].1),
{
    lemma_dependency_finding_yielded(value, section, j);
}

proof fn lemma_script_drafts_has(
    scripts: Option<Seq<(String, JsonValue)>>,
    names: Seq<&str>,
    i: int,
    cmd: Seq<char>,
)
    requires
        0 <= i < names.len(),
        scripts is Some,
        lookup(scripts->0, names[i]@) is Some,
        lookup(scripts->0, names[i]@)->0.text() == Some(cmd),
    ensures
        exists|k: int|
            0 <= k < script_drafts(scripts, names).len() && (#[trigger] script_drafts(
                scripts,
                names,
            )[k]) == script_draft(names[i]@, cmd),
    decreases names.len(),
{
    let prev = script_drafts(scripts, names.drop_last());
    let cur = script_drafts(scripts, names);
    if i == names.len() - 1 {
        assert(names.last() == names[i]);
        assert(cur[prev.len() as int] == script_draft(names[i]@, cmd));
    } else {
        assert(names.drop_last()[i] == names[i]);
        lemma_script_drafts_has(scripts, names.drop_last(), i, cmd);
        let k = choose|k: int| 0 <= k < prev.len() && prev[k] == script_draft(names[i]@, cmd);
        assert(cur[k] == prev[k]);
    }
}

/// Every lifecycle script (`preinstall`, `postinstall`, `preuninstall`,
/// `postuninstall`, `prepare`, `prepublish`) that the manifest's `scripts`
/// object defines as a string is reported, quoting its first 200
/// characters; critical when the command matches the dangerous-command
/// pattern (downloaders, shells, deletion, networking tools), high otherwise.
pub proof fn lemma_lifecycle_scripts_reported(value: JsonValue, name: Seq<char>, cmd: Seq<char>)
    requires
        name == "preinstall"@ || name == "postinstall"@ || name == "preuninstall"@ || name
            == "postuninstall"@ || name == "prepare"@ || name == "prepublish"@,
        value.member("scripts"@) is Some,
        value.member("scripts"@)->0.entries() is Some,
        lookup(value.member("scripts"@)->0.entries()->0, name) is Some,
        lookup(value.member("scripts"@)->0.entries()->0, name)->0.text() == Some(cmd),
    ensures
        exists|k: int|
            0 <= k < manifest_drafts(value).len() && (#[trigger] manifest_drafts(value)[k]).title
                == "Lifecycle script '"@ + name + "' detected"@ && manifest_drafts(value)[k].evidence
                == "Script '"@ + name + "': "@ + leading_chars(cmd, 200) && manifest_drafts(
                value,
            )[k].severity == if regex_finds(
                r"(?i)(curl|wget|bash|sh\s|powershell|cmd\s|rm\s|del\s|net\s|nc\s|ncat)"@,
                cmd,
            ) {
                Severity::Critical
            } else {
                Severity::High
            },
{
    let names = lifecycle_scripts();
    let i: int = if name == "preinstall"@ {
        0
    } else if name == "postinstall"@ {
        1
    } else if name == "preuninstall"@ {
        2
    } else if name == "postuninstall"@ {
        3
    } else if name == "prepare"@ {
        4
    } else {
        5
    };
    assert(names[i]@ == name);
    lemma_script_drafts_has(scripts_of(value), names, i, cmd);
    let k = choose|k: int|
        0 <= k < script_drafts(scripts_of(value), names).len() && script_drafts(
            scripts_of(value),
            names,
        )[k] == script_draft(name, cmd);
    assert(manifest_drafts(value)[k] == script_draft(name, cmd));
}

/// A manifest that lacks any of `license`, `repository` and `engines` is
/// reported as missing package metadata.
pub proof fn lemma_missing_metadata_reported(value: JsonValue)
    requires
        value.member("license"@) is None || value.member("repository"@) is None || value.member(
            "engines"@,
        ) is None,
    ensures
        exists|k: int|
            0 <= k < manifest_drafts(value).len() && (#[trigger] manifest_drafts(value)[k]).title
                == "Missing package metadata"@,
{
    let fields = metadata_fields();
    assert(fields.take(3) =~= fields);
    assert(fields.take(2) =~= fields.drop_last());
    assert(fields.take(1) =~= fields.take(2).drop_last());
    assert(fields.take(0) =~= fields.take(1).drop_last());
    let m = missing_fields(value, fields);
    assert(m.len() > 0) by {
        let m2 = missing_fields(value, fields.take(2));
        let m1 = missing_fields(value, fields.take(1));
        assert(m2.len() >= m1.len());
        assert(m.len() >= m2.len());
    }
    let md = manifest_drafts(value);
    assert(md[md.len() - 1] == metadata_draft(m));
}

proof fn lemma_suspicious_drafts_has(files: Seq<WalkedFile>, j: int)
    requires
        0 <= j < files.len(),
        file_suspicious_drafts(files[j]).len() > 0,
    ensures
        exists|k: int|
            0 <= k < suspicious_drafts(files).len() && (#[trigger] suspicious_drafts(files)[k])
                == file_suspicious_drafts(files[j])[0],
    decreases files.len(),
{
    let prev = suspicious_drafts(files.drop_last());
    let cur = suspicious_drafts(files);
    let target = file_suspicious_drafts(files[j])[0];
    if j == files.len() - 1 {
        assert(files.last() == files[j]);
        assert(cur[prev.len() as int] == target);
    } else {
        assert(files.drop_last()[j] == files[j]);
        lemma_suspicious_drafts_has(files.drop_last(), j);
        let k = choose|k: int| 0 <= k < prev.len() && prev[k] == target;
        assert(cur[k] == prev[k]);
    }
}

/// Every file whose lowercased extension is `exe`, `dll`, `so`, `dylib`,
/// `bat`, `cmd`, `ps1`, `sh`, `node` or `wasm` is reported as a suspicious
/// file of the package: high for executables and scripts, medium for
/// native modules and libraries, low for WebAssembly.
pub proof fn lemma_suspicious_files_reported(files: Seq<WalkedFile>, j: int)
    requires
        0 <= j < files.len(),
        ({
            let e = lowercase(extension_of(files[j].file_name@));
            e == "exe"@ || e == "dll"@ || e == "so"@ || e == "dylib"@ || e == "bat"@ || e == "cmd"@
                || e == "ps1"@ || e == "sh"@ || e == "node"@ || e == "wasm"@
        }),
    ensures
        exists|k: int|
            0 <= k < suspicious_drafts(files).len() && (#[trigger] suspicious_drafts(files)[k]).title
                == "Suspicious file: "@ + files[j].relative_path@ && suspicious_drafts(files)[k].severity
                == ({
                let e = lowercase(extension_of(files[j].file_name@));
                if e == "exe"@ || e == "dll"@ || e == "bat"@ || e == "cmd"@ || e == "ps1"@ || e
                    == "sh"@ {
                    Severity::High
                } else if e == "wasm"@ {
                    Severity::Low
                } else {
                    Severity::Medium
                }
            }),
{
    lemma_suspicious_drafts_has(files, j);
    reveal_strlit("wasm");
    reveal_strlit("node");
    reveal_strlit("so");
    reveal_strlit("dylib");
    let e = lowercase(extension_of(files[j].file_name@));
    if e == "wasm"@ {
        assert("wasm"@[0] != "node"@[0]);
        assert("wasm"@.len() != "so"@.len());
        assert("wasm"@.len() != "dylib"@.len());
    }
}

proof fn lemma_obfuscation_drafts_has(files: Seq<WalkedFile>, j: int, m: int)
    requires
        0 <= j < files.len(),
        0 <= m < file_obfuscation_drafts(files[j]).len(),
    ensures
        exists|k: int|
            0 <= k < obfuscation_drafts(files).len() && (#[trigger] obfuscation_drafts(files)[k])
                == file_obfuscation_drafts(files[j])[m],
    decreases files.len(),
{
    let prev = obfuscation_drafts(files.drop_last());
    let cur = obfuscation_drafts(files);
    let target = file_obfuscation_drafts(files[j])[m];
    if j == files.len() - 1 {
        assert(files.last() == files[j]);
        assert(cur[prev.len() + m] == target);
    } else {
        assert(files.drop_last()[j] == files[j]);
        lemma_obfuscation_drafts_has(files.drop_last(), j, m);
        let k = choose|k: int| 0 <= k < prev.len() && prev[k] == target;
        assert(cur[k] == prev[k]);
    }
}

/// Every read `.js`, `.mjs` or `.cjs` file whose text matches the
/// obfuscation pattern (ten or more hex escapes, `_0x` identifiers, escaped
/// index strings) is reported as obfuscated code.
pub proof fn lemma_obfuscated_scripts_reported(files: Seq<WalkedFile>, j: int)
    requires
        0 <= j < files.len(),
        ({
            let e = extension_of(files[j].file_name@);
            e == "js"@ || e == "mjs"@ || e == "cjs"@
        }),
        files[j].content is Some,
        regex_finds(
            r"(?i)(\\x[0-9a-f]{2}){10,}|(_0x[a-f0-9]{4,})|(\['\\x)"@,
            files[j].content->0@,
        ),
    ensures
        exists|k: int|
            0 <= k < obfuscation_drafts(files).len() && (#[trigger] obfuscation_drafts(files)[k]).title
                == "Obfuscated code: "@ + files[j].relative_path@,
{
    assert(file_obfuscation_drafts(files[j])[0] == obfuscated_draft(files[j].relative_path@));
    lemma_obfuscation_drafts_has(files, j, 0);
}

/// Every read `.js`, `.mjs` or `.cjs` file of more than 50,000 bytes on at
/// most three lines is reported as heavily minified code, with its size.
pub proof fn lemma_minified_scripts_reported(files: Seq<WalkedFile>, j: int)
    requires
        0 <= j < files.len(),
        ({
            let e = extension_of(files[j].file_name@);
            e == "js"@ || e == "mjs"@ || e == "cjs"@
        }),
        files[j].content is Some,
        lines_of(files[j].content->0@).len() <= 3,
        byte_len(files[j].content->0@) > 50_000,
    ensures
        exists|k: int|
            0 <= k < obfuscation_drafts(files).len() && (#[trigger] obfuscation_drafts(files)[k]).title
                == "Heavily minified code: "@ + files[j].relative_path@ && obfuscation_drafts(
                files,
            )[k].evidence == "File: "@ + files[j].relative_path@ + " ("@ + decimal(
                byte_len(files[j].content->0@) as nat,
            ) + " bytes, "@ + decimal(lines_of(files[j].content->0@).len()) + " lines)"@,
{
    let d = file_obfuscation_drafts(files[j]);
    let m = d.len() - 1;
    assert(d[m] == minified_draft(
        files[j].relative_path@,
        byte_len(files[j].content->0@) as nat,
        lines_of(files[j].content->0@).len(),
    ));
    lemma_obfuscation_drafts_has(files, j, m);
}

// ------------------------------------------------------------------
// Executable analysis
// ------------------------------------------------------------------

/// The analyzer of npm packages.
pub struct PackageAnalyzer;

fn text_of(v: &JsonValue) -> (s: &str)
    ensures
        s@ == version_text(*v),
{
    proof {
        reveal_strlit("");
    }
    match v.as_str() {
        Some(s) => s,
        None => "",
    }
}

fn optional_text(v: Option<&JsonValue>) -> (r: Option<String>)
    ensures
        opt_text(r) == match v {
            Some(x) => x.text(),
            None => None,
        },
{
    match v {
        Some(x) => match x.as_str() {
            Some(s) => Some(s.to_owned()),
            None => None,
        },
        None => None,
    }
}

/// At most the first 200 characters of `s`.
fn leading_text(s: &str) -> (r: String)
    ensures
        r@ == leading_chars(s@, 200),
{
    let cs = chars_of(s);
    if cs.len() <= 200 {
        s.to_owned()
    } else {
        let v = slice_chars(cs.as_slice(), 0, 200);
        string_of(v.as_slice())
    }
}

fn script_finding(name: &str, cmd: &str, danger: &TextPattern) -> (f: Finding)
    requires
        danger.source() == DANGEROUS_COMMAND_PATTERN@,
    ensures
        f@ == script_draft(name@, cmd@),
{
    let severity = if danger.is_match(cmd) {
        Severity::Critical
    } else {
        Severity::High
    };
    let mut title = "Lifecycle script '".to_owned();
    title.append(name);
    title.append("' detected");
    let mut description = "package.json contains a '".to_owned();
    description.append(name);
    description.append(
        "' script that runs during installation. This is a common supply-chain attack vector.",
    );
    let mut evidence = "Script '".to_owned();
    evidence.append(name);
    evidence.append("': ");
    let shown = leading_text(cmd);
    evidence.append(shown.as_str());
    Finding {
        id: String::new(),
        title: title,
        severity: severity,
        category: Category::CommandInjection,
        description: description,
        evidence: evidence,
        remediation: "Audit the lifecycle script contents. Consider using --ignore-scripts during installation.".to_owned(),
        source: FindingSource::Package,
    }
}

fn dependency_finding(name: &str, ver: &str) -> (f: Finding)
    ensures
        f@ == dependency_draft(name@, ver@),
{
    let mut title = "Non-registry dependency: ".to_owned();
    title.append(name);
    let mut description = "Dependency '".to_owned();
    description.append(name);
    description.append(
        "' is fetched from a git/URL source instead of the npm registry. This bypasses registry integrity checks.",
    );
    let mut evidence = name.to_owned();
    evidence.append(": ");
    evidence.append(ver);
    Finding {
        id: String::new(),
        title: title,
        severity: Severity::Medium,
        category: Category::ToolPoisoning,
        description: description,
        evidence: evidence,
        remediation: "Pin dependencies to registry versions with exact version numbers.".to_owned(),
        source: FindingSource::Package,
    }
}

fn unpinned_finding(name: &str, ver: &str) -> (f: Finding)
    ensures
        f@ == unpinned_draft(name@, ver@),
{
    let mut title = "Unpinned dependency: ".to_owned();
    title.append(name);
    let mut description = "Dependency '".to_owned();
    description.append(name);
    description.append(
        "' accepts a range of versions instead of one exact version. A new release can change what gets installed.",
    );
    let mut evidence = name.to_owned();
    evidence.append(": ");
    evidence.append(ver);
    Finding {
        id: String::new(),
        title: title,
        severity: Severity::Low,
        category: Category::ToolPoisoning,
        description: description,
        evidence: evidence,
        remediation: "Pin dependencies to registry versions with exact version numbers.".to_owned(),
        source: FindingSource::Package,
    }
}

/// Whether a version spec accepts a range of versions.
fn is_unpinned(ver: &str) -> (b: bool)
    ensures
        b == unpinned(ver@),
{
    let v = chars_of(ver);
    starts_with_str(v.as_slice(), "^") || starts_with_str(v.as_slice(), "~") || contains_str(
        v.as_slice(),
        "*",
    ) || contains_str(v.as_slice(), ">") || contains_str(v.as_slice(), "<") || contains_str(
        v.as_slice(),
        ".x",
    ) || contains_str(v.as_slice(), ".X") || equals_str(v.as_slice(), "x") || equals_str(
        v.as_slice(),
        "X",
    ) || equals_str(v.as_slice(), "latest")
}

fn metadata_finding(missing: &Vec<&str>) -> (f: Finding)
    ensures
        f@ == metadata_draft(missing@),
{
    let list = join_strs(missing, ", ");
    let mut description = "package.json is missing fields: ".to_owned();
    description.append(list.as_str());
    description.append(". This reduces traceability and trust.");
    let mut evidence = "Missing: ".to_owned();
    evidence.append(list.as_str());
    Finding {
        id: String::new(),
        title: "Missing package metadata".to_owned(),
        severity: Severity::Low,
        category: Category::InformationDisclosure,
        description: description,
        evidence: evidence,
        remediation: "Add license, repository, and engines fields to package.json.".to_owned(),
        source: FindingSource::Package,
    }
}

fn suspicious_finding(rel: &str, e: &str) -> (f: Finding)
    ensures
        f@ == suspicious_draft(rel@, e@),
{
    let ev = chars_of(e);
    let severity = if equals_str(ev.as_slice(), "exe") || equals_str(ev.as_slice(), "dll")
        || equals_str(ev.as_slice(), "bat") || equals_str(ev.as_slice(), "cmd") || equals_str(
        ev.as_slice(),
        "ps1",
    ) || equals_str(ev.as_slice(), "sh") {
        Severity::High
    } else if equals_str(ev.as_slice(), "node") || equals_str(ev.as_slice(), "so") || equals_str(
        ev.as_slice(),
        "dylib",
    ) {
        Severity::Medium
    } else {
        Severity::Low
    };
    let mut title = "Suspicious file: ".to_owned();
    title.append(rel);
    let mut description = "Package contains a .".to_owned();
    description.append(e);
    description.append(
        " file which may be a bundled binary or script. Native binaries in npm packages can execute arbitrary code.",
    );
    let mut evidence = "File: ".to_owned();
    evidence.append(rel);
    Finding {
        id: String::new(),
        title: title,
        severity: severity,
        category: Category::CommandInjection,
        description: description,
        evidence: evidence,
        remediation: "Audit the file contents. Prefer pure JavaScript packages without native binaries.".to_owned(),
        source: FindingSource::Package,
    }
}

fn obfuscated_finding(rel: &str) -> (f: Finding)
    ensures
        f@ == obfuscated_draft(rel@),
{
    let mut title = "Obfuscated code: ".to_owned();
    title.append(rel);
    let mut evidence = "File: ".to_owned();
    evidence.append(rel);
    Finding {
        id: String::new(),
        title: title,
        severity: Severity::High,
        category: Category::ToolPoisoning,
        description: "File contains obfuscated JavaScript. Obfuscation is commonly used to hide malicious behavior in supply-chain attacks.".to_owned(),
        evidence: evidence,
        remediation: "Deobfuscate and audit the file contents. Consider using a non-obfuscated alternative.".to_owned(),
        source: FindingSource::Package,
    }
}

fn minified_finding(rel: &str, bytes: usize, lines: usize) -> (f: Finding)
    ensures
        f@ == minified_draft(rel@, bytes as nat, lines as nat),
{
    let mut title = "Heavily minified code: ".to_owned();
    title.append(rel);
    let mut description = "File is ".to_owned();
    push_decimal(&mut description, bytes as u64);
    description.append(" bytes but only ");
    push_decimal(&mut description, lines as u64);
    description.append(
        " line(s). Extreme minification makes code review difficult and may hide malicious logic.",
    );
    let mut evidence = "File: ".to_owned();
    evidence.append(rel);
    evidence.append(" (");
    push_decimal(&mut evidence, bytes as u64);
    evidence.append(" bytes, ");
    push_decimal(&mut evidence, lines as u64);
    evidence.append(" lines)");
    Finding {
        id: String::new(),
        title: title,
        severity: Severity::Medium,
        category: Category::ToolPoisoning,
        description: description,
        evidence: evidence,
        remediation: "Prefer unminified source or vendor a readable copy for audit.".to_owned(),
        source: FindingSource::Package,
    }
}

/// Appends the findings of a parsed manifest to `out`, numbered after
/// `start`; `false`, part-way, once the counter would pass `u32::MAX`.
fn append_manifest_findings(
    value: &JsonValue,
    danger: &TextPattern,
    out: &mut Vec<Finding>,
    counter: &mut u32,
    Ghost(start): Ghost<nat>,
    Ghost(done): Ghost<Seq<FindingView>>,
) -> (ok: bool)
    requires
        danger.source() == DANGEROUS_COMMAND_PATTERN@,
        *old(counter) == start + done.len(),
        finding_views(old(out)@) == numbered_from(done, package_prefix(), start),
    ensures
        ok ==> *final(counter) == start + done.len() + manifest_drafts(*value).len(),
        ok ==> finding_views(final(out)@) == numbered_from(
            done + manifest_drafts(*value),
            package_prefix(),
            start,
        ),
        !ok ==> start + done.len() + manifest_drafts(*value).len() > u32::MAX,
{
    let ghost mut acc = done;
    let ghost scripts_all = script_drafts(scripts_of(*value), lifecycle_scripts());
    let ghost sections_all = section_drafts(*value, dependency_sections());
    let ghost missing_all = missing_fields(*value, metadata_fields());
    proof {
        assert(manifest_drafts(*value).len() >= scripts_all.len() + sections_all.len());
    }
    // Lifecycle scripts.
    let names = vec!["preinstall", "postinstall", "preuninstall", "postuninstall", "prepare", "prepublish"];
    assert(names@ == lifecycle_scripts());
    let scripts = match value.get("scripts") {
        Some(s) => s.as_object(),
        None => None,
    };
    let ghost sv = scripts_of(*value);
    assert(sv == match scripts {
        Some(e) => Some(e@),
        None => None::<Seq<(String, JsonValue)>>,
    });
    let nn = names.len();
    proof {
        assert(names@.take(0) =~= Seq::<&str>::empty());
        assert(acc + script_drafts(sv, names@.take(0)) =~= acc);
    }
    for k in 0..nn
        invariant
            nn == names@.len(),
            names@ == lifecycle_scripts(),
            danger.source() == DANGEROUS_COMMAND_PATTERN@,
            sv == match scripts {
                Some(e) => Some(e@),
                None => None::<Seq<(String, JsonValue)>>,
            },
            sv == scripts_of(*value),
            scripts_all == script_drafts(sv, lifecycle_scripts()),
            manifest_drafts(*value).len() >= scripts_all.len(),
            acc == done + script_drafts(sv, names@.take(k as int)),
            *counter == start + acc.len(),
            finding_views(out@) == numbered_from(acc, package_prefix(), start),
    {
        let ghost before = acc;
        proof {
            assert(names@.take(k + 1).drop_last() =~= names@.take(k as int));
            assert(names@.take(k + 1).last() == names@[k as int]);
        }
        let name = names[k];
        if let Some(entries) = scripts {
            if let Some(v) = lookup_entry(entries, name) {
                if let Some(cmd) = v.as_str() {
                    let d = script_finding(name, cmd, danger);
                    if *counter == u32::MAX {
                        proof {
                            assert(script_drafts(sv, names@.take(k + 1)) == script_drafts(
                                sv,
                                names@.take(k as int),
                            ).push(d@));
                            lemma_script_drafts_prefix(sv, names@, k + 1);
                        }
                        return false;
                    }
                    proof {
                        lemma_numbered_from_push(acc, d@, package_prefix(), start);
                    }
                    push_numbered(out, counter, "KRYSTA-PKG-", d);
                    proof {
                        acc = acc.push(d@);
                    }
                }
            }
        }
        proof {
            assert(acc =~= done + script_drafts(sv, names@.take(k + 1)));
        }
    }
    proof {
        assert(names@.take(nn as int) =~= names@);
    }
    let ghost after_scripts = acc;
    // Dependencies fetched from outside the registry or on version ranges.
    let sections = vec!["dependencies", "devDependencies", "optionalDependencies"];
    assert(sections@ == dependency_sections());
    let ns = sections.len();
    proof {
        assert(sections@.take(0) =~= Seq::<&str>::empty());
        assert(after_scripts + section_drafts(*value, sections@.take(0)) =~= after_scripts);
    }
    for si in 0..ns
        invariant
            ns == sections@.len(),
            sections@ == dependency_sections(),
            after_scripts == done + scripts_all,
            sections_all == section_drafts(*value, dependency_sections()),
            manifest_drafts(*value).len() >= scripts_all.len() + sections_all.len(),
            acc == after_scripts + section_drafts(*value, sections@.take(si as int)),
            *counter == start + acc.len(),
            finding_views(out@) == numbered_from(acc, package_prefix(), start),
    {
        proof {
            assert(sections@.take(si + 1).drop_last() =~= sections@.take(si as int));
            assert(sections@.take(si + 1).last() == sections@[si as int]);
        }
        let section = sections[si];
        let ghost es: Seq<(String, JsonValue)> = section_entries(*value, section@);
        let ghost base = acc;
        let empty: Vec<(String, JsonValue)> = Vec::new();
        let entries: &Vec<(String, JsonValue)> = match value.get(section) {
            Some(d) => match d.as_object() {
                Some(e) => e,
                None => &empty,
            },
            None => &empty,
        };
        assert(entries@ == es);
        proof {
            assert(section_drafts(*value, sections@.take(si + 1)) == section_drafts(
                *value,
                sections@.take(si as int),
            ) + entries_drafts(es));
        }
        let ne = entries.len();
        proof {
            assert(es.take(0) =~= Seq::<(String, JsonValue)>::empty());
            assert(base + entries_drafts(es.take(0)) =~= base);
        }
        for j in 0..ne
            invariant
                ne == entries@.len(),
                entries@ == es,
                es == section_entries(*value, sections@[si as int]@),
                si < ns,
                ns == sections@.len(),
                sections@ == dependency_sections(),
                after_scripts == done + scripts_all,
                sections_all == section_drafts(*value, dependency_sections()),
                manifest_drafts(*value).len() >= scripts_all.len() + sections_all.len(),
                base == after_scripts + section_drafts(*value, sections@.take(si as int)),
                section_drafts(*value, sections@.take(si + 1)) == section_drafts(
                    *value,
                    sections@.take(si as int),
                ) + entries_drafts(es),
                acc == base + entries_drafts(es.take(j as int)),
                *counter == start + acc.len(),
                finding_views(out@) == numbered_from(acc, package_prefix(), start),
        {
            proof {
                assert(es.take(j + 1).drop_last() =~= es.take(j as int));
                assert(es.take(j + 1).last() == es[j as int]);
            }
            let entry = &entries[j];
            let ver = text_of(&entry.1);
            let mut found: Option<Finding> = None;
            if str_starts_with(ver, "git") || str_starts_with(ver, "http") || str_contains(
                ver,
                "github",
            ) {
                found = Some(dependency_finding(entry.0.as_str(), ver));
            } else if is_unpinned(ver) {
                found = Some(unpinned_finding(entry.0.as_str(), ver));
            }
            proof {
                assert(entries_drafts(es.take(j + 1)) == entries_drafts(es.take(j as int))
                    + dependency_drafts(es[j as int].0@, version_text(es[j as int].1)));
                assert(match found {
                    Some(d) => dependency_drafts(es[j as int].0@, version_text(es[j as int].1))
                        == seq![d@],
                    None => dependency_drafts(es[j as int].0@, version_text(es[j as int].1))
                        == Seq::<FindingView>::empty(),
                });
            }
            if let Some(d) = found {
                if *counter == u32::MAX {
                    proof {
                        lemma_entries_drafts_prefix(es, j + 1);
                        lemma_section_drafts_prefix(*value, dependency_sections(), si + 1);
                    }
                    return false;
                }
                proof {
                    lemma_numbered_from_push(acc, d@, package_prefix(), start);
                }
                push_numbered(out, counter, "KRYSTA-PKG-", d);
                proof {
                    acc = acc.push(d@);
                }
            }
            proof {
                assert(acc =~= base + entries_drafts(es.take(j + 1)));
            }
        }
        proof {
            assert(es.take(ne as int) =~= es);
            assert(acc =~= after_scripts + section_drafts(*value, sections@.take(si + 1)));
        }
    }
    proof {
        assert(sections@.take(ns as int) =~= sections@);
    }
    // Missing metadata.
    let fields = vec!["license", "repository", "engines"];
    assert(fields@ == metadata_fields());
    let mut missing: Vec<&str> = Vec::new();
    let nf = fields.len();
    assert(fields@.take(0) =~= Seq::<&str>::empty());
    for fi in 0..nf
        invariant
            nf == fields@.len(),
            fields@ == metadata_fields(),
            missing@ == missing_fields(*value, fields@.take(fi as int)),
    {
        proof {
            assert(fields@.take(fi + 1).drop_last() =~= fields@.take(fi as int));
            assert(fields@.take(fi + 1).last() == fields@[fi as int]);
        }
        if value.get(fields[fi]).is_none() {
            missing.push(fields[fi]);
        }
    }
    proof {
        assert(fields@.take(nf as int) =~= fields@);
    }
    if missing.len() > 0 {
        let d = metadata_finding(&missing);
        if *counter == u32::MAX {
            proof {
                assert(manifest_drafts(*value).len() == scripts_all.len() + sections_all.len() + 1);
            }
            return false;
        }
        proof {
            lemma_numbered_from_push(acc, d@, package_prefix(), start);
        }
        push_numbered(out, counter, "KRYSTA-PKG-", d);
        proof {
            acc = acc.push(d@);
        }
    }
    proof {
        assert(acc =~= done + manifest_drafts(*value));
    }
    true
}

/// Appends the suspicious-file findings of `files` to `out`, numbered after `start`.
fn append_suspicious_findings(
    files: &Vec<WalkedFile>,
    out: &mut Vec<Finding>,
    counter: &mut u32,
    Ghost(start): Ghost<nat>,
    Ghost(done): Ghost<Seq<FindingView>>,
) -> (ok: bool)
    requires
        *old(counter) == start + done.len(),
        finding_views(old(out)@) == numbered_from(done, package_prefix(), start),
    ensures
        ok ==> *final(counter) == start + done.len() + suspicious_drafts(files@).len(),
        ok ==> finding_views(final(out)@) == numbered_from(
            done + suspicious_drafts(files@),
            package_prefix(),
            start,
        ),
        !ok ==> start + done.len() + suspicious_drafts(files@).len() > u32::MAX,
{
    let ghost mut acc = done;
    let n = files.len();
    proof {
        assert(files@.take(0) =~= Seq::<WalkedFile>::empty());
        assert(acc + suspicious_drafts(files@.take(0)) =~= acc);
    }
    for i in 0..n
        invariant
            n == files@.len(),
            acc == done + suspicious_drafts(files@.take(i as int)),
            *counter == start + acc.len(),
            finding_views(out@) == numbered_from(acc, package_prefix(), start),
    {
        proof {
            assert(files@.take(i + 1).drop_last() =~= files@.take(i as int));
            assert(files@.take(i + 1).last() == files@[i as int]);
        }
        let f = &files[i];
        let ext = file_extension(f.file_name.as_str());
        let ext_text = string_of(ext.as_slice());
        let lower = str_to_lowercase(ext_text.as_str());
        let lv = chars_of(lower.as_str());
        if equals_str(lv.as_slice(), "exe") || equals_str(lv.as_slice(), "dll") || equals_str(
            lv.as_slice(),
            "so",
        ) || equals_str(lv.as_slice(), "dylib") || equals_str(lv.as_slice(), "bat") || equals_str(
            lv.as_slice(),
            "cmd",
        ) || equals_str(lv.as_slice(), "ps1") || equals_str(lv.as_slice(), "sh") || equals_str(
            lv.as_slice(),
            "node",
        ) || equals_str(lv.as_slice(), "wasm") {
            let d = suspicious_finding(f.relative_path.as_str(), lower.as_str());
            if *counter == u32::MAX {
                proof {
                    assert(suspicious_drafts(files@.take(i + 1)) == suspicious_drafts(
                        files@.take(i as int),
                    ).push(d@));
                    lemma_suspicious_prefix(files@, i + 1);
                }
                return false;
            }
            proof {
                lemma_numbered_from_push(acc, d@, package_prefix(), start);
            }
            push_numbered(out, counter, "KRYSTA-PKG-", d);
            proof {
                acc = acc.push(d@);
            }
        }
        proof {
            assert(acc =~= done + suspicious_drafts(files@.take(i + 1)));
        }
    }
    proof {
        assert(files@.take(n as int) =~= files@);
    }
    true
}

/// Appends the obfuscation findings of `files` to `out`, numbered after `start`.
fn append_obfuscation_findings(
    files: &Vec<WalkedFile>,
    obfuscation: &TextPattern,
    out: &mut Vec<Finding>,
    counter: &mut u32,
    Ghost(start): Ghost<nat>,
    Ghost(done): Ghost<Seq<FindingView>>,
) -> (ok: bool)
    requires
        obfuscation.source() == OBFUSCATION_PATTERN@,
        *old(counter) == start + done.len(),
        finding_views(old(out)@) == numbered_from(done, package_prefix(), start),
    ensures
        ok ==> *final(counter) == start + done.len() + obfuscation_drafts(files@).len(),
        ok ==> finding_views(final(out)@) == numbered_from(
            done + obfuscation_drafts(files@),
            package_prefix(),
            start,
        ),
        !ok ==> start + done.len() + obfuscation_drafts(files@).len() > u32::MAX,
{
    let ghost mut acc = done;
    let n = files.len();
    proof {
        assert(files@.take(0) =~= Seq::<WalkedFile>::empty());
        assert(acc + obfuscation_drafts(files@.take(0)) =~= acc);
    }
    for i in 0..n
        invariant
            n == files@.len(),
            obfuscation.source() == OBFUSCATION_PATTERN@,
            acc == done + obfuscation_drafts(files@.take(i as int)),
            *counter == start + acc.len(),
            finding_views(out@) == numbered_from(acc, package_prefix(), start),
    {
        proof {
            assert(files@.take(i + 1).drop_last() =~= files@.take(i as int));
            assert(files@.take(i + 1).last() == files@[i as int]);
        }
        let ghost base = acc;
        let f = &files[i];
        let ext = file_extension(f.file_name.as_str());
        if is_script_extension(ext.as_slice()) {
            if let Some(c) = &f.content {
                if obfuscation.is_match(c.as_str()) {
                    let d = obfuscated_finding(f.relative_path.as_str());
                    if *counter == u32::MAX {
                        proof {
                            assert(file_obfuscation_drafts(files@[i as int]).len() >= 1);
                            assert(obfuscation_drafts(files@.take(i + 1)) == obfuscation_drafts(
                                files@.take(i as int),
                            ) + file_obfuscation_drafts(files@[i as int]));
                            lemma_obfuscation_prefix(files@, i + 1);
                        }
                        return false;
                    }
                    proof {
                        lemma_numbered_from_push(acc, d@, package_prefix(), start);
                    }
                    push_numbered(out, counter, "KRYSTA-PKG-", d);
                    proof {
                        acc = acc.push(d@);
                    }
                }
                let cs = chars_of(c.as_str());
                let lines = split_lines(cs.as_slice());
                let line_count = lines.len();
                let total_len = c.as_str().len();
                proof {
                    assert(crate::text::views(lines@).len() == lines@.len());
                    assert(line_count == lines_of(c@).len());
                    assert(total_len == byte_len(c@));
                }
                if line_count <= 3 && total_len > 50_000 {
                    let d = minified_finding(f.relative_path.as_str(), total_len, line_count);
                    if *counter == u32::MAX {
                        proof {
                            assert(file_obfuscation_drafts(files@[i as int]).len() == acc.len()
                                - base.len() + 1);
                            assert(obfuscation_drafts(files@.take(i + 1)) == obfuscation_drafts(
                                files@.take(i as int),
                            ) + file_obfuscation_drafts(files@[i as int]));
                            lemma_obfuscation_prefix(files@, i + 1);
                        }
                        return false;
                    }
                    proof {
                        lemma_numbered_from_push(acc, d@, package_prefix(), start);
                    }
                    push_numbered(out, counter, "KRYSTA-PKG-", d);
                    proof {
                        acc = acc.push(d@);
                    }
                }
            }
        }
        proof {
            assert(acc =~= done + obfuscation_drafts(files@.take(i + 1)));
        }
    }
    proof {
        assert(files@.take(n as int) =~= files@);
    }
    true
}

impl PackageAnalyzer {
    /// The npm package that a server runs: for an `npx`/`npm` command, the
    /// first argument that names a package.
    pub fn extract_package(server: &McpServer) -> (r: Option<String>)
        ensures
            opt_text(r) == server_package(*server),
    {
        let command = match &server.command {
            Some(c) => c,
            None => return None,
        };
        let cv = chars_of(command.as_str());
        if !equals_str(cv.as_slice(), "npx") && !equals_str(cv.as_slice(), "npx.cmd")
            && !equals_str(cv.as_slice(), "npm") && !equals_str(cv.as_slice(), "npm.cmd") {
            return None;
        }
        let n = server.args.len();
        let ghost args = server.args@;
        assert(args.skip(0) =~= args);
        for i in 0..n
            invariant
                n == args.len(),
                args == server.args@,
                npm_launcher(command@),
                server.command == Some(*command),
                server_package(*server) == first_package_argument(args.skip(i as int)),
        {
            proof {
                assert(args.skip(i as int).drop_first() =~= args.skip(i + 1));
                assert(args.skip(i as int)[0] == args[i as int]);
            }
            let arg = &server.args[i];
            let av = chars_of(arg.as_str());
            if !crate::text::starts_with_str(av.as_slice(), "-") && !equals_str(av.as_slice(), "run") {
                if crate::text::starts_with_str(av.as_slice(), "@") || crate::text::contains_str(
                    av.as_slice(),
                    "/",
                ) {
                    return Some(arg.clone());
                }
                if !crate::text::contains_str(av.as_slice(), ".") && av.len() > 0 && !equals_str(
                    av.as_slice(),
                    "-y",
                ) && !equals_str(av.as_slice(), "--yes") {
                    return Some(arg.clone());
                }
            }
        }
        None
    }

    /// What `npm view <package> --json` printed, read: the version (empty
    /// when absent), the repository URL (from an object's `url` or a plain
    /// string), the homepage and the tarball URL under `dist`.
    pub fn package_info(package: &str, value: &JsonValue) -> (r: PackageInfo)
        ensures
            describes(r, package@, *value),
    {
        let version = match value.get("version") {
            Some(v) => match v.as_str() {
                Some(s) => s.to_owned(),
                None => String::new(),
            },
            None => String::new(),
        };
        let homepage = optional_text(value.get("homepage"));
        let repository = match value.get("repository") {
            Some(rep) => if rep.is_object() {
                optional_text(rep.get("url"))
            } else {
                optional_text(Some(rep))
            },
            None => None,
        };
        let tarball = match value.get("dist") {
            Some(dist) => optional_text(dist.get("tarball")),
            None => None,
        };
        PackageInfo {
            package: package.to_owned(),
            version: version,
            repository: repository,
            homepage: homepage,
            tarball: tarball,
        }
    }

    /// What the output of `npm view <package> --json` says of `package`; an
    /// error when the output is not JSON.
    pub fn npm_package_info(package: &str, npm_output: &str) -> (r: Result<PackageInfo, ScanError>)
        ensures
            match json_parsed(npm_output@) {
                Some(v) => r matches Ok(i) && describes(i, package@, v),
                None => r matches Err(ScanError::Malformed(_)),
            },
    {
        match parse_json(npm_output) {
            Ok(v) => Ok(Self::package_info(package, &v)),
            Err(e) => Err(ScanError::Malformed(e)),
        }
    }

    /// The findings of a package's `package.json`, numbered after `counter`
    /// with the prefix `KRYSTA-PKG-`. An absent manifest yields nothing; an
    /// unreadable or malformed one is an error; so is a refused regex, and so
    /// are more findings than the counter can number.
    pub fn check_package_json(manifest: &PackageManifest, counter: &mut u32) -> (r: Result<
        Vec<Finding>,
        ScanError,
    >)
        ensures
            match *manifest {
                PackageManifest::Absent => r matches Ok(fs) && fs@.len() == 0 && *final(counter)
                    == *old(counter),
                PackageManifest::Unreadable(m) => r matches Err(ScanError::Unreadable(e)) && e@
                    == m@,
                PackageManifest::Read(t) => match json_parsed(t@) {
                    None => r matches Err(ScanError::Malformed(_)),
                    Some(v) => if !regex_compiles(DANGEROUS_COMMAND_PATTERN@) {
                        r matches Err(ScanError::InvalidPattern(p)) && p@
                            == DANGEROUS_COMMAND_PATTERN@
                    } else if *old(counter) + manifest_drafts(v).len() > u32::MAX {
                        r matches Err(ScanError::TooManyFindings)
                    } else {
                        r matches Ok(fs) && finding_views(fs@) == numbered_from(
                            manifest_drafts(v),
                            package_prefix(),
                            *old(counter) as nat,
                        ) && *final(counter) == *old(counter) + fs@.len()
                    },
                },
            },
    {
        let mut out: Vec<Finding> = Vec::new();
        match manifest {
            PackageManifest::Absent => {
                assert(out@.len() == 0);
                Ok(out)
            },
            PackageManifest::Unreadable(m) => Err(ScanError::Unreadable(m.clone())),
            PackageManifest::Read(t) => {
                let parsed = match parse_json(t.as_str()) {
                    Ok(v) => v,
                    Err(e) => return Err(ScanError::Malformed(e)),
                };
                let v = &parsed;
                let danger = match TextPattern::compile(DANGEROUS_COMMAND_PATTERN) {
                    Some(p) => p,
                    None => return Err(ScanError::InvalidPattern(DANGEROUS_COMMAND_PATTERN.to_owned())),
                };
                let ghost start = *counter as nat;
                proof {
                    assert(finding_views(out@) =~= numbered_from(Seq::<FindingView>::empty(), package_prefix(), start));
                    assert(Seq::<FindingView>::empty() + manifest_drafts(*v) =~= manifest_drafts(*v));
                }
                if !append_manifest_findings(v, &danger, &mut out, counter, Ghost(start), Ghost(Seq::<FindingView>::empty())) {
                    return Err(ScanError::TooManyFindings);
                }
                assert(finding_views(out@).len() == out@.len());
                Ok(out)
            },
        }
    }

    /// The suspicious-file findings of a package's files, numbered after
    /// `counter` with the prefix `KRYSTA-PKG-`: files whose lowercased
    /// extension marks a binary or script. Fails when there are more than
    /// the counter can number.
    pub fn check_suspicious_files(files: &Vec<WalkedFile>, counter: &mut u32) -> (r: Result<
        Vec<Finding>,
        ScanError,
    >)
        ensures
            *old(counter) + suspicious_drafts(files@).len() > u32::MAX ==> (r matches Err(
                ScanError::TooManyFindings,
            )),
            *old(counter) + suspicious_drafts(files@).len() <= u32::MAX ==> (r matches Ok(fs)
                && finding_views(fs@) == numbered_from(
                suspicious_drafts(files@),
                package_prefix(),
                *old(counter) as nat,
            ) && *final(counter) == *old(counter) + fs@.len()),
    {
        let mut out: Vec<Finding> = Vec::new();
        let ghost start = *counter as nat;
        proof {
            assert(finding_views(out@) =~= numbered_from(Seq::<FindingView>::empty(), package_prefix(), start));
            assert(Seq::<FindingView>::empty() + suspicious_drafts(files@) =~= suspicious_drafts(files@));
        }
        if !append_suspicious_findings(files, &mut out, counter, Ghost(start), Ghost(Seq::<FindingView>::empty())) {
            return Err(ScanError::TooManyFindings);
        }
        assert(finding_views(out@).len() == out@.len());
        Ok(out)
    }

    /// The obfuscation findings of a package's scripts, numbered after
    /// `counter` with the prefix `KRYSTA-PKG-`; an error if the regex is
    /// refused or there are more findings than the counter can number.
    pub fn check_obfuscated_code(files: &Vec<WalkedFile>, counter: &mut u32) -> (r: Result<
        Vec<Finding>,
        ScanError,
    >)
        ensures
            !regex_compiles(OBFUSCATION_PATTERN@) ==> (r matches Err(ScanError::InvalidPattern(p))
                && p@ == OBFUSCATION_PATTERN@),
            regex_compiles(OBFUSCATION_PATTERN@) && *old(counter) + obfuscation_drafts(files@).len()
                > u32::MAX ==> (r matches Err(ScanError::TooManyFindings)),
            regex_compiles(OBFUSCATION_PATTERN@) && *old(counter) + obfuscation_drafts(files@).len()
                <= u32::MAX ==> (r matches Ok(fs) && finding_views(fs@) == numbered_from(
                obfuscation_drafts(files@),
                package_prefix(),
                *old(counter) as nat,
            ) && *final(counter) == *old(counter) + fs@.len()),
    {
        let obfuscation = match TextPattern::compile(OBFUSCATION_PATTERN) {
            Some(p) => p,
            None => return Err(ScanError::InvalidPattern(OBFUSCATION_PATTERN.to_owned())),
        };
        let mut out: Vec<Finding> = Vec::new();
        let ghost start = *counter as nat;
        proof {
            assert(finding_views(out@) =~= numbered_from(Seq::<FindingView>::empty(), package_prefix(), start));
            assert(Seq::<FindingView>::empty() + obfuscation_drafts(files@) =~= obfuscation_drafts(files@));
        }
        if !append_obfuscation_findings(files, &obfuscation, &mut out, counter, Ghost(start), Ghost(Seq::<FindingView>::empty())) {
            return Err(ScanError::TooManyFindings);
        }
        assert(finding_views(out@).len() == out@.len());
        Ok(out)
    }

    /// Audits a package: its manifest, then its files as possible binaries,
    /// then its scripts for obfuscation, numbered from one with the prefix
    /// `KRYSTA-PKG-`. The first check that fails makes the whole audit fail;
    /// running out of numbers for the findings is a failure too.
    pub fn inspect_package_contents(manifest: &PackageManifest, files: &Vec<WalkedFile>) -> (r:
        Result<Vec<Finding>, ScanError>)
        ensures
            match *manifest {
                PackageManifest::Unreadable(m) => r matches Err(ScanError::Unreadable(e)) && e@
                    == m@,
                _ => if manifest is Read && parsed_manifest(*manifest) is None {
                    r matches Err(ScanError::Malformed(_))
                } else if parsed_manifest(*manifest) is Some && !regex_compiles(
                    DANGEROUS_COMMAND_PATTERN@,
                ) {
                    r matches Err(ScanError::InvalidPattern(p)) && p@
                        == DANGEROUS_COMMAND_PATTERN@
                } else if manifest_yield(*manifest).len() + suspicious_drafts(files@).len()
                    > u32::MAX {
                    r matches Err(ScanError::TooManyFindings)
                } else if !regex_compiles(OBFUSCATION_PATTERN@) {
                    r matches Err(ScanError::InvalidPattern(p)) && p@ == OBFUSCATION_PATTERN@
                } else if manifest_yield(*manifest).len() + suspicious_drafts(files@).len()
                    + obfuscation_drafts(files@).len() > u32::MAX {
                    r matches Err(ScanError::TooManyFindings)
                } else {
                    r matches Ok(fs) && finding_views(fs@) == numbered(
                        manifest_yield(*manifest) + suspicious_drafts(files@)
                            + obfuscation_drafts(files@),
                        package_prefix(),
                    )
                },
            },
    {
        let mut out: Vec<Finding> = Vec::new();
        let mut counter: u32 = 0;
        let ghost mut acc: Seq<FindingView> = Seq::empty();
        proof {
            assert(finding_views(out@) =~= numbered(acc, package_prefix()));
        }
        match manifest {
            PackageManifest::Absent => {},
            PackageManifest::Unreadable(m) => return Err(ScanError::Unreadable(m.clone())),
            PackageManifest::Read(t) => {
                let parsed = match parse_json(t.as_str()) {
                    Ok(v) => v,
                    Err(e) => return Err(ScanError::Malformed(e)),
                };
                let v = &parsed;
                let danger = match TextPattern::compile(DANGEROUS_COMMAND_PATTERN) {
                    Some(p) => p,
                    None => return Err(ScanError::InvalidPattern(DANGEROUS_COMMAND_PATTERN.to_owned())),
                };
                if !append_manifest_findings(v, &danger, &mut out, &mut counter, Ghost(0), Ghost(acc)) {
                    return Err(ScanError::TooManyFindings);
                }
                proof {
                    acc = acc + manifest_drafts(*v);
                }
            },
        }
        proof {
            assert(acc =~= manifest_yield(*manifest));
        }
        if !append_suspicious_findings(files, &mut out, &mut counter, Ghost(0), Ghost(acc)) {
            return Err(ScanError::TooManyFindings);
        }
        proof {
            acc = acc + suspicious_drafts(files@);
        }
        let obfuscation = match TextPattern::compile(OBFUSCATION_PATTERN) {
            Some(p) => p,
            None => return Err(ScanError::InvalidPattern(OBFUSCATION_PATTERN.to_owned())),
        };
        if !append_obfuscation_findings(files, &obfuscation, &mut out, &mut counter, Ghost(0), Ghost(acc)) {
            return Err(ScanError::TooManyFindings);
        }
        proof {
            acc = acc + obfuscation_drafts(files@);
        }
        Ok(out)
    }
}

} // verus!
