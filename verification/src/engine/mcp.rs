//! MCP servers as they are declared in client configuration files, and the
//! rules by which configuration files are recognized and read.
use vstd::prelude::*;

use crate::text::{has_substring, str_contains};

verus! {

/// How a client talks to an MCP server.
#[derive(Clone, Copy, Debug, PartialEq, Eq, Structural)]
pub enum TransportType {
    Stdio,
    Sse,
    Http,
    Unknown,
}

/// An MCP server found in a configuration file.
#[derive(Clone, Debug)]
pub struct McpServer {
    pub name: String,
    pub transport: TransportType,
    pub command: Option<String>,
    pub args: Vec<String>,
    pub url: Option<String>,
    /// The configuration file that declares the server.
    pub config_source: String,
}

/// One entry of the `mcpServers` object of a configuration file.
pub struct ServerConfig {
    pub command: Option<String>,
    pub args: Vec<String>,
    /// The declared `type`; the transport is decided by `url` and `command` alone.
    pub server_type: Option<String>,
    pub url: Option<String>,
}

/// A configuration file: its `mcpServers` entries, in the order read.
pub struct ClaudeConfig {
    pub mcp_servers: Option<Vec<(String, ServerConfig)>>,
}

/// The transport of a declared server: SSE where a URL is given, else stdio
/// where a command is given, else unknown.
pub open spec fn transport_for(has_command: bool, has_url: bool) -> TransportType {
    if has_url {
        TransportType::Sse
    } else if has_command {
        TransportType::Stdio
    } else {
        TransportType::Unknown
    }
}

/// A file that is read as an MCP configuration file, given its path below
/// the searched directory (`/`-separated) and its name: the name contains
/// that of the desktop app's or the MCP settings file, or the path contains
/// the Cursor or VS Code configuration path.
pub open spec fn config_file(path: Seq<char>, name: Seq<char>) -> bool {
    ||| has_substring(name, "claude_desktop_config.json"@)
    ||| has_substring(path, ".cursor/mcp.json"@)
    ||| has_substring(name, "mcp_settings.json"@)
    ||| has_substring(path, ".vscode/mcp.json"@)
}

/// The server that `entry` of the configuration file `source` declares.
pub open spec fn declared_server(s: McpServer, entry: (String, ServerConfig), source: Seq<char>) -> bool {
    &&& s.name@ == entry.0@
    &&& s.transport == transport_for(entry.1.command is Some, entry.1.url is Some)
    &&& s.command == entry.1.command
    &&& s.args@ == entry.1.args@
    &&& s.url == entry.1.url
    &&& s.config_source@ == source
}

/// The files read as configuration files: one named like the desktop app's
/// `claude_desktop_config.json` or like `mcp_settings.json`, and one at a
/// `.cursor/mcp.json` or `.vscode/mcp.json` path; no other `.json` file of
/// the tree, such as `package.json` or a bare `mcp.json`, is read.
pub proof fn lemma_config_files(path: Seq<char>, name: Seq<char>)
    ensures
        has_substring(name, "claude_desktop_config.json"@) ==> config_file(path, name),
        has_substring(name, "mcp_settings.json"@) ==> config_file(path, name),
        has_substring(path, ".cursor/mcp.json"@) ==> config_file(path, name),
        has_substring(path, ".vscode/mcp.json"@) ==> config_file(path, name),
        path == "package.json"@ && name == "package.json"@ ==> !config_file(path, name),
{
    reveal_strlit("package.json");
    reveal_strlit("claude_desktop_config.json");
    reveal_strlit("mcp_settings.json");
    reveal_strlit(".cursor/mcp.json");
    reveal_strlit(".vscode/mcp.json");
    if path == "package.json"@ && name == "package.json"@ {
        assert(!has_substring(name, "claude_desktop_config.json"@));
        assert(!has_substring(name, "mcp_settings.json"@));
        assert(!has_substring(path, ".cursor/mcp.json"@));
        assert(!has_substring(path, ".vscode/mcp.json"@));
    }
}

/// A declared server talks SSE when a URL is given, otherwise stdio when a
/// command is given, and its transport is unknown when neither is.
pub proof fn lemma_transport_rule(has_command: bool, has_url: bool)
    ensures
        has_url ==> transport_for(has_command, has_url) == TransportType::Sse,
        !has_url && has_command ==> transport_for(has_command, has_url) == TransportType::Stdio,
        !has_url && !has_command ==> transport_for(has_command, has_url) == TransportType::Unknown,
{
}

/// Copies a list of strings.
pub fn copy_strings(v: &Vec<String>) -> (r: Vec<String>)
    ensures
        r@ == v@,
{
    let mut r: Vec<String> = Vec::new();
    let n = v.len();
    for i in 0..n
        invariant
            n == v@.len(),
            r@ == v@.take(i as int),
    {
        r.push(v[i].clone());
        assert(r@ =~= v@.take(i + 1));
    }
    assert(v@.take(n as int) =~= v@);
    r
}

/// Copies an optional string.
pub fn copy_option(o: &Option<String>) -> (r: Option<String>)
    ensures
        r == *o,
{
    match o {
        Some(s) => Some(s.clone()),
        None => None,
    }
}

/// Searches a directory tree for MCP configuration files.
pub struct McpDiscovery {
    root_path: String,
}

impl McpDiscovery {
    /// The directory searched.
    pub closed spec fn root(&self) -> Seq<char> {
        self.root_path@
    }

    /// A search rooted at `path`.
    pub fn new(path: &str) -> (d: Self)
        ensures
            d.root() == path@,
    {
        McpDiscovery { root_path: path.to_owned() }
    }

    /// The directory searched.
    pub fn root_path(&self) -> (p: &str)
        ensures
            p@ == self.root(),
    {
        self.root_path.as_str()
    }

    /// Whether the file named `file_name`, at `relative_path` below the
    /// searched directory (with `/` between components), is read as a
    /// configuration file.
    pub fn is_config_file(relative_path: &str, file_name: &str) -> (b: bool)
        ensures
            b == config_file(relative_path@, file_name@),
    {
        str_contains(file_name, "claude_desktop_config.json") || str_contains(
            relative_path,
            ".cursor/mcp.json",
        ) || str_contains(file_name, "mcp_settings.json") || str_contains(
            relative_path,
            ".vscode/mcp.json",
        )
    }

    /// The servers that a configuration file declares, one per entry of
    /// `mcpServers`, in order; none where it has no such object.
    pub fn servers_from_config(config: &ClaudeConfig, source: &str) -> (r: Vec<McpServer>)
        ensures
            match config.mcp_servers {
                None => r@.len() == 0,
                Some(entries) => r@.len() == entries@.len() && forall|i: int|
                    0 <= i < entries@.len() ==> declared_server(r@[i], entries@[i], source@),
            },
    {
        let mut servers: Vec<McpServer> = Vec::new();
        match &config.mcp_servers {
            None => {},
            Some(entries) => {
                let n = entries.len();
                for i in 0..n
                    invariant
                        n == entries@.len(),
                        servers@.len() == i,
                        forall|j: int|
                            0 <= j < i ==> declared_server(servers@[j], entries@[j], source@),
                {
                    let entry = &entries[i];
                    let cfg = &entry.1;
                    let transport = if cfg.url.is_some() {
                        TransportType::Sse
                    } else if cfg.command.is_some() {
                        TransportType::Stdio
                    } else {
                        TransportType::Unknown
                    };
                    servers.push(
                        McpServer {
                            name: entry.0.clone(),
                            transport: transport,
                            command: copy_option(&cfg.command),
                            args: copy_strings(&cfg.args),
                            url: copy_option(&cfg.url),
                            config_source: source.to_owned(),
                        },
                    );
                }
            },
        }
        servers
    }
}

} // verus!
