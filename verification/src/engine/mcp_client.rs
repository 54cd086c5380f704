//! The JSON-RPC messages exchanged with an MCP server over stdio, and the
//! decisions of the client: which executable to start, which lines of the
//! server's output answer a request, and what an answer means.
//!
//! The process, the pipes and the JSON encoding are handled outside.
use vstd::prelude::*;

use crate::json::{json_parsed, parse_json, JsonValue};
use crate::text::{chars_of, equals_str, push_signed_decimal, signed_decimal, str_trim, trimmed};

verus! {

/// A JSON-RPC request.
pub struct JsonRpcRequest<T> {
    pub jsonrpc: &'static str,
    pub id: u64,
    pub method: String,
    pub params: T,
}

impl<T> JsonRpcRequest<T> {
    /// A JSON-RPC 2.0 request.
    pub fn new(id: u64, method: &str, params: T) -> (r: Self)
        ensures
            r.jsonrpc@ == "2.0"@,
            r.id == id,
            r.method@ == method@,
            r.params == params,
    {
        JsonRpcRequest { jsonrpc: "2.0", id: id, method: method.to_owned(), params: params }
    }
}

/// A JSON-RPC error object.
pub struct JsonRpcError {
    pub code: i64,
    pub message: String,
}

/// A JSON-RPC response.
pub struct JsonRpcResponse<T> {
    pub jsonrpc: String,
    pub id: Option<u64>,
    pub result: Option<T>,
    pub error: Option<JsonRpcError>,
}

/// What a response means for the request that waits for it.
pub enum RpcReply<T> {
    /// It answers another request: keep waiting.
    Unrelated,
    /// The request failed, with this message.
    Failed(String),
    /// The request succeeded with this result.
    Answered(T),
}

/// The message of a JSON-RPC error.
pub open spec fn error_message(code: i64, message: Seq<char>) -> Seq<char> {
    "MCP Error "@ + signed_decimal(code as int) + ": "@ + message
}

impl<T> JsonRpcResponse<T> {
    /// What this response means for the request numbered `request_id`: an
    /// answer to another request is unrelated; otherwise an error object
    /// fails the request, a missing result fails it too, and a result answers it.
    pub fn reply_to(self, request_id: u64) -> (r: RpcReply<T>)
        ensures
            self.id != Some(request_id) ==> r is Unrelated,
            self.id == Some(request_id) ==> match self.error {
                Some(e) => r matches RpcReply::Failed(m) && m@ == error_message(e.code, e.message@),
                None => match self.result {
                    Some(v) => r == RpcReply::Answered(v),
                    None => r matches RpcReply::Failed(m) && m@ == "Missing JSON-RPC result"@,
                },
            },
    {
        if self.id != Some(request_id) {
            return RpcReply::Unrelated;
        }
        match self.error {
            Some(e) => {
                let mut m = "MCP Error ".to_owned();
                push_signed_decimal(&mut m, e.code);
                m.append(": ");
                m.append(e.message.as_str());
                RpcReply::Failed(m)
            },
            None => match self.result {
                Some(v) => RpcReply::Answered(v),
                None => RpcReply::Failed("Missing JSON-RPC result".to_owned()),
            },
        }
    }
}

/// A line of server output that may answer a request: not blank, valid
/// JSON (`value`, where the line parsed), and carrying an `id` member.
pub open spec fn response_line(line: Seq<char>, value: Option<JsonValue>) -> bool {
    trimmed(line).len() > 0 && match value {
        Some(v) => v.member("id"@) is Some,
        None => false,
    }
}

/// Whether a line of server output may answer a request: the line is
/// parsed as JSON, and notifications and noise are skipped.
pub fn is_response_line(line: &str) -> (b: bool)
    ensures
        b == response_line(line@, json_parsed(line@)),
{
    let t = str_trim(line);
    if t.as_str().is_empty() {
        return false;
    }
    match parse_json(line) {
        Ok(v) => v.get("id").is_some(),
        Err(_) => false,
    }
}

/// The executable to start for a server command: on Windows the launchers
/// of npm, Node, Python and uv get their Windows names.
pub open spec fn executable_for(command: Seq<char>, windows: bool) -> Seq<char> {
    if !windows {
        command
    } else if command == "npx"@ {
        "npx.cmd"@
    } else if command == "npm"@ {
        "npm.cmd"@
    } else if command == "node"@ {
        "node.exe"@
    } else if command == "python"@ {
        "python.exe"@
    } else if command == "uvx"@ {
        "uvx.cmd"@
    } else {
        command
    }
}

/// The executable to start for a server command.
pub fn resolve_executable(command: &str, windows: bool) -> (r: String)
    ensures
        r@ == executable_for(command@, windows),
{
    if !windows {
        return command.to_owned();
    }
    let c = chars_of(command);
    if equals_str(c.as_slice(), "npx") {
        "npx.cmd".to_owned()
    } else if equals_str(c.as_slice(), "npm") {
        "npm.cmd".to_owned()
    } else if equals_str(c.as_slice(), "node") {
        "node.exe".to_owned()
    } else if equals_str(c.as_slice(), "python") {
        "python.exe".to_owned()
    } else if equals_str(c.as_slice(), "uvx") {
        "uvx.cmd".to_owned()
    } else {
        command.to_owned()
    }
}

/// The client's name and version, sent when initializing.
pub struct ClientInfo {
    pub name: String,
    pub version: String,
}

/// The parameters of `initialize`.
pub struct InitializeParams {
    pub protocol_version: &'static str,
    pub capabilities: JsonValue,
    pub client_info: ClientInfo,
}

impl InitializeParams {
    /// The parameters this client sends: protocol 2024-11-05, no
    /// capabilities, and its name and version.
    pub fn for_probe() -> (p: Self)
        ensures
            p.protocol_version@ == "2024-11-05"@,
            p.capabilities matches JsonValue::Object(e) && e@.len() == 0,
            p.client_info.name@ == "krysta-probe"@,
            p.client_info.version@ == "0.1.0"@,
    {
        InitializeParams {
            protocol_version: "2024-11-05",
            capabilities: JsonValue::Object(Vec::new()),
            client_info: ClientInfo {
                name: "krysta-probe".to_owned(),
                version: "0.1.0".to_owned(),
            },
        }
    }
}

/// Parameters for a method that takes none.
pub struct EmptyParams {}

/// A tool that a server offers.
pub struct Tool {
    pub name: String,
    pub description: String,
    pub input_schema: Option<JsonValue>,
    /// The input schema as compact JSON text (`null` where there is none).
    pub schema_text: String,
}

/// The parameters of `tools/call`.
pub struct ToolCallParams {
    pub name: String,
    pub arguments: JsonValue,
}

/// The result of `tools/call`.
pub struct ToolCallResult {
    /// The returned content as compact JSON text.
    pub content_text: String,
    pub is_error: Option<bool>,
}

} // verus!
