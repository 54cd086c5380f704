//! The scanning engine: discovery of MCP servers, the vulnerability
//! database, the package and source analyzers and the scanner.
pub mod mcp;
pub mod mcp_client;
pub mod package_analyzer;
pub mod scanner;
pub mod source_analyzer;
pub mod vuln_db;
