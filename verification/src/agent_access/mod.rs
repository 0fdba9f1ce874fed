//! Read-only access for local agents to the meetings under the storage
//! root: the directory walk and its rules (`reader`), the JSON-RPC / MCP
//! request handling built on it (`protocol`), and the line framing
//! around that handling (`wire`).


pub mod reader;
pub mod protocol;
pub mod wire;
