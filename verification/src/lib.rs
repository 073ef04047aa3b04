//! Verified core of an agent runtime: step-output recovery and MCP transport decisions.
pub mod config;
pub mod endpoint;
pub mod failure;
pub mod http;
pub mod http_transport;
pub mod json;
pub mod protocol;
pub mod response;
pub mod rundata;
pub mod sse_exchange;
pub mod sse_shared;
pub mod sse_stream;
pub mod sse_text;
pub mod sse_transport;
pub mod stdio_transport;
pub mod step_output;
pub mod text;
pub mod timeouts;
pub mod tls;
pub mod transport;
pub mod url;
