//! Configuration of an MCP server.
use vstd::prelude::*;

verus! {

/// How an MCP server is reached.
#[derive(Debug, Clone, Copy, PartialEq, Eq, Structural)]
pub enum McpTransport {
    /// A local process, over its standard streams.
    Stdio,
    /// HTTP POST requests.
    Http,
    /// HTTP POST requests, with responses in a stream of server-sent events.
    Sse,
}

/// The configuration of one MCP server.
#[derive(Debug, Clone)]
pub struct McpServerConfig {
    /// The server's name, for messages.
    pub name: String,
    /// How the server is reached.
    pub transport: McpTransport,
    /// The URL of a remote server.
    pub url: Option<String>,
    /// The program of a local server.
    pub command: String,
    /// The arguments of a local server.
    pub args: Vec<String>,
    /// The environment variables of a local server, each with its value.
    pub env: Vec<(String, String)>,
    /// The headers for requests to a remote server, each with its value.
    pub headers: Vec<(String, String)>,
    /// The time that a tool call may take, in seconds.
    pub tool_timeout_secs: Option<u64>,
    /// The file with the certificates of the authority to trust besides the system's.
    pub tls_ca_cert_path: Option<String>,
}

/// Whether no key occurs twice in a list of entries.
pub open spec fn has_distinct_keys(entries: Seq<(String, String)>) -> bool {
    forall|i: int, j: int|
        0 <= i < j < entries.len() ==> (#[trigger] entries[i]).0@ != (#[trigger] entries[j]).0@
}

impl McpServerConfig {
    /// Neither an environment variable nor a header is given twice.
    pub open spec fn wf(self) -> bool {
        has_distinct_keys(self.env@) && has_distinct_keys(self.headers@)
    }
}

impl Default for McpServerConfig {
    fn default() -> (config: Self)
        ensures
            config.name@.len() == 0,
            config.transport == McpTransport::Stdio,
            config.url is None,
            config.command@.len() == 0,
            config.args@.len() == 0,
            config.env@.len() == 0,
            config.headers@.len() == 0,
            config.tool_timeout_secs is None,
            config.tls_ca_cert_path is None,
            config.wf(),
    {
        McpServerConfig {
            name: String::new(),
            transport: McpTransport::Stdio,
            url: None,
            command: String::new(),
            args: Vec::new(),
            env: Vec::new(),
            headers: Vec::new(),
            tool_timeout_secs: None,
            tls_ca_cert_path: None,
        }
    }
}

} // verus!
