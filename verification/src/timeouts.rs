//! How long the parts of an exchange with an MCP server may take.
use vstd::prelude::*;

use crate::protocol::{JsonRpcRequest, TOOLS_CALL_METHOD};
use crate::text::same;

verus! {

/// Timeout for init and list operations, in seconds.
pub const RECV_TIMEOUT_SECS: u64 = 30;

/// Default HTTP request timeout for MCP HTTP and SSE requests that call no tool, in seconds.
pub const DEFAULT_HTTP_REQUEST_TIMEOUT_SECS: u64 = 120;

/// Whether a request calls a tool.
pub open spec fn calls_tool(request: JsonRpcRequest) -> bool {
    request.method@ == TOOLS_CALL_METHOD@
}

/// The time that a request may take: the configured time for a tool call, if any, and `otherwise`
/// for any other request.
pub open spec fn budget(
    request: JsonRpcRequest,
    tool_timeout_secs: Option<u64>,
    otherwise: u64,
) -> Option<u64> {
    if calls_tool(request) {
        tool_timeout_secs
    } else {
        Some(otherwise)
    }
}

/// The time that an HTTP request may take. Tool calls have the configured time; where none is
/// configured, the caller limits them.
pub fn http_request_timeout_secs(
    request: &JsonRpcRequest,
    tool_timeout_secs: Option<u64>,
) -> (secs: Option<u64>)
    ensures
        secs == budget(*request, tool_timeout_secs, DEFAULT_HTTP_REQUEST_TIMEOUT_SECS),
{
    if same(request.method.as_str(), TOOLS_CALL_METHOD) {
        tool_timeout_secs
    } else {
        Some(DEFAULT_HTTP_REQUEST_TIMEOUT_SECS)
    }
}

/// The time that reading the event stream of an HTTP reply may take.
pub fn http_sse_read_timeout_secs(
    request: &JsonRpcRequest,
    tool_timeout_secs: Option<u64>,
) -> (secs: Option<u64>)
    ensures
        secs == budget(*request, tool_timeout_secs, RECV_TIMEOUT_SECS),
{
    if same(request.method.as_str(), TOOLS_CALL_METHOD) {
        tool_timeout_secs
    } else {
        Some(RECV_TIMEOUT_SECS)
    }
}

/// The time configured for tool calls neither shortens nor extends any other request.
pub proof fn law_tool_timeout_leaves_other_requests_alone(
    request: JsonRpcRequest,
    configured: Option<u64>,
    otherwise: u64,
)
    requires
        !calls_tool(request),
    ensures
        budget(request, configured, otherwise) == budget(request, None, otherwise),
        budget(request, configured, otherwise) == Some(otherwise),
{
}

/// A tool call has the configured time, be it above or below the default, and no limit of its own
/// where none is configured.
pub proof fn law_tool_call_has_the_configured_time(
    request: JsonRpcRequest,
    configured: Option<u64>,
    otherwise: u64,
)
    requires
        calls_tool(request),
    ensures
        budget(request, configured, otherwise) == configured,
{
}

/// A request calls a tool exactly where its method is `tools/call`; nothing else about it counts.
pub proof fn law_the_method_decides_the_time(
    request: JsonRpcRequest,
    other: JsonRpcRequest,
    configured: Option<u64>,
    otherwise: u64,
)
    requires
        request.method@ == other.method@,
    ensures
        calls_tool(request) <==> request.method@ == "tools/call"@,
        budget(request, configured, otherwise) == budget(other, configured, otherwise),
{
}

/// The time for a tool call is the configured one, and none where none is configured; a request of any
/// other method has two minutes over HTTP, and half a minute where an answer is waited for.
pub proof fn law_times_of_requests(request: JsonRpcRequest, configured: Option<u64>)
    ensures
        request.method@ == "tools/call"@ ==> budget(
            request,
            configured,
            DEFAULT_HTTP_REQUEST_TIMEOUT_SECS,
        ) == configured && budget(request, configured, RECV_TIMEOUT_SECS) == configured,
        request.method@ != "tools/call"@ ==> budget(
            request,
            configured,
            DEFAULT_HTTP_REQUEST_TIMEOUT_SECS,
        ) == Some(120u64) && budget(request, configured, RECV_TIMEOUT_SECS) == Some(30u64),
{
}

} // verus!
