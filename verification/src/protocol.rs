//! JSON-RPC messages of the Model Context Protocol.
use serde_json::Value;
use vstd::prelude::*;

use crate::json::{json_number, json_u64, number_value};

verus! {

/// The JSON-RPC version that every message names.
pub const JSONRPC_VERSION: &'static str = "2.0";

/// JSON-RPC method name for MCP tool calls.
pub const TOOLS_CALL_METHOD: &'static str = "tools/call";

/// A JSON-RPC request. One without an `id` is a notification, which gets no response.
#[derive(Debug, Clone)]
pub struct JsonRpcRequest {
    /// The protocol version.
    pub jsonrpc: String,
    /// The identifier that the response repeats.
    pub id: Option<Value>,
    /// The method to call.
    pub method: String,
    /// The arguments of the call.
    pub params: Option<Value>,
}

/// The error of a JSON-RPC response.
#[derive(Debug, Clone)]
pub struct JsonRpcError {
    /// The kind of the error.
    pub code: i32,
    /// What went wrong, in words.
    pub message: String,
    /// Details, where there are any.
    pub data: Option<Value>,
}

/// A JSON-RPC response, or a notification of the server, which has no `id`.
#[derive(Debug, Clone)]
pub struct JsonRpcResponse {
    /// The protocol version.
    pub jsonrpc: String,
    /// The identifier of the request that this answers.
    pub id: Option<Value>,
    /// What the call returned.
    pub result: Option<Value>,
    /// Why the call failed.
    pub error: Option<JsonRpcError>,
}

impl JsonRpcRequest {
    /// A request with a number for its identifier.
    pub fn new(id: u64, method: &str, params: Value) -> (request: Self)
        ensures
            request.jsonrpc@ == JSONRPC_VERSION@,
            request.id == Some(json_number(id)),
            request.numeric_id() == Some(id),
            request.method@ == method@,
            request.params == Some(params),
    {
        JsonRpcRequest {
            jsonrpc: JSONRPC_VERSION.to_string(),
            id: Some(number_value(id)),
            method: method.to_string(),
            params: Some(params),
        }
    }

    /// The identifier as a number, if it is one.
    pub open spec fn numeric_id(self) -> Option<u64> {
        match self.id {
            Some(value) => json_u64(value),
            None => None,
        }
    }
}

impl JsonRpcResponse {
    /// The identifier as a number, if it is one.
    pub open spec fn numeric_id(self) -> Option<u64> {
        match self.id {
            Some(value) => json_u64(value),
            None => None,
        }
    }

    /// Whether this is the response that stands for the acceptance of a notification: the version
    /// and nothing else.
    pub open spec fn is_acknowledgement(self) -> bool {
        &&& self.jsonrpc@ == JSONRPC_VERSION@
        &&& self.id is None
        &&& self.result is None
        &&& self.error is None
    }

    /// The response that stands for the acceptance of a notification.
    pub fn acknowledgement() -> (response: Self)
        ensures
            response.is_acknowledgement(),
    {
        JsonRpcResponse {
            jsonrpc: JSONRPC_VERSION.to_string(),
            id: None,
            result: None,
            error: None,
        }
    }
}

/// An acceptance names the version and holds nothing else.
pub proof fn law_acceptances_are_empty(response: JsonRpcResponse)
    requires
        response.is_acknowledgement(),
    ensures
        response.jsonrpc@ == "2.0"@,
        response.id is None,
        response.result is None,
        response.error is None,
{
}

/// A message has a number for its identifier exactly where it has an identifier that is one, whatever
/// else it holds.
pub proof fn law_numbers_of_messages(request: JsonRpcRequest, response: JsonRpcResponse, n: u64)
    ensures
        request.numeric_id() == Some(n) <==> (request.id matches Some(value) && json_u64(value)
            == Some(n)),
        response.numeric_id() == Some(n) <==> (response.id matches Some(value) && json_u64(value)
            == Some(n)),
        request.id is None ==> request.numeric_id() is None,
        response.id is None ==> response.numeric_id() is None,
{
}

/// A request is made with its version, its number, its method and its parameters as they are given.
pub proof fn law_how_a_request_is_made(
    id: u64,
    method: &str,
    params: Value,
    request: JsonRpcRequest,
)
    requires
        call_ensures(JsonRpcRequest::new, (id, method, params), request),
    ensures
        request.jsonrpc@ == "2.0"@,
        request.id matches Some(value) && json_u64(value) == Some(id),
        request.method@ == method@,
        request.params == Some(params),
{
}

} // verus!
