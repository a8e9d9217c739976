//! The RPC envelope the game service speaks: requests, responses, and the
//! standard error codes.

use vstd::prelude::*;

verus! {

/// One RPC call: a method name, the raw MessagePack bytes of the
/// parameters, and an optional correlation id the response echoes.
#[derive(Debug)]
pub struct RpcRequest {
    pub method: String,
    pub params: Vec<u8>,
    pub id: Option<u64>,
}

impl RpcRequest {
    /// Creates a new RPC request.
    pub fn new(method: String, params: Vec<u8>, id: Option<u64>) -> (r: Self)
        ensures
            r.method == method,
            r.params == params,
            r.id == id,
    {
        Self { method, params, id }
    }
}

/// The answer to one RPC call: either a result or an error, never both,
/// with the request's correlation id.
#[derive(Debug)]
pub struct RpcResponse {
    pub result: Option<Vec<u8>>,
    pub error: Option<RpcError>,
    pub id: Option<u64>,
}

impl RpcResponse {
    /// The response that reports an error.
    pub fn error(error: RpcError, id: Option<u64>) -> (r: Self)
        ensures
            r.result is None,
            r.error == Some(error),
            r.id == id,
    {
        RpcResponse { result: None, error: Some(error), id }
    }
}

/// One RPC error: a standard code, a message, and optional raw data.
#[derive(Debug)]
pub struct RpcError {
    pub code: i32,
    pub message: String,
    pub data: Option<Vec<u8>>,
}

impl RpcError {
    /// Creates a new RPC error without extra data.
    pub fn new(code: RpcErrorCode, message: String) -> (r: Self)
        ensures
            r.code == code.code_spec(),
            r.message == message,
            r.data is None,
    {
        Self { code: code.code(), message, data: None }
    }
}

/// The standard error codes, plus the base server error code.
#[derive(Clone, Copy, Debug, PartialEq, Eq, Structural)]
pub enum RpcErrorCode {
    ParseError,
    InvalidRequest,
    MethodNotFound,
    InvalidParams,
    InternalError,
    ServerError,
}

impl RpcErrorCode {
    /// The numeric value of each code.
    pub open spec fn code_spec(self) -> int {
        match self {
            RpcErrorCode::ParseError => -32700,
            RpcErrorCode::InvalidRequest => -32600,
            RpcErrorCode::MethodNotFound => -32601,
            RpcErrorCode::InvalidParams => -32602,
            RpcErrorCode::InternalError => -32603,
            RpcErrorCode::ServerError => -32000,
        }
    }

    pub fn code(&self) -> (r: i32)
        ensures
            r == self.code_spec(),
    {
        match *self {
            RpcErrorCode::ParseError => -32700,
            RpcErrorCode::InvalidRequest => -32600,
            RpcErrorCode::MethodNotFound => -32601,
            RpcErrorCode::InvalidParams => -32602,
            RpcErrorCode::InternalError => -32603,
            RpcErrorCode::ServerError => -32000,
        }
    }

    /// The short text of each code.
    pub open spec fn description_spec(self) -> Seq<char> {
        match self {
            RpcErrorCode::ParseError => "Parse error"@,
            RpcErrorCode::InvalidRequest => "Invalid request"@,
            RpcErrorCode::MethodNotFound => "Method not found"@,
            RpcErrorCode::InvalidParams => "Invalid params"@,
            RpcErrorCode::InternalError => "Internal error"@,
            RpcErrorCode::ServerError => "Server error"@,
        }
    }

    pub fn description(&self) -> (r: &'static str)
        ensures
            r@ == self.description_spec(),
    {
        match *self {
            RpcErrorCode::ParseError => "Parse error",
            RpcErrorCode::InvalidRequest => "Invalid request",
            RpcErrorCode::MethodNotFound => "Method not found",
            RpcErrorCode::InvalidParams => "Invalid params",
            RpcErrorCode::InternalError => "Internal error",
            RpcErrorCode::ServerError => "Server error",
        }
    }
}

} // verus!
