//! The JSON-RPC gateway's requests, answers and errors.

pub use crate::jsonrpc::{internal_request_body, JsonRpcErrorResponse, JsonRpcGateHttpRequest, JsonRpcResponse, ServiceHttpError};
