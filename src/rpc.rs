//! JSON-RPC message shapes, and the feed's subscription request.

use vstd::prelude::*;
use crate::json::JsonValue;

verus! {

#[derive(Debug)]
pub struct JsonRpcRequest {
    pub jsonrpc: String,
    pub method: String,
    pub params: JsonValue,
    pub id: u64,
}

impl JsonRpcRequest {
    /// A version 2.0 request.
    pub fn new(method: &str, params: JsonValue, id: u64) -> (r: JsonRpcRequest)
        ensures
            r.jsonrpc@ == "2.0"@,
            r.method@ == method@,
            r.params == params,
            r.id == id,
    {
        JsonRpcRequest { jsonrpc: "2.0".to_string(), method: method.to_string(), params, id }
    }
}

#[derive(Debug)]
pub struct JsonRpcResponse<T> {
    pub jsonrpc: String,
    pub result: Option<T>,
    pub error: Option<JsonRpcError>,
    pub id: u64,
}

#[derive(Debug)]
pub struct JsonRpcError {
    pub code: i32,
    pub message: String,
    pub data: Option<JsonValue>,
}

pub open spec fn is_subscription_request(r: JsonRpcRequest) -> bool {
    &&& r.jsonrpc@ == "2.0"@
    &&& r.method@ == "subscribe"@
    &&& r.id == 1
    &&& r.params matches JsonValue::Array(items)
    &&& items@.len() == 1
    &&& items@[0] matches JsonValue::Str(topic)
    &&& topic@ == "flashblocks"@
}

/// The request that subscribes to the flashblock feed.
pub fn subscription_request() -> (r: JsonRpcRequest)
    ensures
        is_subscription_request(r),
{
    let topic = JsonValue::Str("flashblocks".to_string());
    let params = JsonValue::Array(vec![topic]);
    JsonRpcRequest::new("subscribe", params, 1)
}

} // verus!
