//! The RPC envelope that the backend and the agent exchange.

use vstd::prelude::*;
use crate::json::{JsonValue, JsonView};
use crate::text::owned;

verus! {

/// A request: its type, the id to echo back, and its payload.
#[derive(Debug, PartialEq)]
pub struct RpcRequest {
    pub kind: String,
    pub request_id: Option<String>,
    pub payload: JsonValue,
}

/// The mathematical view of a request.
pub struct RequestView {
    pub kind: Seq<char>,
    pub request_id: Option<Seq<char>>,
    pub payload: JsonView,
}

impl View for RpcRequest {
    type V = RequestView;

    open spec fn view(&self) -> RequestView {
        RequestView {
            kind: self.kind@,
            request_id: crate::config::opt_chars(self.request_id),
            payload: self.payload@,
        }
    }
}

/// A response: its type, the echoed request id, whether it succeeded, its
/// payload and, on failure, the error message.
#[derive(Debug, PartialEq)]
pub struct RpcResponse {
    pub kind: String,
    pub request_id: Option<String>,
    pub ok: bool,
    pub payload: JsonValue,
    pub error: Option<String>,
}

/// The mathematical view of a response.
pub struct ResponseView {
    pub kind: Seq<char>,
    pub request_id: Option<Seq<char>>,
    pub ok: bool,
    pub payload: JsonView,
    pub error: Option<Seq<char>>,
}

impl View for RpcResponse {
    type V = ResponseView;

    open spec fn view(&self) -> ResponseView {
        ResponseView {
            kind: self.kind@,
            request_id: crate::config::opt_chars(self.request_id),
            ok: self.ok,
            payload: self.payload@,
            error: crate::config::opt_chars(self.error),
        }
    }
}

/// A successful response of the given type.
pub open spec fn ok_view(kind: Seq<char>, request_id: Option<Seq<char>>, payload: JsonView) -> ResponseView {
    ResponseView { kind, request_id, ok: true, payload, error: None }
}

/// A failed response: type `error`, no payload, and the message.
pub open spec fn error_view(request_id: Option<Seq<char>>, message: Seq<char>) -> ResponseView {
    ResponseView { kind: "error"@, request_id, ok: false, payload: JsonView::Null, error: Some(message) }
}

impl RpcResponse {
    pub fn ok(kind: &str, request_id: Option<String>, payload: JsonValue) -> (r: RpcResponse)
        ensures
            r@ == ok_view(kind@, crate::config::opt_chars(request_id), payload@),
    {
        RpcResponse { kind: owned(kind), request_id, ok: true, payload, error: None }
    }

    pub fn error(request_id: Option<String>, message: String) -> (r: RpcResponse)
        ensures
            r@ == error_view(crate::config::opt_chars(request_id), message@),
    {
        RpcResponse {
            kind: owned(crate::msg::ERROR),
            request_id,
            ok: false,
            payload: JsonValue::Null,
            error: Some(message),
        }
    }
}

} // verus!
