//! A lightweight HTTP/WebSocket test-fixture service core.
//!
//! The library holds the verified logic of the service: the request
//! dispatcher, the mock-response registry with its latency values, the
//! WebSocket echo-session state machine, and the JSON framing they rely
//! on. All transport work (sockets, the HTTP stack, the WebSocket
//! handshake, timers) lives outside the library and drives it through
//! plain values.

use vstd::prelude::*;

pub mod json;
pub mod router;
pub mod session;
pub mod utils;

use crate::router::{
    handler, response, sp_dispatch, sp_dispatch_fails, sp_text_resp, ContentType, Outcome, Request,
};
use crate::utils::APIs;

verus! {

/// The connection-level service: it runs the dispatcher on one
/// request and turns a failed dispatch into the generic
/// internal-error reply, so a connection task never dies of a bad
/// request.
pub struct HttpService;

impl HttpService {
    /// Answers one request. Every request gets an outcome: where the
    /// dispatcher rejects the body, the answer is the fixed
    /// internal-error JSON with status 500, and the connection stays
    /// available for further requests.
    pub fn call(&self, req: Request, apis: &APIs) -> (o: Outcome)
        ensures
            !sp_dispatch_fails(req) ==> sp_dispatch(req, apis@, o),
            sp_dispatch_fails(req) ==> (o matches Outcome::Respond { wait_ms, response }
                && wait_ms == 0 && sp_text_resp(
                response,
                500,
                ContentType::Json,
                "{\"success\":false,\"message\":\"INTERNAL_SERVER_ERROR\"}"@,
            )),
    {
        match handler(req, apis) {
            Ok(o) => o,
            Err(_e) => Outcome::Respond {
                wait_ms: 0,
                response: response(
                    String::from_str("{\"success\":false,\"message\":\"INTERNAL_SERVER_ERROR\"}"),
                    500,
                ),
            },
        }
    }
}

} // verus!
