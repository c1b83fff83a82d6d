//! The response that is not a stream: the upstream's body, passed through as
//! it is.

use crate::constants::{JSON, STATUS_BAD_GATEWAY, STATUS_OK};
use axum::http::StatusCode;
use vstd::prelude::*;

verus! {

/// A response to pass through: its status, its content type and its body.
#[derive(Debug, PartialEq, Eq)]
pub struct Passthrough {
    pub status: u16,
    pub content_type: &'static str,
    pub body: Vec<u8>,
}

/// Whether `code` is a status: a number of three digits.
pub open spec fn is_status(code: u16) -> bool {
    100 <= code <= 999
}

/// The status of the response that passes on an upstream response of status
/// `upstream`: the same status, and 200 for a number that is none.
pub open spec fn passthrough_status(upstream: u16) -> u16 {
    if is_status(upstream) {
        upstream
    } else {
        STATUS_OK
    }
}

/// `StatusCode::from_u16`, then `StatusCode::as_u16`: a number from 100 to 999
/// is a status and comes back as it is, any other number is refused.
#[verifier::external_body]
fn status_of(code: u16) -> (status: Option<u16>)
    ensures
        status == if is_status(code) {
            Some(code)
        } else {
            None
        },
{
    match StatusCode::from_u16(code) {
        Ok(status) => Some(status.as_u16()),
        Err(_) => None,
    }
}

/// Passes an upstream response on: `status` is the upstream's, `body` its
/// body, `None` where the body could not be read. The response keeps status
/// and body and is marked as JSON; a body that could not be read is a gateway
/// failure.
pub fn handle_normal_response(status: u16, body: Option<Vec<u8>>) -> (result: Result<
    Passthrough,
    u16,
>)
    ensures
        match result {
            Ok(reply) => {
                &&& body == Some(reply.body)
                &&& reply.status == passthrough_status(status)
                &&& reply.content_type@ == JSON@
            },
            Err(code) => body is None && code == STATUS_BAD_GATEWAY,
        },
{
    match body {
        Some(bytes) => {
            let status = match status_of(status) {
                Some(valid) => valid,
                None => STATUS_OK,
            };
            Ok(Passthrough { status, content_type: JSON, body: bytes })
        },
        None => Err(STATUS_BAD_GATEWAY),
    }
}

} // verus!
