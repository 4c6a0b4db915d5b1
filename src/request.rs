use vstd::prelude::*;
use crate::delivery::{Message, ResponsePayload};
use crate::scope::{Command, Scope, ScopeKind};

verus! {

/// The kind of an inbound request, used to pick the matching error response.
#[derive(PartialEq, Eq, Structural, Clone, Copy, Debug)]
pub enum RequestKind {
    /// Business call `method`.
    Call(u16),
    /// Subscribe or unsubscribe for a scope.
    Notify(ScopeKind),
    /// Legacy stop-notifying request for a scope.
    StopNotifying(ScopeKind),
}

/// The payload of an inbound request, as converted from the wire.
#[derive(Debug)]
pub enum RequestPayload {
    /// A business call, answered by the core service.
    Call { method: u16, body: Vec<u8> },
    /// A subscribe (`Start`) or unsubscribe (`Stop`) command.
    Notify { scope: Scope, command: Command },
    /// The legacy form of an unsubscribe command.
    StopNotifying { scope: Scope },
    /// A request whose fields could not be converted.
    Invalid { kind: RequestKind, reason: String },
}

/// An inbound envelope: `id` is the correlation token its response echoes.
#[derive(Debug)]
pub struct Request {
    pub id: u64,
    pub payload: Option<RequestPayload>,
}

/// The error response of the kind that matches a request of `kind`.
pub open spec fn error_payload(kind: RequestKind, reason: String) -> ResponsePayload {
    match kind {
        RequestKind::Call(method) => ResponsePayload::Call { method, result: Err(reason) },
        RequestKind::Notify(k) => ResponsePayload::Notify { kind: k, result: Err(reason) },
        RequestKind::StopNotifying(k) => ResponsePayload::StopNotifying { kind: k, result: Err(reason) },
    }
}

pub fn error_response(kind: RequestKind, reason: String) -> (r: ResponsePayload)
    ensures
        r == error_payload(kind, reason),
{
    match kind {
        RequestKind::Call(method) => ResponsePayload::Call { method, result: Err(reason) },
        RequestKind::Notify(k) => ResponsePayload::Notify { kind: k, result: Err(reason) },
        RequestKind::StopNotifying(k) => ResponsePayload::StopNotifying { kind: k, result: Err(reason) },
    }
}

/// Whether the request is a business call, which the core service answers.
pub open spec fn is_call(request: Request) -> bool {
    request.payload matches Some(RequestPayload::Call { .. })
}

/// The response the gateway itself gives to a request that is no business call.
pub open spec fn reply_spec(request: Request) -> Message {
    Message {
        id: request.id,
        payload: match request.payload {
            Some(RequestPayload::Invalid { kind, reason }) => error_payload(kind, reason),
            Some(RequestPayload::Notify { scope, command }) => ResponsePayload::Notify {
                kind: scope.spec_kind(),
                result: Ok(()),
            },
            Some(RequestPayload::StopNotifying { scope }) => ResponsePayload::StopNotifying {
                kind: scope.spec_kind(),
                result: Ok(()),
            },
            _ => ResponsePayload::MissingPayload,
        },
    }
}

/// What a connection handler does next.
#[derive(Debug)]
pub enum Step {
    /// Hand business call `method` to the core service, then pass its result to
    /// `complete_call` with this `id`.
    Delegate { id: u64, method: u16, body: Vec<u8> },
    /// The response was queued.
    Replied,
    /// The delivery handle is full: the response comes back, to be queued again
    /// once the handle has been drained.
    Backpressure(Message),
    /// The connection is gone: the handler ends.
    Closed,
}

/// The step a business call leads to.
pub open spec fn delegation(request: Request) -> Step {
    match request.payload {
        Some(RequestPayload::Call { method, body }) => Step::Delegate { id: request.id, method, body },
        _ => Step::Closed,
    }
}

} // verus!
