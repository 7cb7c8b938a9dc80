//! The life of one connection, as a state machine.
//!
//! A connection is accepted, its request is parsed and routed, the handler
//! is called, and the connection waits until the handler's response comes
//! through the channel or the peer goes away. The machine decides; whoever
//! runs it reads the request, calls the handler, waits and writes. Each
//! step takes the state and what has happened and gives the next state and
//! what to do next.

use crate::method::{uppercase, Methods};
use crate::params::ParamMap;
use crate::pattern::path_segments;
use crate::request::{split_target, target_path, target_query, ParsedRequest, RequestView};
use crate::response::Response;
use crate::router::{resolve, HandlerRef, RouteTable};
use vstd::prelude::*;

verus! {

/// Where a connection stands.
#[derive(Debug)]
pub enum ConnectionState {
    /// The connection is open and nothing has been read.
    Accepted,
    /// The head of the request has been read and its method is known.
    Parsed { method: Methods, target: Vec<u8>, headers: ParamMap },
    /// A route matched: the handler and the request that it will get.
    Routed { handler: HandlerRef, request: ParsedRequest },
    /// The handler is being called.
    Dispatched,
    /// The handler has the context; the connection waits for the response.
    AwaitingResponse,
    /// The response went out. Nothing follows.
    Completed,
    /// The request was turned down or the peer went away. Nothing follows.
    Rejected,
}

/// What has happened on a connection.
#[derive(Debug)]
pub enum ConnectionEvent {
    /// The head of a request was read: the name of its method, its target
    /// and its headers.
    Head { method: String, target: Vec<u8>, headers: ParamMap },
    /// What came in is no request: its head could not be read.
    Malformed,
    /// Nothing from outside; the machine goes on.
    Advance,
    /// The handler was called with the context of the request.
    HandlerInvoked,
    /// The response came through the channel.
    Resolved(Response),
    /// The peer went away before a response came.
    Disconnected,
}

/// What to do next on a connection.
#[derive(Debug)]
pub enum ConnectionAction {
    /// Step again, with `Advance`.
    Advance,
    /// Call this handler with the context of this request.
    Invoke { handler: HandlerRef, request: ParsedRequest },
    /// Give up the execution slot until the channel resolves or the peer
    /// goes away.
    Await,
    /// Encode this response and write it.
    Apply(Response),
    /// Answer that nothing was found. No handler is called.
    NotFound,
    /// Close the connection and write no body.
    Close,
    /// Nothing: the event has no meaning in this state.
    Ignore,
}

impl ConnectionState {
    /// Whether nothing follows this state.
    pub open spec fn is_terminal(self) -> bool {
        self is Completed || self is Rejected
    }
}

/// The steps of a connection: whether, with these routes, `event` takes a
/// connection from `before` to `after` and asks for `action`.
pub open spec fn transition(
    table: RouteTable,
    before: ConnectionState,
    event: ConnectionEvent,
    after: ConnectionState,
    action: ConnectionAction,
) -> bool {
    match (before, event) {
        (ConnectionState::Accepted, ConnectionEvent::Head { method, target, headers }) => {
            match Methods::from_name(uppercase(method@)) {
                Some(known) => {
                    &&& action is Advance
                    &&& after matches ConnectionState::Parsed { method: m, target: t, headers: h }
                    &&& m == known
                    &&& t@ == target@
                    &&& h@ == headers@
                },
                None => after is Rejected && action is NotFound,
            }
        },
        (ConnectionState::Accepted, ConnectionEvent::Malformed) => {
            after is Rejected && action is NotFound
        },
        (ConnectionState::Parsed { method, target, headers }, ConnectionEvent::Advance) => {
            match resolve(table.routes(method), path_segments(target_path(target@))) {
                Some((found, params)) => {
                    &&& action is Advance
                    &&& after matches ConnectionState::Routed { handler, request }
                    &&& handler == found
                    &&& request@ == (RequestView {
                        method,
                        path: target_path(target@),
                        query: target_query(target@),
                        headers: headers@,
                        url_params: params,
                    })
                },
                None => after is Rejected && action is NotFound,
            }
        },
        (ConnectionState::Routed { handler, request }, ConnectionEvent::Advance) => {
            &&& after is Dispatched
            &&& action matches ConnectionAction::Invoke { handler: h, request: r }
            &&& h == handler
            &&& r@ == request@
        },
        (ConnectionState::Dispatched, ConnectionEvent::HandlerInvoked) => {
            after is AwaitingResponse && action is Await
        },
        (ConnectionState::AwaitingResponse, ConnectionEvent::Resolved(response)) => {
            &&& after is Completed
            &&& action matches ConnectionAction::Apply(r)
            &&& r@ == response@
        },
        (ConnectionState::AwaitingResponse, ConnectionEvent::Disconnected) => {
            after is Rejected && action is Close
        },
        _ => after == before && action is Ignore,
    }
}

/// The state of a connection that was just accepted.
pub fn accept() -> (state: ConnectionState)
    ensures
        state is Accepted,
{
    ConnectionState::Accepted
}

/// One step of a connection.
pub fn step(table: &RouteTable, state: ConnectionState, event: ConnectionEvent) -> (next: (
    ConnectionState,
    ConnectionAction,
))
    requires
        table.wf(),
    ensures
        transition(*table, state, event, next.0, next.1),
{
    match (state, event) {
        (ConnectionState::Accepted, ConnectionEvent::Head { method, target, headers }) => {
            match Methods::parse(method.as_str()) {
                Some(known) => (
                    ConnectionState::Parsed { method: known, target, headers },
                    ConnectionAction::Advance,
                ),
                None => (ConnectionState::Rejected, ConnectionAction::NotFound),
            }
        },
        (ConnectionState::Accepted, ConnectionEvent::Malformed) => (
            ConnectionState::Rejected,
            ConnectionAction::NotFound,
        ),
        (ConnectionState::Parsed { method, target, headers }, ConnectionEvent::Advance) => {
            let (path, query) = split_target(target.as_slice());
            match table.lookup(method, path.as_slice()) {
                Some((handler, url_params)) => {
                    let request = ParsedRequest { method, path, query, headers, url_params };
                    (ConnectionState::Routed { handler, request }, ConnectionAction::Advance)
                },
                None => (ConnectionState::Rejected, ConnectionAction::NotFound),
            }
        },
        (ConnectionState::Routed { handler, request }, ConnectionEvent::Advance) => (
            ConnectionState::Dispatched,
            ConnectionAction::Invoke { handler, request },
        ),
        (ConnectionState::Dispatched, ConnectionEvent::HandlerInvoked) => (
            ConnectionState::AwaitingResponse,
            ConnectionAction::Await,
        ),
        (ConnectionState::AwaitingResponse, ConnectionEvent::Resolved(response)) => (
            ConnectionState::Completed,
            ConnectionAction::Apply(response),
        ),
        (ConnectionState::AwaitingResponse, ConnectionEvent::Disconnected) => (
            ConnectionState::Rejected,
            ConnectionAction::Close,
        ),
        (state, _) => (state, ConnectionAction::Ignore),
    }
}

/// Nothing follows a terminal state: whatever happens, the connection
/// stays where it is and nothing is asked for.
pub proof fn law_terminal_states_stay(
    table: RouteTable,
    before: ConnectionState,
    event: ConnectionEvent,
    after: ConnectionState,
    action: ConnectionAction,
)
    requires
        before.is_terminal(),
        transition(table, before, event, after, action),
    ensures
        after == before,
        action is Ignore,
{
}

/// A handler is called only for a request that a route matched: the call
/// is asked for from the routed state alone, and that state is reached only
/// from a parsed request that resolves to the handler.
pub proof fn law_handler_needs_a_route(
    table: RouteTable,
    before: ConnectionState,
    event: ConnectionEvent,
    after: ConnectionState,
    action: ConnectionAction,
)
    requires
        transition(table, before, event, after, action),
    ensures
        action is Invoke ==> before is Routed,
        after is Routed && !(before is Routed) ==> (before matches ConnectionState::Parsed {
            method,
            target,
            headers,
        } && resolve(table.routes(method), path_segments(target_path(target@))) is Some),
{
}

/// A request whose method is unknown is turned down at once, and a request
/// whose path no route of its method matches is turned down at the lookup:
/// both with the answer that nothing was found, and without a handler
/// being called.
pub proof fn law_unrouted_request_is_rejected(
    table: RouteTable,
    method: String,
    target: Vec<u8>,
    headers: ParamMap,
    parsed: ConnectionState,
    first: ConnectionAction,
    routed: ConnectionState,
    second: ConnectionAction,
)
    requires
        transition(
            table,
            ConnectionState::Accepted,
            ConnectionEvent::Head { method, target, headers },
            parsed,
            first,
        ),
        transition(table, parsed, ConnectionEvent::Advance, routed, second),
        match Methods::from_name(uppercase(method@)) {
            Some(known) => resolve(table.routes(known), path_segments(target_path(target@)))
                is None,
            None => true,
        },
    ensures
        routed is Rejected,
        !(first is Invoke) && !(second is Invoke),
        first is NotFound || second is NotFound,
{
}

} // verus!
