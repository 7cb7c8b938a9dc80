use bytes::Bytes;
use walker::encoder::{encode, encode_rendered, not_found, write_header_line, EncodeError};
use walker::method::Methods;
use walker::params::ParamMap;
use walker::response::{Response, ResponseValue};
use walker::router::{get, post, HandlerRef, RouteTable};
use walker::server::{accept, step, ConnectionAction, ConnectionEvent, ConnectionState};

fn head(method: &str, target: &[u8]) -> ConnectionEvent {
    let mut headers = ParamMap::new();
    headers.push(b"Host".to_vec(), b"example".to_vec());
    ConnectionEvent::Head { method: method.to_string(), target: target.to_vec(), headers }
}

fn table_with_users() -> RouteTable {
    let mut table = RouteTable::new();
    assert_eq!(get(&mut table, "/users/:id".to_string(), HandlerRef { id: 11 }), Ok(()));
    assert_eq!(post(&mut table, "/users".to_string(), HandlerRef { id: 12 }), Ok(()));
    table
}

fn text_response(body: &'static [u8]) -> Response {
    Response {
        value: ResponseValue::Text(Bytes::from_static(body)),
        status: 200,
        headers: vec![
            (Bytes::from_static(b"a"), Bytes::from_static(b"1")),
            (Bytes::from_static(b"b"), Bytes::from_static(b"2")),
            (Bytes::from_static(b"c"), Bytes::from_static(b"3")),
        ],
    }
}

#[test]
fn routed_request_runs_to_completion() {
    let table = table_with_users();
    let state = accept();
    assert!(matches!(state, ConnectionState::Accepted));
    let (state, action) = step(&table, state, head("get", b"/users/7?full=1"));
    assert!(matches!(action, ConnectionAction::Advance));
    match &state {
        ConnectionState::Parsed { method, target, .. } => {
            assert_eq!(*method, Methods::GET);
            assert_eq!(target, &b"/users/7?full=1".to_vec());
        }
        other => panic!("not parsed: {:?}", other),
    }
    let (state, action) = step(&table, state, ConnectionEvent::Advance);
    assert!(matches!(action, ConnectionAction::Advance));
    assert!(matches!(state, ConnectionState::Routed { .. }));
    let (state, action) = step(&table, state, ConnectionEvent::Advance);
    assert!(matches!(state, ConnectionState::Dispatched));
    match action {
        ConnectionAction::Invoke { handler, request } => {
            assert_eq!(handler, HandlerRef { id: 11 });
            assert_eq!(request.method, Methods::GET);
            assert_eq!(request.path, b"/users/7".to_vec());
            assert_eq!(request.query, Some(b"full=1".to_vec()));
            assert_eq!(request.url_params.get(b"id"), Some(&b"7".to_vec()));
            assert_eq!(request.headers.get(b"Host"), Some(&b"example".to_vec()));
        }
        other => panic!("no handler call: {:?}", other),
    }
    let (state, action) = step(&table, state, ConnectionEvent::HandlerInvoked);
    assert!(matches!(state, ConnectionState::AwaitingResponse));
    assert!(matches!(action, ConnectionAction::Await));
    let (state, action) = step(&table, state, ConnectionEvent::Resolved(text_response(b"ok")));
    assert!(matches!(state, ConnectionState::Completed));
    match action {
        ConnectionAction::Apply(response) => assert_eq!(response.status, 200),
        other => panic!("nothing to write: {:?}", other),
    }
    let (state, action) = step(&table, state, ConnectionEvent::Disconnected);
    assert!(matches!(state, ConnectionState::Completed));
    assert!(matches!(action, ConnectionAction::Ignore));
}

#[test]
fn unknown_method_is_rejected_at_once() {
    let table = table_with_users();
    let (state, action) = step(&table, accept(), head("BREW", b"/users/7"));
    assert!(matches!(state, ConnectionState::Rejected));
    assert!(matches!(action, ConnectionAction::NotFound));
}

#[test]
fn malformed_request_is_rejected_at_once() {
    let table = table_with_users();
    let (state, action) = step(&table, accept(), ConnectionEvent::Malformed);
    assert!(matches!(state, ConnectionState::Rejected));
    assert!(matches!(action, ConnectionAction::NotFound));
    let (state, action) =
        step(&table, ConnectionState::AwaitingResponse, ConnectionEvent::Malformed);
    assert!(matches!(state, ConnectionState::AwaitingResponse));
    assert!(matches!(action, ConnectionAction::Ignore));
}

#[test]
fn unregistered_path_is_rejected_without_a_handler_call() {
    let table = table_with_users();
    let (state, action) = step(&table, accept(), head("GET", b"/posts/1"));
    assert!(matches!(action, ConnectionAction::Advance));
    let (state, action) = step(&table, state, ConnectionEvent::Advance);
    assert!(matches!(state, ConnectionState::Rejected));
    assert!(matches!(action, ConnectionAction::NotFound));
    let (state, action) = step(&table, state, ConnectionEvent::Advance);
    assert!(matches!(state, ConnectionState::Rejected));
    assert!(matches!(action, ConnectionAction::Ignore));
    let (state, action) = step(&table, state, ConnectionEvent::HandlerInvoked);
    assert!(matches!(state, ConnectionState::Rejected));
    assert!(matches!(action, ConnectionAction::Ignore));
}

#[test]
fn route_of_another_method_is_a_miss() {
    let table = table_with_users();
    let (state, _) = step(&table, accept(), head("GET", b"/users"));
    let (state, action) = step(&table, state, ConnectionEvent::Advance);
    assert!(matches!(state, ConnectionState::Rejected));
    assert!(matches!(action, ConnectionAction::NotFound));
}

#[test]
fn disconnect_while_waiting_closes_without_a_body() {
    let table = table_with_users();
    let (state, action) =
        step(&table, ConnectionState::AwaitingResponse, ConnectionEvent::Disconnected);
    assert!(matches!(state, ConnectionState::Rejected));
    assert!(matches!(action, ConnectionAction::Close));
}

#[test]
fn events_out_of_place_are_ignored() {
    let table = table_with_users();
    let (state, action) = step(&table, accept(), ConnectionEvent::Advance);
    assert!(matches!(state, ConnectionState::Accepted));
    assert!(matches!(action, ConnectionAction::Ignore));
    let (state, action) =
        step(&table, ConnectionState::Dispatched, ConnectionEvent::Resolved(text_response(b"x")));
    assert!(matches!(state, ConnectionState::Dispatched));
    assert!(matches!(action, ConnectionAction::Ignore));
    let (state, action) = step(&table, ConnectionState::Dispatched, head("GET", b"/"));
    assert!(matches!(state, ConnectionState::Dispatched));
    assert!(matches!(action, ConnectionAction::Ignore));
}

#[test]
fn text_is_encoded_without_a_content_type_line() {
    let done = encode_rendered(text_response(b"hello"), Err::<Bytes, ()>(())).unwrap();
    assert_eq!(done.status, 200);
    assert_eq!(done.lines, vec![b"a: 1".to_vec(), b"b: 2".to_vec(), b"c: 3".to_vec()]);
    assert_eq!(done.body, Bytes::from_static(b"hello"));
}

#[test]
fn json_is_encoded_with_its_content_type() {
    let response = Response {
        value: ResponseValue::Json(Bytes::from_static(b"{\"a\":1}")),
        status: 200,
        headers: vec![(Bytes::from_static(b"x-id"), Bytes::from_static(b"9"))],
    };
    let done = encode(response, |_, _, _| Err::<Bytes, ()>(())).unwrap();
    assert_eq!(
        done.lines,
        vec![b"Content-Type: application/json".to_vec(), b"x-id: 9".to_vec()]
    );
    assert_eq!(done.body, Bytes::from_static(b"{\"a\":1}"));
}

#[test]
fn template_is_rendered_by_the_collaborator() {
    let response = Response {
        value: ResponseValue::Template("pages".to_string(), "home".to_string(), "{}".to_string()),
        status: 200,
        headers: Vec::new(),
    };
    let done = encode(response, |group: String, file: String, context: String| {
        Ok::<Bytes, ()>(Bytes::from(format!("{}/{}:{}", group, file, context)))
    })
    .unwrap();
    assert_eq!(done.lines, vec![b"Content-Type: text/html".to_vec()]);
    assert_eq!(done.body, Bytes::from_static(b"pages/home:{}"));
}

#[test]
fn rendering_failure_is_an_error() {
    let response = Response {
        value: ResponseValue::Template("pages".to_string(), "gone".to_string(), "{}".to_string()),
        status: 200,
        headers: Vec::new(),
    };
    let done = encode(response.clone(), |_, _, _| Err::<Bytes, &str>("no such file"));
    assert_eq!(done.unwrap_err(), EncodeError::RenderFailure);
    let done = encode_rendered(response.clone(), Err::<Bytes, ()>(()));
    assert_eq!(done.unwrap_err(), EncodeError::RenderFailure);
    let rendered = Ok::<Bytes, ()>(Bytes::from_static(b"<p>hi</p>"));
    let done = encode_rendered(response, rendered).unwrap();
    assert_eq!(done.body, Bytes::from_static(b"<p>hi</p>"));
}

#[test]
fn rejection_is_encoded_as_not_found_without_a_body() {
    let out = not_found();
    assert_eq!(out.status, 404);
    assert!(out.lines.is_empty());
    assert!(out.body.is_empty());
}

#[test]
fn header_line_joins_name_and_value() {
    assert_eq!(write_header_line(b"Content-Length", b"12"), b"Content-Length: 12".to_vec());
    assert_eq!(write_header_line(b"", b""), b": ".to_vec());
}
