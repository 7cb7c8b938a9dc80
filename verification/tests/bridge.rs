use bytes::Bytes;
use std::cell::Cell;
use tokio::sync::oneshot::{channel, Receiver};
use walker::context::{BridgeError, RequestBlob};
use walker::method::Methods;
use walker::params::ParamMap;
use walker::request::ParsedRequest;
use walker::response::{Response, ResponseValue};

fn list_of(pairs: &[(&str, &str)]) -> ParamMap {
    let mut map = ParamMap::new();
    for (name, value) in pairs {
        map.push(name.as_bytes().to_vec(), value.as_bytes().to_vec());
    }
    map
}

fn context_for(target: &[u8]) -> (RequestBlob, Receiver<Response>) {
    let (sender, receiver) = channel();
    let request = ParsedRequest::new(Methods::GET, target, ParamMap::new(), ParamMap::new());
    (RequestBlob::new_with_route(request, sender), receiver)
}

fn text_of(response: &Response) -> Vec<u8> {
    match &response.value {
        ResponseValue::Text(body) => body.to_vec(),
        other => panic!("not a text response: {:?}", other),
    }
}

fn json_of(response: &Response) -> Vec<u8> {
    match &response.value {
        ResponseValue::Json(body) => body.to_vec(),
        other => panic!("not a JSON response: {:?}", other),
    }
}

#[test]
fn first_send_succeeds_and_reaches_the_receiver() {
    let (mut context, mut receiver) = context_for(b"/");
    assert_eq!(context.send_text(Bytes::from_static(b"hello")), Ok(()));
    let response = receiver.try_recv().unwrap();
    assert_eq!(text_of(&response), b"hello".to_vec());
    assert_eq!(response.status, 200);
    assert!(response.headers.is_empty());
}

#[test]
fn second_checked_send_fails_with_already_sent() {
    let (mut context, mut receiver) = context_for(b"/");
    assert_eq!(context.send_text(Bytes::from_static(b"first")), Ok(()));
    assert_eq!(context.send_text(Bytes::from_static(b"second")), Err(BridgeError::AlreadySent));
    assert_eq!(
        context.send_result(ResponseValue::Json(Bytes::from_static(b"{}"))),
        Err(BridgeError::AlreadySent)
    );
    assert_eq!(
        context.send_result_checked(ResponseValue::Text(Bytes::from_static(b"x")), true),
        Err(BridgeError::AlreadySent)
    );
    let response = receiver.try_recv().unwrap();
    assert_eq!(text_of(&response), b"first".to_vec());
    assert!(receiver.try_recv().is_err());
}

#[test]
fn second_unchecked_send_is_ignored() {
    let (mut context, mut receiver) = context_for(b"/");
    context.unsafe_send_bytes_text(Bytes::from_static(b"first"));
    context.unsafe_send_bytes_text(Bytes::from_static(b"second"));
    assert_eq!(
        context.send_result_checked(ResponseValue::Text(Bytes::from_static(b"third")), false),
        Ok(())
    );
    let response = receiver.try_recv().unwrap();
    assert_eq!(text_of(&response), b"first".to_vec());
    assert!(receiver.try_recv().is_err());
}

#[test]
fn unchecked_send_takes_any_payload() {
    let (mut context, mut receiver) = context_for(b"/");
    context.send_unchecked(ResponseValue::Json(Bytes::from_static(b"[1]")));
    context.send_unchecked(ResponseValue::Json(Bytes::from_static(b"[2]")));
    assert_eq!(json_of(&receiver.try_recv().unwrap()), b"[1]".to_vec());
    assert!(receiver.try_recv().is_err());
}

#[test]
fn unchecked_send_after_checked_send_is_ignored() {
    let (mut context, mut receiver) = context_for(b"/");
    assert_eq!(context.send_bytes_text(Bytes::from_static(b"one")), Ok(()));
    context.unsafe_send_bytes_text(Bytes::from_static(b"two"));
    assert_eq!(text_of(&receiver.try_recv().unwrap()), b"one".to_vec());
}

#[test]
fn send_succeeds_when_the_receiver_is_gone() {
    let (mut context, receiver) = context_for(b"/");
    drop(receiver);
    assert_eq!(context.send_text(Bytes::from_static(b"late")), Ok(()));
    assert_eq!(context.send_text(Bytes::from_static(b"again")), Err(BridgeError::AlreadySent));
}

#[test]
fn headers_go_out_in_the_order_added() {
    let (mut context, mut receiver) = context_for(b"/");
    context.add_header(Bytes::from_static(b"a"), Bytes::from_static(b"1"));
    context.add_header(Bytes::from_static(b"b"), Bytes::from_static(b"2"));
    context.add_header(Bytes::from_static(b"c"), Bytes::from_static(b"3"));
    assert_eq!(context.send_text(Bytes::from_static(b"body")), Ok(()));
    context.add_header(Bytes::from_static(b"d"), Bytes::from_static(b"4"));
    let response = receiver.try_recv().unwrap();
    assert_eq!(
        response.headers,
        vec![
            (Bytes::from_static(b"a"), Bytes::from_static(b"1")),
            (Bytes::from_static(b"b"), Bytes::from_static(b"2")),
            (Bytes::from_static(b"c"), Bytes::from_static(b"3")),
        ]
    );
}

#[test]
fn strings_are_sent_as_their_bytes() {
    let (mut context, mut receiver) = context_for(b"/");
    assert_eq!(context.send_fast_text("gr\u{fc}n".to_string()), Ok(()));
    assert_eq!(text_of(&receiver.try_recv().unwrap()), "gr\u{fc}n".as_bytes().to_vec());
    let (mut context, mut receiver) = context_for(b"/");
    assert_eq!(context.send_napi_text("plain".to_string()), Ok(()));
    assert_eq!(text_of(&receiver.try_recv().unwrap()), b"plain".to_vec());
}

#[test]
fn stringified_object_is_sent_as_json() {
    let (mut context, mut receiver) = context_for(b"/");
    assert_eq!(context.send_stringified_object(Bytes::from_static(b"{\"a\":1}")), Ok(()));
    assert_eq!(json_of(&receiver.try_recv().unwrap()), b"{\"a\":1}".to_vec());
}

#[test]
fn object_is_written_as_json_text() {
    let mut map = serde_json::Map::new();
    map.insert("name".to_string(), serde_json::Value::String("walker".to_string()));
    map.insert("port".to_string(), serde_json::Value::Number(serde_json::Number::from(8080)));
    map.insert(
        "tags".to_string(),
        serde_json::Value::Array(vec![serde_json::Value::Bool(true), serde_json::Value::Null]),
    );
    let (mut context, mut receiver) = context_for(b"/");
    assert_eq!(context.send_object(serde_json::Value::Object(map)), Ok(()));
    assert_eq!(
        json_of(&receiver.try_recv().unwrap()),
        b"{\"name\":\"walker\",\"port\":8080,\"tags\":[true,null]}".to_vec()
    );
}

#[test]
fn object_after_delivery_fails_with_already_sent() {
    let (mut context, mut receiver) = context_for(b"/");
    assert_eq!(context.send_object(serde_json::Value::Bool(false)), Ok(()));
    assert_eq!(context.send_object(serde_json::Value::Bool(true)), Err(BridgeError::AlreadySent));
    assert_eq!(json_of(&receiver.try_recv().unwrap()), b"false".to_vec());
}

#[test]
fn failed_serialization_sends_nothing() {
    let error = serde_json::from_str::<serde_json::Value>("{").unwrap_err();
    let (mut context, mut receiver) = context_for(b"/");
    assert_eq!(context.send_written(Err(error)), Err(BridgeError::SerializationFailure));
    assert!(receiver.try_recv().is_err());
    assert_eq!(context.send_written(Ok(Bytes::from_static(b"[]"))), Ok(()));
    assert_eq!(json_of(&receiver.try_recv().unwrap()), b"[]".to_vec());
}

#[test]
fn template_is_sent_unrendered() {
    let (mut context, mut receiver) = context_for(b"/");
    assert_eq!(
        context.send_template_resp("pages".to_string(), "home.html".to_string(), "{}".to_string()),
        Ok(())
    );
    match receiver.try_recv().unwrap().value {
        ResponseValue::Template(group, file, payload) => {
            assert_eq!(group, "pages");
            assert_eq!(file, "home.html");
            assert_eq!(payload, "{}");
        }
        other => panic!("not a template response: {:?}", other),
    }
}

#[test]
fn query_parameters_are_parsed_on_demand() {
    let (context, _receiver) = context_for(b"/search?q=rust&page=2");
    assert_eq!(context.get_query_params(), Some(list_of(&[("q", "rust"), ("page", "2")])));
}

#[test]
fn missing_query_string_yields_absent_parameters() {
    let (context, _receiver) = context_for(b"/search");
    assert_eq!(context.get_query_params(), None);
    let (context, _receiver) = context_for(b"/search?");
    assert_eq!(context.get_query_params(), Some(ParamMap::new()));
}

#[test]
fn url_parameters_are_absent_when_none_were_bound() {
    let (context, _receiver) = context_for(b"/users");
    assert_eq!(context.get_url_params(), None);
    let (sender, _receiver) = channel();
    let request = ParsedRequest::new(
        Methods::GET,
        b"/users/7",
        ParamMap::new(),
        list_of(&[("id", "7")]),
    );
    let context = RequestBlob::new_with_route(request, sender);
    assert_eq!(context.get_url_params(), Some(list_of(&[("id", "7")])));
}

#[test]
fn request_headers_are_read_by_stored_name() {
    let (sender, _receiver) = channel();
    let headers = list_of(&[("Host", "example"), ("Accept", "a"), ("Accept", "b")]);
    let request = ParsedRequest::new(Methods::GET, b"/", headers.copy(), ParamMap::new());
    let context = RequestBlob::new_with_route(request, sender);
    assert_eq!(context.header_length(), 2);
    assert_eq!(context.get_header("Host".to_string()), Some(b"example".to_vec()));
    assert_eq!(context.get_header("Accept".to_string()), Some(b"a".to_vec()));
    assert_eq!(context.get_header("host".to_string()), None);
    assert_eq!(context.get_all_headers(), headers);
}

#[test]
fn body_is_read_once_and_cached() {
    let (mut context, _receiver) = context_for(b"/");
    let reads = Cell::new(0);
    let first = context.get_body(|| {
        reads.set(reads.get() + 1);
        Ok::<Bytes, ()>(Bytes::from_static(b"payload"))
    });
    let second = context.get_body(|| {
        reads.set(reads.get() + 1);
        Ok::<Bytes, ()>(Bytes::from_static(b"other"))
    });
    assert_eq!(first, Ok(Bytes::from_static(b"payload")));
    assert_eq!(second, Ok(Bytes::from_static(b"payload")));
    assert_eq!(reads.get(), 1);
}

#[test]
fn failed_body_read_is_reported_and_not_cached() {
    let (mut context, _receiver) = context_for(b"/");
    let failed = context.get_body(|| Err::<Bytes, &str>("reset"));
    assert_eq!(failed, Err(BridgeError::BodyReadFailure));
    let read = context.get_body(|| Ok::<Bytes, &str>(Bytes::from_static(b"now")));
    assert_eq!(read, Ok(Bytes::from_static(b"now")));
    let cached = context.get_body(|| Err::<Bytes, &str>("reset"));
    assert_eq!(cached, Ok(Bytes::from_static(b"now")));
}

#[test]
fn stored_body_wins_over_a_later_outcome() {
    let (mut context, _receiver) = context_for(b"/");
    assert_eq!(context.store_body(Err::<Bytes, ()>(())), Err(BridgeError::BodyReadFailure));
    assert_eq!(
        context.store_body(Ok::<Bytes, ()>(Bytes::from_static(b"one"))),
        Ok(Bytes::from_static(b"one"))
    );
    assert_eq!(
        context.store_body(Ok::<Bytes, ()>(Bytes::from_static(b"two"))),
        Ok(Bytes::from_static(b"one"))
    );
    assert_eq!(context.store_body(Err::<Bytes, ()>(())), Ok(Bytes::from_static(b"one")));
}

#[test]
fn errors_say_what_went_wrong() {
    assert_eq!(BridgeError::AlreadySent.message(), "Already sent response.");
    assert_eq!(BridgeError::SerializationFailure.message(), "Error serialising data.");
    assert_eq!(BridgeError::BodyReadFailure.message(), "Error reading the request body.");
}
