//! The per-request bridge between a connection and the handler that answers
//! it. The context owns the parsed request and the sending half of a
//! single-use channel; the connection holds the receiving half and waits.
//! One response is delivered per context: a checked send after that is
//! refused, an unchecked one is passed over.

use crate::buffer::{buffer_from_slice, contents, fields};
use crate::channel::hand_over;
use crate::json::{json_text, write_json};
use crate::params::{distinct_names, first_value, ParamMap};
use crate::query::{parse_query, query_pairs};
use crate::request::{ParsedRequest, RequestView};
use crate::response::{Response, ResponseValue, ResponseValueView, ResponseView, STATUS_OK};
use bytes::Bytes;
use serde_json::Value;
use tokio::sync::oneshot::Sender;
use vstd::prelude::*;
use vstd::utf8::encode_utf8;

verus! {

/// What can go wrong between a handler and its connection.
#[derive(Clone, Copy, Debug, PartialEq, Eq, Structural)]
pub enum BridgeError {
    /// A checked send on a context that has delivered its response.
    AlreadySent,
    /// A structured value could not be written as JSON.
    SerializationFailure,
    /// The transport failed while the body was read.
    BodyReadFailure,
}

impl BridgeError {
    /// What the error says, as a text.
    pub open spec fn text(self) -> Seq<char> {
        match self {
            BridgeError::AlreadySent => "Already sent response."@,
            BridgeError::SerializationFailure => "Error serialising data."@,
            BridgeError::BodyReadFailure => "Error reading the request body."@,
        }
    }

    /// What the error says.
    pub fn message(&self) -> (message: String)
        ensures
            message@ == self.text(),
    {
        match self {
            BridgeError::AlreadySent => "Already sent response.".to_owned(),
            BridgeError::SerializationFailure => "Error serialising data.".to_owned(),
            BridgeError::BodyReadFailure => "Error reading the request body.".to_owned(),
        }
    }
}

/// A request context, as a value of the model.
pub struct ContextView {
    /// The parsed request.
    pub request: RequestView,
    /// The body, once it has been read.
    pub body: Option<Seq<u8>>,
    /// The outgoing headers gathered so far, in the order of their adding.
    pub headers: Seq<(Seq<u8>, Seq<u8>)>,
    /// The response that went into the channel, once one has.
    pub delivered: Option<ResponseView>,
}

/// What a send does: on a context that has delivered, nothing, and in
/// checked mode it is refused; otherwise the payload goes out with the
/// status of success and the headers gathered so far.
pub open spec fn send_step(before: ContextView, payload: ResponseValueView, checked: bool) -> (
    ContextView,
    Result<(), BridgeError>,
) {
    if before.delivered is Some {
        (
            before,
            if checked {
                Err(BridgeError::AlreadySent)
            } else {
                Ok(())
            },
        )
    } else {
        (
            ContextView {
                delivered: Some(
                    ResponseView { value: payload, status: STATUS_OK, headers: before.headers },
                ),
                headers: Seq::empty(),
                ..before
            },
            Ok(()),
        )
    }
}

/// What adding a header does: it goes behind the headers gathered so far,
/// unless the response has been delivered.
pub open spec fn header_step(before: ContextView, key: Seq<u8>, value: Seq<u8>) -> ContextView {
    if before.delivered is Some {
        before
    } else {
        ContextView { headers: before.headers.push((key, value)), ..before }
    }
}

/// What asking for the body does, where `read` is what the transport gives
/// if it is asked: a body that was read before is returned again and the
/// transport is left alone; otherwise what was read is kept and returned,
/// and a failure of the transport is reported.
pub open spec fn body_step(before: ContextView, read: Option<Seq<u8>>) -> (
    ContextView,
    Result<Seq<u8>, BridgeError>,
) {
    match before.body {
        Some(body) => (before, Ok(body)),
        None => match read {
            Some(body) => (ContextView { body: Some(body), ..before }, Ok(body)),
            None => (before, Err(BridgeError::BodyReadFailure)),
        },
    }
}

/// The view of what the transport gave.
pub open spec fn read_view<E>(outcome: Result<Bytes, E>) -> Option<Seq<u8>> {
    match outcome {
        Ok(buffer) => Some(contents(buffer)),
        Err(_) => None,
    }
}

/// Whether a returned body is the one that the model gives.
pub open spec fn body_is(done: Result<Bytes, BridgeError>, expected: Result<
    Seq<u8>,
    BridgeError,
>) -> bool {
    match (done, expected) {
        (Ok(buffer), Ok(body)) => contents(buffer) == body,
        (Err(e), Err(f)) => e == f,
        _ => false,
    }
}

/// The context of one request.
pub struct RequestBlob {
    data: ParsedRequest,
    oneshot: Option<Sender<Response>>,
    sent: bool,
    body: Option<Bytes>,
    headers: Vec<(Bytes, Bytes)>,
    delivered: Ghost<Option<ResponseView>>,
}

impl View for RequestBlob {
    type V = ContextView;

    closed spec fn view(&self) -> ContextView {
        ContextView {
            request: self.data@,
            body: match self.body {
                Some(buffer) => Some(contents(buffer)),
                None => None,
            },
            headers: fields(self.headers@),
            delivered: self.delivered@,
        }
    }
}

impl RequestBlob {
    /// The sender is held until the response is delivered, and no longer.
    pub closed spec fn wf(&self) -> bool {
        &&& self.sent == (self.delivered@ is Some)
        &&& self.sent == (self.oneshot is None)
    }

    /// The context of a request that a route has matched. The response
    /// will go to the receiver that belongs to `sender`.
    pub fn new_with_route(data: ParsedRequest, sender: Sender<Response>) -> (context: RequestBlob)
        ensures
            context.wf(),
            context@ == (ContextView {
                request: data@,
                body: None,
                headers: Seq::empty(),
                delivered: None,
            }),
    {
        let context = RequestBlob {
            data,
            oneshot: Some(sender),
            sent: false,
            body: None,
            headers: Vec::new(),
            delivered: Ghost(None),
        };
        assert(context@.headers =~= Seq::<(Seq<u8>, Seq<u8>)>::empty());
        context
    }

    /// Delivers a response. In checked mode a context that has delivered
    /// refuses; otherwise a second send is passed over. That the receiver
    /// has gone away is no error: nobody is left to tell.
    pub fn send_result_checked(&mut self, inner: ResponseValue, checked: bool) -> (done: Result<
        (),
        BridgeError,
    >)
        requires
            old(self).wf(),
        ensures
            final(self).wf(),
            (final(self)@, done) == send_step(old(self)@, inner@, checked),
    {
        if self.sent {
            if checked {
                return Err(BridgeError::AlreadySent);
            }
            return Ok(());
        }
        let mut headers: Vec<(Bytes, Bytes)> = Vec::new();
        core::mem::swap(&mut self.headers, &mut headers);
        let message = Response { value: inner, status: STATUS_OK, headers };
        let ghost sent = message@;
        match self.oneshot.take() {
            Some(sender) => {
                let _ = hand_over(sender, message);
            },
            None => {},
        }
        self.sent = true;
        self.delivered = Ghost(Some(sent));
        assert(self@.headers =~= Seq::<(Seq<u8>, Seq<u8>)>::empty());
        Ok(())
    }

    /// Delivers a response in checked mode.
    pub fn send_result(&mut self, response: ResponseValue) -> (done: Result<(), BridgeError>)
        requires
            old(self).wf(),
        ensures
            final(self).wf(),
            (final(self)@, done) == send_step(old(self)@, response@, true),
    {
        self.send_result_checked(response, true)
    }

    /// Delivers a text body.
    pub fn send_text(&mut self, response: Bytes) -> (done: Result<(), BridgeError>)
        requires
            old(self).wf(),
        ensures
            final(self).wf(),
            (final(self)@, done) == send_step(
                old(self)@,
                ResponseValueView::Text(contents(response)),
                true,
            ),
    {
        self.send_result(ResponseValue::Text(response))
    }

    /// Delivers a string as a text body.
    pub fn send_fast_text(&mut self, response: String) -> (done: Result<(), BridgeError>)
        requires
            old(self).wf(),
        ensures
            final(self).wf(),
            (final(self)@, done) == send_step(
                old(self)@,
                ResponseValueView::Text(encode_utf8(response@)),
                true,
            ),
    {
        let body = buffer_from_slice(response.as_str().as_bytes());
        self.send_result(ResponseValue::Text(body))
    }

    /// Delivers a string as a text body.
    pub fn send_napi_text(&mut self, response: String) -> (done: Result<(), BridgeError>)
        requires
            old(self).wf(),
        ensures
            final(self).wf(),
            (final(self)@, done) == send_step(
                old(self)@,
                ResponseValueView::Text(encode_utf8(response@)),
                true,
            ),
    {
        let body = buffer_from_slice(response.as_str().as_bytes());
        self.send_result(ResponseValue::Text(body))
    }

    /// Delivers a byte buffer as a text body.
    pub fn send_bytes_text(&mut self, response: Bytes) -> (done: Result<(), BridgeError>)
        requires
            old(self).wf(),
        ensures
            final(self).wf(),
            (final(self)@, done) == send_step(
                old(self)@,
                ResponseValueView::Text(contents(response)),
                true,
            ),
    {
        self.send_result(ResponseValue::Text(response))
    }

    /// Delivers a response without the guard against a second delivery.
    /// For callers that are sure to send once; a second call is passed
    /// over and reports no error.
    pub fn send_unchecked(&mut self, response: ResponseValue)
        requires
            old(self).wf(),
        ensures
            final(self).wf(),
            final(self)@ == send_step(old(self)@, response@, false).0,
    {
        let _ = self.send_result_checked(response, false);
    }

    /// Delivers a byte buffer as a text body without the guard against a
    /// second delivery.
    pub fn unsafe_send_bytes_text(&mut self, response: Bytes)
        requires
            old(self).wf(),
        ensures
            final(self).wf(),
            final(self)@ == send_step(
                old(self)@,
                ResponseValueView::Text(contents(response)),
                false,
            ).0,
    {
        self.send_unchecked(ResponseValue::Text(response));
    }

    /// Delivers what the JSON writer made of a value: its text as a JSON
    /// body, or its failure as an error, with nothing sent.
    pub fn send_written(&mut self, written: Result<Bytes, serde_json::Error>) -> (done: Result<
        (),
        BridgeError,
    >)
        requires
            old(self).wf(),
        ensures
            final(self).wf(),
            match written {
                Ok(text) => (final(self)@, done) == send_step(
                    old(self)@,
                    ResponseValueView::Json(contents(text)),
                    true,
                ),
                Err(_) => final(self)@ == old(self)@ && done == Err::<(), BridgeError>(
                    BridgeError::SerializationFailure,
                ),
            },
    {
        match written {
            Ok(text) => self.send_result(ResponseValue::Json(text)),
            Err(_) => Err(BridgeError::SerializationFailure),
        }
    }

    /// Writes a structured value as JSON and delivers the text. Where the
    /// value cannot be written, nothing is sent.
    pub fn send_object(&mut self, response: Value) -> (done: Result<(), BridgeError>)
        requires
            old(self).wf(),
        ensures
            final(self).wf(),
            match json_text(response) {
                Some(text) => (final(self)@, done) == send_step(
                    old(self)@,
                    ResponseValueView::Json(text),
                    true,
                ),
                None => final(self)@ == old(self)@ && done == Err::<(), BridgeError>(
                    BridgeError::SerializationFailure,
                ),
            },
    {
        let written = write_json(&response);
        self.send_written(written)
    }

    /// Delivers a JSON document that is already text.
    pub fn send_stringified_object(&mut self, response: Bytes) -> (done: Result<(), BridgeError>)
        requires
            old(self).wf(),
        ensures
            final(self).wf(),
            (final(self)@, done) == send_step(
                old(self)@,
                ResponseValueView::Json(contents(response)),
                true,
            ),
    {
        self.send_result(ResponseValue::Json(response))
    }

    /// Delivers the order to render a template.
    pub fn send_template_resp(
        &mut self,
        group_name: String,
        file_name: String,
        context_json: String,
    ) -> (done: Result<(), BridgeError>)
        requires
            old(self).wf(),
        ensures
            final(self).wf(),
            (final(self)@, done) == send_step(
                old(self)@,
                ResponseValueView::Template(group_name@, file_name@, context_json@),
                true,
            ),
    {
        self.send_result(ResponseValue::Template(group_name, file_name, context_json))
    }

    /// The pairs of the query string, or nothing where the request has no
    /// query string.
    pub fn get_query_params(&self) -> (params: Option<ParamMap>)
        ensures
            match self@.request.query {
                Some(query) => params matches Some(map) && map@ == query_pairs(query),
                None => params is None,
            },
    {
        match &self.data.query {
            Some(query) => Some(parse_query(query.as_slice())),
            None => None,
        }
    }

    /// The parameters that the route bound on the path, or nothing where it
    /// bound none.
    pub fn get_url_params(&self) -> (params: Option<ParamMap>)
        ensures
            match params {
                Some(map) => map@ == self@.request.url_params && map@.len() > 0,
                None => self@.request.url_params.len() == 0,
            },
    {
        if self.data.url_params.is_empty() {
            None
        } else {
            Some(self.data.url_params.copy())
        }
    }

    /// The number of different names among the headers of the request, as
    /// far as the result can count.
    pub fn header_length(&self) -> (n: i64)
        ensures
            n == if distinct_names(self@.request.headers) <= i64::MAX {
                distinct_names(self@.request.headers) as int
            } else {
                i64::MAX as int
            },
    {
        let names: u64 = self.data.headers.name_count() as u64;
        if names > 0x7fff_ffff_ffff_ffff {
            0x7fff_ffff_ffff_ffff
        } else {
            names as i64
        }
    }

    /// The value of the first header of the request with this name, the
    /// name taken as it is stored.
    pub fn get_header(&self, name: String) -> (value: Option<Vec<u8>>)
        ensures
            match value {
                Some(v) => first_value(self@.request.headers, encode_utf8(name@)) == Some(v@),
                None => first_value(self@.request.headers, encode_utf8(name@)) is None,
            },
    {
        match self.data.headers.get(name.as_str().as_bytes()) {
            Some(v) => Some(v.clone()),
            None => None,
        }
    }

    /// All headers of the request, in the order in which they came.
    pub fn get_all_headers(&self) -> (headers: ParamMap)
        ensures
            headers@ == self@.request.headers,
    {
        self.data.headers.copy()
    }

    /// Adds a header to the response. Headers go out in the order in which
    /// they were added. Once the response is delivered, nothing is added.
    pub fn add_header(&mut self, key: Bytes, value: Bytes)
        requires
            old(self).wf(),
        ensures
            final(self).wf(),
            final(self)@ == header_step(old(self)@, contents(key), contents(value)),
    {
        if self.sent {
            return ;
        }
        self.headers.push((key, value));
        assert(self@.headers =~= old(self)@.headers.push((contents(key), contents(value))));
    }

    /// Keeps what the transport gave as the body of the request, unless a
    /// body is kept already, and returns the body that is kept.
    pub fn store_body<E>(&mut self, outcome: Result<Bytes, E>) -> (done: Result<Bytes, BridgeError>)
        requires
            old(self).wf(),
        ensures
            final(self).wf(),
            final(self)@ == body_step(old(self)@, read_view(outcome)).0,
            body_is(done, body_step(old(self)@, read_view(outcome)).1),
    {
        if let Some(body) = &self.body {
            return Ok(body.clone());
        }
        match outcome {
            Ok(buffer) => {
                self.body = Some(buffer.clone());
                Ok(buffer)
            },
            Err(_) => Err(BridgeError::BodyReadFailure),
        }
    }

    /// The body of the request. The first call asks `read` for it, which
    /// drains the transport, and keeps what came; later calls return what
    /// is kept and leave `read` alone.
    pub fn get_body<E, F: FnOnce() -> Result<Bytes, E>>(&mut self, read: F) -> (done: Result<
        Bytes,
        BridgeError,
    >)
        requires
            old(self).wf(),
            old(self)@.body is None ==> call_requires(read, ()),
        ensures
            final(self).wf(),
            match old(self)@.body {
                Some(body) => final(self)@ == old(self)@ && body_is(done, Ok(body)),
                None => exists|outcome: Result<Bytes, E>|
                    {
                        &&& #[trigger] call_ensures(read, (), outcome)
                        &&& final(self)@ == body_step(old(self)@, read_view(outcome)).0
                        &&& body_is(done, body_step(old(self)@, read_view(outcome)).1)
                    },
            },
    {
        if let Some(body) = &self.body {
            return Ok(body.clone());
        }
        let outcome = read();
        let ghost given = outcome;
        let done = self.store_body(outcome);
        assert(call_ensures(read, (), given));
        done
    }
}

/// The context after the headers of a list were added one after another.
pub open spec fn add_headers(before: ContextView, added: Seq<(Seq<u8>, Seq<u8>)>) -> ContextView
    decreases added.len(),
{
    if added.len() == 0 {
        before
    } else {
        let last = added.last();
        header_step(add_headers(before, added.drop_last()), last.0, last.1)
    }
}

/// The first checked send on a context succeeds and delivers its payload;
/// a second one is refused as already sent and leaves the context, and so
/// the delivered response, as they were.
pub proof fn law_delivers_exactly_once(
    fresh: ContextView,
    first: ResponseValueView,
    second: ResponseValueView,
)
    requires
        fresh.delivered is None,
    ensures
        ({
            let (once, sent) = send_step(fresh, first, true);
            let (twice, again) = send_step(once, second, true);
            &&& sent is Ok
            &&& once.delivered == Some(
                ResponseView { value: first, status: STATUS_OK, headers: fresh.headers },
            )
            &&& again == Err::<(), BridgeError>(BridgeError::AlreadySent)
            &&& twice == once
        }),
{
}

/// An unchecked send on a context that has delivered reports no error and
/// changes nothing: the response that went out stays the one delivered.
pub proof fn law_unchecked_resend_is_ignored(sent: ContextView, payload: ResponseValueView)
    requires
        sent.delivered is Some,
    ensures
        send_step(sent, payload, false) == (sent, Ok::<(), BridgeError>(())),
{
}

/// The headers added before the send go out with the response, behind
/// those gathered before and in the order in which they were added.
pub proof fn law_headers_keep_their_order(
    fresh: ContextView,
    added: Seq<(Seq<u8>, Seq<u8>)>,
    payload: ResponseValueView,
    checked: bool,
)
    requires
        fresh.delivered is None,
    ensures
        add_headers(fresh, added).delivered is None,
        add_headers(fresh, added).headers == fresh.headers + added,
        send_step(add_headers(fresh, added), payload, checked).0.delivered == Some(
            ResponseView { value: payload, status: STATUS_OK, headers: fresh.headers + added },
        ),
    decreases added.len(),
{
    if added.len() == 0 {
        assert(fresh.headers + added =~= fresh.headers);
    } else {
        law_headers_keep_their_order(fresh, added.drop_last(), payload, checked);
        assert((fresh.headers + added.drop_last()).push(added.last()) =~= fresh.headers + added);
    }
}

/// A header added after the response went out changes nothing.
pub proof fn law_late_headers_are_dropped(sent: ContextView, key: Seq<u8>, value: Seq<u8>)
    requires
        sent.delivered is Some,
    ensures
        header_step(sent, key, value) == sent,
{
}

/// Once the body has been read, asking again returns the same bytes and
/// leaves the context as it is, whatever the transport would give now: the
/// transport is drained once.
pub proof fn law_body_is_read_once(
    before: ContextView,
    first: Option<Seq<u8>>,
    second: Option<Seq<u8>>,
)
    ensures
        ({
            let (kept, body) = body_step(before, first);
            let (after, again) = body_step(kept, second);
            body is Ok ==> again == body && after == kept
        }),
{
}

} // verus!
