//! The response encoder: from a response to what is written on the wire.
//!
//! The encoder gives the status, the header lines in their order and the
//! body; the transport frames them. A text body goes out under the
//! transport's own content type, so no line is written for it. A template
//! is not rendered here: the renderer is handed group, file and context,
//! and what it returns becomes the body.

use crate::buffer::{buffer_from_vec, buffer_slice, contents};
use crate::response::{
    Response, ResponseValue, ResponseValueView, ResponseView, STATUS_NOT_FOUND,
};
use crate::text::rows;
use bytes::Bytes;
use vstd::prelude::*;
use vstd::slice::slice_to_vec;
use vstd::string::StringSliceAdditionalSpecFns;

verus! {

/// Why a response was not encoded.
#[derive(Clone, Copy, Debug, PartialEq, Eq, Structural)]
pub enum EncodeError {
    /// The renderer failed on the template.
    RenderFailure,
}

/// What is written for one response, as a value of the model.
pub struct EncodedView {
    pub status: u16,
    pub lines: Seq<Seq<u8>>,
    pub body: Seq<u8>,
}

/// What is written for one response: the status, the header lines in
/// their order, and the body.
#[derive(Clone, Debug)]
pub struct Encoded {
    pub status: u16,
    pub lines: Vec<Vec<u8>>,
    pub body: Bytes,
}

impl View for Encoded {
    type V = EncodedView;

    open spec fn view(&self) -> EncodedView {
        EncodedView { status: self.status, lines: rows(self.lines@), body: contents(self.body) }
    }
}

/// The bytes between the name and the value of a header line.
pub open spec fn separator() -> Seq<u8> {
    ": ".spec_bytes()
}

/// The line of one header: name, colon, space, value.
pub open spec fn header_line(field: (Seq<u8>, Seq<u8>)) -> Seq<u8> {
    field.0 + separator() + field.1
}

/// The lines of a list of headers, in the order of the list.
pub open spec fn header_lines(headers: Seq<(Seq<u8>, Seq<u8>)>) -> Seq<Seq<u8>> {
    headers.map_values(|field: (Seq<u8>, Seq<u8>)| header_line(field))
}

/// The line that announces the content type of a payload, where one is
/// written.
pub open spec fn content_type_line(value: ResponseValueView) -> Seq<Seq<u8>> {
    match value {
        ResponseValueView::Text(_) => Seq::empty(),
        ResponseValueView::Json(_) => seq!["Content-Type: application/json".spec_bytes()],
        ResponseValueView::Template(_, _, _) => seq!["Content-Type: text/html".spec_bytes()],
    }
}

/// What is written for a response whose body is `body`: its status, the
/// line of its content type, the lines of its headers in their order, and
/// the body.
pub open spec fn encoded(response: ResponseView, body: Seq<u8>) -> EncodedView {
    EncodedView {
        status: response.status,
        lines: content_type_line(response.value) + header_lines(response.headers),
        body,
    }
}

/// What is written for a request that is rejected: the status of a missing
/// route, no line and no body.
pub open spec fn not_found_view() -> EncodedView {
    EncodedView { status: STATUS_NOT_FOUND, lines: Seq::empty(), body: Seq::empty() }
}

/// What encoding gives once the renderer's answer is known (`None` for its
/// failure; the answer is not looked at for text and JSON).
pub open spec fn encode_step(response: ResponseView, rendered: Option<Seq<u8>>) -> Result<
    EncodedView,
    EncodeError,
> {
    match response.value {
        ResponseValueView::Text(body) => Ok(encoded(response, body)),
        ResponseValueView::Json(body) => Ok(encoded(response, body)),
        ResponseValueView::Template(_, _, _) => match rendered {
            Some(body) => Ok(encoded(response, body)),
            None => Err(EncodeError::RenderFailure),
        },
    }
}

/// The view of what the renderer answered.
pub open spec fn rendered_view<E>(outcome: Result<Bytes, E>) -> Option<Seq<u8>> {
    match outcome {
        Ok(body) => Some(contents(body)),
        Err(_) => None,
    }
}

/// Whether an encoding is the one that the model gives.
pub open spec fn encoding_is(done: Result<Encoded, EncodeError>, expected: Result<
    EncodedView,
    EncodeError,
>) -> bool {
    match (done, expected) {
        (Ok(e), Ok(v)) => e@ == v,
        (Err(e), Err(f)) => e == f,
        _ => false,
    }
}

fn append(out: &mut Vec<u8>, data: &[u8])
    ensures
        final(out)@ == old(out)@ + data@,
{
    let mut i: usize = 0;
    while i < data.len()
        invariant
            i <= data.len(),
            out@ == old(out)@ + data@.take(i as int),
        decreases data.len() - i,
    {
        out.push(data[i]);
        assert(data@.take(i + 1) =~= data@.take(i as int).push(data@[i as int]));
        i += 1;
    }
    assert(data@.take(i as int) =~= data@);
}

/// Writes the line of one header.
pub fn write_header_line(name: &[u8], value: &[u8]) -> (line: Vec<u8>)
    ensures
        line@ == header_line((name@, value@)),
{
    let mut line: Vec<u8> = Vec::new();
    append(&mut line, name);
    append(&mut line, ": ".as_bytes());
    append(&mut line, value);
    assert(line@ =~= header_line((name@, value@)));
    line
}

fn write_lines(response: &Response) -> (lines: Vec<Vec<u8>>)
    ensures
        rows(lines@) == content_type_line(response@.value) + header_lines(response@.headers),
{
    let mut lines: Vec<Vec<u8>> = Vec::new();
    match &response.value {
        ResponseValue::Text(_) => {},
        ResponseValue::Json(_) => {
            lines.push(slice_to_vec("Content-Type: application/json".as_bytes()));
        },
        ResponseValue::Template(_, _, _) => {
            lines.push(slice_to_vec("Content-Type: text/html".as_bytes()));
        },
    }
    let ghost first = content_type_line(response@.value);
    assert(rows(lines@) =~= first);
    let mut i: usize = 0;
    assert(header_lines(response@.headers).take(0) =~= Seq::<Seq<u8>>::empty());
    while i < response.headers.len()
        invariant
            i <= response.headers.len(),
            first == content_type_line(response@.value),
            rows(lines@) == first + header_lines(response@.headers).take(i as int),
        decreases response.headers.len() - i,
    {
        let ghost before = rows(lines@);
        let line = write_header_line(
            buffer_slice(&response.headers[i].0),
            buffer_slice(&response.headers[i].1),
        );
        lines.push(line);
        assert(rows(lines@) =~= before.push(line@));
        assert(response@.headers[i as int] == (
            contents(response.headers@[i as int].0),
            contents(response.headers@[i as int].1),
        ));
        assert(header_lines(response@.headers).take(i + 1) =~= header_lines(
            response@.headers,
        ).take(i as int).push(line@));
        assert(rows(lines@) =~= first + header_lines(response@.headers).take(i + 1));
        i += 1;
    }
    assert(header_lines(response@.headers).take(i as int) =~= header_lines(response@.headers));
    lines
}

/// What is written for a request that is rejected.
pub fn not_found() -> (out: Encoded)
    ensures
        out@ == not_found_view(),
{
    let out = Encoded {
        status: STATUS_NOT_FOUND,
        lines: Vec::new(),
        body: buffer_from_vec(Vec::new()),
    };
    assert(out@.lines =~= Seq::<Seq<u8>>::empty());
    assert(out@.body =~= Seq::<u8>::empty());
    out
}

/// Encodes a response whose template, if it holds one, the renderer has
/// answered for. The answer is passed over for text and JSON.
pub fn encode_rendered<E>(response: Response, rendered: Result<Bytes, E>) -> (done: Result<
    Encoded,
    EncodeError,
>)
    ensures
        encoding_is(done, encode_step(response@, rendered_view(rendered))),
{
    let lines = write_lines(&response);
    let status = response.status;
    match response.value {
        ResponseValue::Text(body) => Ok(Encoded { status, lines, body }),
        ResponseValue::Json(body) => Ok(Encoded { status, lines, body }),
        ResponseValue::Template(_, _, _) => match rendered {
            Ok(body) => Ok(Encoded { status, lines, body }),
            Err(_) => Err(EncodeError::RenderFailure),
        },
    }
}

/// Encodes a response. Text and JSON go out as they are. For a template
/// the renderer is called with group, file and context, and its answer is
/// the body; its failure is an error, and nothing is written.
pub fn encode<E, F: FnOnce(String, String, String) -> Result<Bytes, E>>(
    response: Response,
    render: F,
) -> (done: Result<Encoded, EncodeError>)
    requires
        response.value matches ResponseValue::Template(group, file, context) ==> call_requires(
            render,
            (group, file, context),
        ),
    ensures
        match response.value {
            ResponseValue::Template(group, file, context) => exists|outcome: Result<Bytes, E>|
                {
                    &&& #[trigger] call_ensures(render, (group, file, context), outcome)
                    &&& encoding_is(done, encode_step(response@, rendered_view(outcome)))
                },
            _ => encoding_is(done, encode_step(response@, None)),
        },
{
    let lines = write_lines(&response);
    let status = response.status;
    match response.value {
        ResponseValue::Text(body) => Ok(Encoded { status, lines, body }),
        ResponseValue::Json(body) => Ok(Encoded { status, lines, body }),
        ResponseValue::Template(group, file, context) => {
            let outcome = render(group, file, context);
            let ghost given = outcome;
            let done = match outcome {
                Ok(body) => Ok(Encoded { status, lines, body }),
                Err(_) => Err(EncodeError::RenderFailure),
            };
            assert(call_ensures(render, (group, file, context), given));
            done
        },
    }
}

} // verus!
