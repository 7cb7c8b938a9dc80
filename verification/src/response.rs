//! What a handler answers with: a tagged payload, a status, and the headers
//! that were gathered for it.

use crate::buffer::{contents, fields};
use bytes::Bytes;
use vstd::prelude::*;

verus! {

/// The status that a delivered response carries.
pub const STATUS_OK: u16 = 200;

/// The status of a rejected request.
pub const STATUS_NOT_FOUND: u16 = 404;

/// A payload, as a value of the model.
pub enum ResponseValueView {
    Text(Seq<u8>),
    Json(Seq<u8>),
    Template(Seq<char>, Seq<char>, Seq<char>),
}

/// A payload. `Text` and `Json` hold the finished body. `Template` names a
/// group, a file and a context for the renderer, whose output becomes the
/// body.
#[derive(Clone, Debug)]
pub enum ResponseValue {
    Text(Bytes),
    Json(Bytes),
    Template(String, String, String),
}

impl View for ResponseValue {
    type V = ResponseValueView;

    open spec fn view(&self) -> ResponseValueView {
        match self {
            ResponseValue::Text(body) => ResponseValueView::Text(contents(*body)),
            ResponseValue::Json(body) => ResponseValueView::Json(contents(*body)),
            ResponseValue::Template(group, file, context) => ResponseValueView::Template(
                group@,
                file@,
                context@,
            ),
        }
    }
}

/// A response, as a value of the model.
pub struct ResponseView {
    pub value: ResponseValueView,
    pub status: u16,
    pub headers: Seq<(Seq<u8>, Seq<u8>)>,
}

/// A response: the payload, its status, and the outgoing headers in the
/// order in which they were added.
#[derive(Clone, Debug)]
pub struct Response {
    pub value: ResponseValue,
    pub status: u16,
    pub headers: Vec<(Bytes, Bytes)>,
}

impl View for Response {
    type V = ResponseView;

    open spec fn view(&self) -> ResponseView {
        ResponseView { value: self.value@, status: self.status, headers: fields(self.headers@) }
    }
}

} // verus!
