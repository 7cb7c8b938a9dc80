//! Structured values written out as JSON text.

use crate::buffer::contents;
use bytes::Bytes;
use serde_json::Value;
use vstd::prelude::*;

verus! {

#[verifier::external_type_specification]
#[verifier::external_body]
pub struct ExValue(serde_json::Value);

#[verifier::external_type_specification]
#[verifier::external_body]
pub struct ExJsonError(serde_json::Error);

/// The JSON text of a value, or nothing where the value cannot be written.
pub uninterp spec fn json_text(value: Value) -> Option<Seq<u8>>;

/// `serde_json::to_writer` into a fresh buffer: the whole text of the value
/// on success, the serializer's error otherwise. Whether it succeeds, and
/// with which text, depends on the value alone.
#[verifier::external_body]
pub(crate) fn write_json(value: &Value) -> (text: Result<Bytes, serde_json::Error>)
    ensures
        match text {
            Ok(buffer) => json_text(*value) == Some(contents(buffer)),
            Err(_) => json_text(*value) is None,
        },
{
    let mut writer = bytes::BufMut::writer(bytes::BytesMut::with_capacity(128));
    match serde_json::to_writer(&mut writer, value) {
        Ok(()) => Ok(writer.into_inner().freeze()),
        Err(error) => Err(error),
    }
}

} // verus!
