//! Immutable byte buffers. Payloads and header fields are held in
//! `bytes::Bytes`, which is shared by reference count and never copied when
//! a response moves from the handler to the connection.

use bytes::Bytes;
use vstd::prelude::*;

verus! {

#[verifier::external_type_specification]
#[verifier::external_body]
pub struct ExBytes(bytes::Bytes);

/// The bytes that a buffer holds.
pub uninterp spec fn contents(buffer: Bytes) -> Seq<u8>;

/// `Bytes::from` on a vector: the buffer takes the vector over and holds
/// its bytes.
#[verifier::external_body]
pub(crate) fn buffer_from_vec(data: Vec<u8>) -> (buffer: Bytes)
    ensures
        contents(buffer) == data@,
{
    Bytes::from(data)
}

/// `Bytes::copy_from_slice`: a new buffer that holds a copy of the slice.
#[verifier::external_body]
pub(crate) fn buffer_from_slice(data: &[u8]) -> (buffer: Bytes)
    ensures
        contents(buffer) == data@,
{
    Bytes::copy_from_slice(data)
}

/// `Bytes::clone`: a second handle on the same bytes.
pub assume_specification[ <Bytes as Clone>::clone ](buffer: &Bytes) -> (copy: Bytes)
    ensures
        contents(copy) == contents(*buffer),
;

/// `Bytes::as_ref`: the bytes of the buffer as a slice.
#[verifier::external_body]
pub(crate) fn buffer_slice(buffer: &Bytes) -> (data: &[u8])
    ensures
        data@ == contents(*buffer),
{
    buffer.as_ref()
}

/// The views of a list of header fields.
pub open spec fn fields(v: Seq<(Bytes, Bytes)>) -> Seq<(Seq<u8>, Seq<u8>)> {
    v.map_values(|e: (Bytes, Bytes)| (contents(e.0), contents(e.1)))
}

} // verus!
