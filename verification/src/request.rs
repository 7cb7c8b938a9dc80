//! The parsed request that a handler reads: method, path, query string,
//! headers, and the parameters that the matched route bound.

use crate::method::Methods;
use crate::params::ParamMap;
use crate::text::{find_byte, run_length};
use vstd::prelude::*;
use vstd::slice::{slice_subrange, slice_to_vec};

verus! {

/// The byte that ends the path of a request target and starts its query.
pub const QUESTION_MARK: u8 = 63;

/// The path of a request target: what stands before the first question
/// mark.
pub open spec fn target_path(target: Seq<u8>) -> Seq<u8> {
    target.take(run_length(target, QUESTION_MARK) as int)
}

/// The query string of a request target: what stands behind the first
/// question mark, and nothing where the target has none.
pub open spec fn target_query(target: Seq<u8>) -> Option<Seq<u8>> {
    let n = run_length(target, QUESTION_MARK) as int;
    if n < target.len() {
        Some(target.skip(n + 1))
    } else {
        None
    }
}

/// The view of a byte string that may be absent.
pub open spec fn optional(bytes: Option<Vec<u8>>) -> Option<Seq<u8>> {
    match bytes {
        Some(b) => Some(b@),
        None => None,
    }
}

/// Cuts a request target into its path and its query string.
pub fn split_target(target: &[u8]) -> (parts: (Vec<u8>, Option<Vec<u8>>))
    ensures
        parts.0@ == target_path(target@),
        optional(parts.1) == target_query(target@),
{
    assert(target@.skip(0) =~= target@);
    let at = find_byte(target, 0, QUESTION_MARK);
    let path = slice_to_vec(slice_subrange(target, 0, at));
    assert(path@ =~= target_path(target@));
    if at < target.len() {
        let query = slice_to_vec(slice_subrange(target, at + 1, target.len()));
        assert(query@ =~= target@.skip(at + 1));
        (path, Some(query))
    } else {
        (path, None)
    }
}

/// A parsed request, as a value of the model.
pub struct RequestView {
    pub method: Methods,
    pub path: Seq<u8>,
    pub query: Option<Seq<u8>>,
    pub headers: Seq<(Seq<u8>, Seq<u8>)>,
    pub url_params: Seq<(Seq<u8>, Seq<u8>)>,
}

/// A parsed request.
#[derive(Clone, Debug, PartialEq, Eq)]
pub struct ParsedRequest {
    pub method: Methods,
    pub path: Vec<u8>,
    pub query: Option<Vec<u8>>,
    pub headers: ParamMap,
    pub url_params: ParamMap,
}

impl View for ParsedRequest {
    type V = RequestView;

    open spec fn view(&self) -> RequestView {
        RequestView {
            method: self.method,
            path: self.path@,
            query: optional(self.query),
            headers: self.headers@,
            url_params: self.url_params@,
        }
    }
}

impl ParsedRequest {
    /// The request with this method, target and headers, and with the
    /// parameters that its route bound on the path.
    pub fn new(method: Methods, target: &[u8], headers: ParamMap, url_params: ParamMap) -> (request:
        ParsedRequest)
        ensures
            request@.method == method,
            request@.path == target_path(target@),
            request@.query == target_query(target@),
            request@.headers == headers@,
            request@.url_params == url_params@,
    {
        let (path, query) = split_target(target);
        ParsedRequest { method, path, query, headers, url_params }
    }
}

} // verus!
