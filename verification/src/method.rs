//! The HTTP methods that routes are registered under.

use crate::text::bytes_eq;
use vstd::prelude::*;

verus! {

/// The different HTTP methods.
#[derive(Clone, Copy, Debug, PartialEq, Eq, Structural)]
pub enum Methods {
    GET,
    POST,
    PUT,
    PATCH,
    DELETE,
}

/// Whether two strings hold the same text.
pub fn str_eq(a: &str, b: &str) -> (same: bool)
    ensures
        same == (a@ == b@),
{
    let same = bytes_eq(a.as_bytes(), b.as_bytes());
    proof {
        vstd::utf8::encode_utf8_decode_utf8(a@);
        vstd::utf8::encode_utf8_decode_utf8(b@);
    }
    same
}

/// The upper-case form of a text.
pub uninterp spec fn uppercase(text: Seq<char>) -> Seq<char>;

/// `str::to_uppercase`: the text with each character in its upper-case form.
#[verifier::external_body]
pub(crate) fn to_uppercase(text: &str) -> (upper: String)
    ensures
        upper@ == uppercase(text@),
{
    text.to_uppercase()
}

impl Methods {
    /// The method that a name stands for: the five upper-case names, and nothing else.
    pub open spec fn from_name(name: Seq<char>) -> Option<Methods> {
        if name == "GET"@ {
            Some(Methods::GET)
        } else if name == "POST"@ {
            Some(Methods::POST)
        } else if name == "PUT"@ {
            Some(Methods::PUT)
        } else if name == "PATCH"@ {
            Some(Methods::PATCH)
        } else if name == "DELETE"@ {
            Some(Methods::DELETE)
        } else {
            None
        }
    }

    /// Reads a method from its name as a request carries it, in whatever case.
    pub fn parse(name: &str) -> (found: Option<Methods>)
        ensures
            found == Methods::from_name(uppercase(name@)),
    {
        let upper = to_uppercase(name);
        Methods::convert_from_str(upper.as_str())
    }

    /// Reads a method from its upper-case name.
    pub fn convert_from_str(method: &str) -> (found: Option<Methods>)
        ensures
            found == Methods::from_name(method@),
    {
        if str_eq(method, "GET") {
            Some(Methods::GET)
        } else if str_eq(method, "POST") {
            Some(Methods::POST)
        } else if str_eq(method, "PUT") {
            Some(Methods::PUT)
        } else if str_eq(method, "PATCH") {
            Some(Methods::PATCH)
        } else if str_eq(method, "DELETE") {
            Some(Methods::DELETE)
        } else {
            None
        }
    }
}

} // verus!
