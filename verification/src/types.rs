//! Plain value objects: the request and response under verification, the
//! verification outcome, and the scopes that say which request and response
//! fields a certification expression covers.

use vstd::prelude::*;

verus! {

/// An HTTP request: immutable input to verification.
#[derive(Debug, PartialEq)]
pub struct Request {
    pub method: String,
    pub url: String,
    pub headers: Vec<(String, String)>,
    pub body: Vec<u8>,
}

/// An HTTP response: immutable input to verification; a new, sanitized
/// response is built as output on success.
#[derive(Debug, PartialEq)]
pub struct Response {
    pub status_code: u16,
    pub headers: Vec<(String, String)>,
    pub body: Vec<u8>,
}

/// The terminal verification outcome: whether the pair passed, and the
/// response that may safely be trusted when it did.
#[derive(Debug, PartialEq)]
pub struct CertificationResult {
    pub passed: bool,
    pub response: Option<Response>,
}

/// The mathematical model of a response.
pub struct ResponseVal {
    pub status_code: u16,
    pub headers: Seq<(Seq<char>, Seq<char>)>,
    pub body: Seq<u8>,
}

impl Response {
    /// The mathematical value this response stands for.
    pub open spec fn model(self) -> ResponseVal {
        ResponseVal {
            status_code: self.status_code,
            headers: Seq::new(self.headers@.len(), |i: int| (self.headers@[i].0@, self.headers@[i].1@)),
            body: self.body@,
        }
    }
}

/// The mathematical model of a verification outcome.
pub struct CertificationResultVal {
    pub passed: bool,
    pub response: Option<ResponseVal>,
}

impl CertificationResult {
    /// The mathematical value this outcome stands for.
    pub open spec fn model(self) -> CertificationResultVal {
        CertificationResultVal {
            passed: self.passed,
            response: match self.response {
                Some(r) => Some(r.model()),
                None => None,
            },
        }
    }
}

/// Which request fields a certification expression covers: a header
/// allow-list and a query-parameter allow-list; the method is always
/// covered.
#[derive(Debug, PartialEq)]
pub struct RequestCertification {
    pub certified_request_headers: Vec<String>,
    pub certified_query_parameters: Vec<String>,
}

/// Which response fields a certification expression covers: a header
/// allow-list.
#[derive(Debug, PartialEq)]
pub struct ResponseCertification {
    pub certified_response_headers: Vec<String>,
}

} // verus!
