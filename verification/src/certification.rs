//! A certified request/response pair: the hash of the expression text that
//! scoped the certification, together with the request and response hashes
//! that same expression produced. The verifier compares these precomputed
//! hashes against what the certificate's tree certifies, so they must be
//! built from the very request and response under verification.

use vstd::prelude::*;

verus! {

use vstd::utf8::encode_utf8;

use crate::error::ResponseVerificationError;
use crate::hash::hash;
use crate::hash::request_hash;
use crate::hash::response_headers_hash;
use crate::hash::sha256_of;
use crate::hash::spec_request_hash;
use crate::hash::spec_response_headers_hash;
use crate::hash_tree::append_bytes;
use crate::types::Request;
use crate::types::RequestCertification;
use crate::types::Response;
use crate::types::ResponseCertification;

broadcast use vstd::std_specs::vec::group_vec_axioms, vstd::seq::group_seq_axioms;

/// What an expression certifies about a request/response pair: nothing,
/// the response only, or both sides; each hash is a 32-byte
/// representation-independent digest.
#[derive(Debug, PartialEq)]
pub enum Certification {
    Skip { cel_expr_hash: Vec<u8> },
    ResponseOnly { cel_expr_hash: Vec<u8>, response_hash: Vec<u8> },
    Full { cel_expr_hash: Vec<u8>, request_hash: Vec<u8>, response_hash: Vec<u8> },
}

/// The mathematical model of a certification.
pub enum CertificationVal {
    Skip { cel_expr_hash: Seq<u8> },
    ResponseOnly { cel_expr_hash: Seq<u8>, response_hash: Seq<u8> },
    Full { cel_expr_hash: Seq<u8>, request_hash: Seq<u8>, response_hash: Seq<u8> },
}

impl Certification {
    /// The mathematical value this certification stands for.
    pub open spec fn model(self) -> CertificationVal {
        match self {
            Certification::Skip { cel_expr_hash } => CertificationVal::Skip {
                cel_expr_hash: cel_expr_hash@,
            },
            Certification::ResponseOnly { cel_expr_hash, response_hash } => {
                CertificationVal::ResponseOnly {
                    cel_expr_hash: cel_expr_hash@,
                    response_hash: response_hash@,
                }
            },
            Certification::Full { cel_expr_hash, request_hash, response_hash } => {
                CertificationVal::Full {
                    cel_expr_hash: cel_expr_hash@,
                    request_hash: request_hash@,
                    response_hash: response_hash@,
                }
            },
        }
    }
}

/// The response hash under a certification scope: the hash of the covered
/// headers' hash concatenated with the body hash; a precomputed body hash
/// stands in for the body's own when supplied.
pub open spec fn spec_response_hash(
    response: Response,
    scope: ResponseCertification,
    body_hash: Seq<u8>,
) -> Seq<u8> {
    sha256_of(spec_response_headers_hash(response, scope) + body_hash)
}

/// The body hash a constructor uses: the override if one was supplied,
/// else the hash of the response body.
pub open spec fn spec_body_hash(response: Response, over: Option<Vec<u8>>) -> Seq<u8> {
    match over {
        Some(h) => h@,
        None => sha256_of(response.body@),
    }
}

/// Hashes the covered response headers and the body into one response
/// hash.
pub fn response_hash(
    response: &Response,
    response_certification: &ResponseCertification,
    response_body_hash: Option<Vec<u8>>,
) -> (r: Vec<u8>)
    ensures
        r@ == spec_response_hash(
            *response,
            *response_certification,
            spec_body_hash(*response, response_body_hash),
        ),
        r@.len() == 32,
{
    let body_hash = match response_body_hash {
        Some(h) => h,
        None => hash(response.body.as_slice()),
    };
    let mut buf = response_headers_hash(response, response_certification);
    append_bytes(&mut buf, &body_hash);
    hash(buf.as_slice())
}

impl Certification {
    /// A certification that excludes both the request and the response:
    /// only the expression text itself is hashed.
    pub fn skip(cel_expr: &str) -> (r: Certification)
        ensures
            (r matches Certification::Skip { cel_expr_hash } && cel_expr_hash@ == sha256_of(
                encode_utf8(cel_expr@),
            )),
    {
        let cel_expr_hash = hash(cel_expr.as_bytes());
        Certification::Skip { cel_expr_hash }
    }

    /// A certification that covers the response but not the request.
    pub fn response_only(
        cel_expr: &str,
        response_certification: &ResponseCertification,
        response: &Response,
        response_body_hash: Option<Vec<u8>>,
    ) -> (r: Certification)
        ensures
            (r matches Certification::ResponseOnly { cel_expr_hash, response_hash }
                && cel_expr_hash@ == sha256_of(encode_utf8(cel_expr@)) && response_hash@
                == spec_response_hash(
                *response,
                *response_certification,
                spec_body_hash(*response, response_body_hash),
            )),
    {
        let cel_expr_hash = hash(cel_expr.as_bytes());
        let rh = response_hash(response, response_certification, response_body_hash);
        Certification::ResponseOnly { cel_expr_hash, response_hash: rh }
    }

    /// A certification that covers both the request and the response;
    /// fails exactly when the request URL does not parse.
    pub fn full(
        cel_expr: &str,
        request_certification: &RequestCertification,
        request: &Request,
        response_certification: &ResponseCertification,
        response: &Response,
        response_body_hash: Option<Vec<u8>>,
    ) -> (r: Result<Certification, ResponseVerificationError>)
        ensures
            match r {
                Ok(c) => (spec_request_hash(*request, *request_certification) matches Some(rh)
                    && (c matches Certification::Full {
                    cel_expr_hash,
                    request_hash,
                    response_hash,
                } && cel_expr_hash@ == sha256_of(encode_utf8(cel_expr@)) && request_hash@ == rh
                    && response_hash@ == spec_response_hash(
                    *response,
                    *response_certification,
                    spec_body_hash(*response, response_body_hash),
                ))),
                Err(e) => spec_request_hash(*request, *request_certification) is None && (
                e matches ResponseVerificationError::MalformedUrl(u) && u@ == request.url@),
            },
    {
        let cel_expr_hash = hash(cel_expr.as_bytes());
        let rqh = match request_hash(request, request_certification) {
            Some(h) => h,
            None => {
                return Err(ResponseVerificationError::MalformedUrl(request.url.clone()));
            },
        };
        let rh = response_hash(response, response_certification, response_body_hash);
        Ok(Certification::Full { cel_expr_hash, request_hash: rqh, response_hash: rh })
    }
}

} // verus!
