//! The two-version verification state machine.
//!
//! A version number taken from the certificate header selects the protocol:
//! version 1 certifies the whole decoded body under the request path, against
//! the tree digest signed for the service identity; version 2 certifies
//! expression-scoped request/response hashes under `expr_path`. An
//! unsupported version is an immediate typed failure.

use vstd::prelude::*;

verus! {

use vstd::utf8::encode_utf8;

use crate::certificate::Certificate;
use crate::certificate::CertificateVal;
use crate::certificate::MAX_DELEGATION_DEPTH;
use crate::certificate::cert_from_cbor;
use crate::certificate::spec_cert_from_cbor;
use crate::certification::Certification;
use crate::certification::CertificationVal;
use crate::cbor::CborVal;
use crate::cbor::CborValue;
use crate::cbor::lemma_models_of_index;
use crate::cbor::models_of;
use crate::cbor::parse_cbor;
use crate::cbor::spec_parse_cbor;
use crate::error::ResponseVerificationError;
use crate::error::VerificationErrorVal;
use crate::hash::hash;
use crate::hash::sha256_of;
use crate::hash_tree::HashTree;
use crate::hash_tree::HashTreeVal;
use crate::hash_tree::LookupResult;
use crate::hash_tree::LookupResultVal;
use crate::hash_tree::append_bytes;
use crate::hash_tree::clone_bytes;
use crate::hash_tree::lookup_path;
use crate::hash_tree::spec_lookup_path;
use crate::hash_tree::spec_tree_from_cbor;
use crate::hash_tree::tree_from_cbor;
use crate::types::CertificationResult;
use crate::types::CertificationResultVal;
use crate::types::Request;
use crate::types::Response;
use crate::types::ResponseVal;
use crate::uri::split_url;
use crate::uri::uri_parts_of;
use crate::validation::spec_time_ok;
use crate::validation::spec_validate_body;
use crate::validation::spec_validate_tree;
use crate::validation::validate_body;
use crate::validation::validate_certificate_time;
use crate::validation::validate_tree;

broadcast use vstd::std_specs::vec::group_vec_axioms, vstd::seq::group_seq_axioms;

/// The lowest protocol version this verifier supports.
pub const MIN_VERIFICATION_VERSION: u8 = 1;

/// The highest protocol version this verifier supports.
pub const MAX_VERIFICATION_VERSION: u8 = 2;

/// The fields the header splitter extracts from the certificate header:
/// raw byte slices for the certificate, the tree and the expression path,
/// and the protocol version; absent fields are `None`.
#[derive(Debug, PartialEq)]
pub struct CertificateHeader {
    pub certificate: Option<Vec<u8>>,
    pub tree: Option<Vec<u8>>,
    pub version: Option<u8>,
    pub expr_path: Option<Vec<u8>>,
}

/// The model of a verification outcome or typed failure.
pub open spec fn result_model(
    r: Result<CertificationResult, ResponseVerificationError>,
) -> Result<CertificationResultVal, VerificationErrorVal> {
    match r {
        Ok(c) => Ok(c.model()),
        Err(e) => Err(e.model()),
    }
}

/// The sanitized response handed back on success: the original status and
/// body with the headers cleared (they were not certified).
pub open spec fn spec_sanitized(response: Response) -> ResponseVal {
    ResponseVal { status_code: response.status_code, headers: Seq::empty(), body: response.body@ }
}

/// Cryptographic validation of the certificate's signature (and of its
/// delegation chain) against the network's root public key is not yet
/// performed: this step accepts every certificate. It is the single call
/// site where that check belongs, so it can be completed without touching
/// the rest of the pipeline.
pub fn validate_certificate_signature(_certificate: &Certificate, _canister_id: &[u8]) -> (r: bool)
    ensures
        r == true,
{
    true
}

/// What whole-body verification returns: the URL must parse; with a tree
/// and certificate present, the time bound must hold, and the pair passes
/// exactly when the certificate signs the tree's digest for the service
/// identity and the tree certifies the decoded body's hash under the
/// request path; with either missing, the pair fails without an error.
pub open spec fn spec_v1(
    request: Request,
    response: Response,
    canister_id: Seq<u8>,
    now: nat,
    max_offset: nat,
    tc: Option<(HashTreeVal, CertificateVal)>,
    decoded_body: Seq<u8>,
) -> Result<CertificationResultVal, VerificationErrorVal> {
    match uri_parts_of(request.url@) {
        None => Err(VerificationErrorVal::MalformedUrl(request.url@)),
        Some(pq) => match tc {
            Some((tree, cert)) => {
                if !spec_time_ok(cert, now, max_offset) {
                    Err(VerificationErrorVal::TimeValidation)
                } else {
                    let passed = spec_validate_tree(canister_id, cert, tree) && spec_validate_body(
                        tree,
                        encode_utf8(pq.0),
                        sha256_of(decoded_body),
                    );
                    Ok(
                        CertificationResultVal {
                            passed,
                            response: if passed {
                                Some(spec_sanitized(response))
                            } else {
                                None
                            },
                        },
                    )
                }
            },
            None => Ok(CertificationResultVal { passed: false, response: None }),
        },
    }
}

/// Whole-body (version 1) verification.
pub fn v1_verification(
    request: &Request,
    response: &Response,
    canister_id: &[u8],
    current_time_ns: u128,
    max_cert_time_offset_ns: u128,
    tree: Option<HashTree>,
    certificate: Option<Certificate>,
    decoded_body: &Vec<u8>,
) -> (r: Result<CertificationResult, ResponseVerificationError>)
    requires
        (tree matches Some(t) ==> t.model().well_formed()),
    ensures
        result_model(r) == spec_v1(
            *request,
            *response,
            canister_id@,
            current_time_ns as nat,
            max_cert_time_offset_ns as nat,
            match (tree, certificate) {
                (Some(t), Some(c)) => Some((t.model(), c.model())),
                _ => None,
            },
            decoded_body@,
        ),
{
    let (path, _query) = match split_url(request.url.as_str()) {
        Some(pq) => pq,
        None => {
            return Err(ResponseVerificationError::MalformedUrl(request.url.clone()));
        },
    };
    match (tree, certificate) {
        (Some(tree), Some(certificate)) => {
            let decoded_body_sha = hash(decoded_body.as_slice());
            match validate_certificate_time(
                &certificate,
                &current_time_ns,
                &max_cert_time_offset_ns,
            ) {
                Err(e) => {
                    return Err(e);
                },
                Ok(()) => {},
            }
            let signature_ok = validate_certificate_signature(&certificate, canister_id);
            let result = signature_ok && validate_tree(canister_id, &certificate, &tree)
                && validate_body(&tree, &path, &decoded_body_sha);
            let certified_response = if result {
                Some(
                    Response {
                        status_code: response.status_code,
                        headers: Vec::new(),
                        body: clone_bytes(&response.body),
                    },
                )
            } else {
                None
            };
            let out = CertificationResult { passed: result, response: certified_response };
            proof {
                if result {
                    assert(out.model().response matches Some(rv) && rv.headers =~~= Seq::<
                        (Seq<char>, Seq<char>),
                    >::empty());
                }
            }
            Ok(out)
        },
        _ => Ok(CertificationResult { passed: false, response: None }),
    }
}

/// What the expression-scoped comparison returns: with the tree and the
/// expression path present, the pair passes exactly when the tree
/// certifies the expected bytes under that path; a pruned (`Unknown`) or
/// absent path never passes.
pub open spec fn spec_v2_compare(
    response: Response,
    tp: Option<(HashTreeVal, Seq<Seq<u8>>)>,
    expected: Seq<u8>,
) -> Result<CertificationResultVal, VerificationErrorVal> {
    match tp {
        Some((tree, path)) => {
            let passed = match spec_lookup_path(tree, path) {
                LookupResultVal::Found(b) => b == expected,
                _ => false,
            };
            Ok(
                CertificationResultVal {
                    passed,
                    response: if passed {
                        Some(spec_sanitized(response))
                    } else {
                        None
                    },
                },
            )
        },
        None => Ok(CertificationResultVal { passed: false, response: None }),
    }
}

/// What expression-scoped verification returns: with no certification
/// supplied (no expression was attached), nothing was claimed, so the
/// call trivially passes with no trusted response; a `Skip` certification
/// is treated the same way. Otherwise the certified bytes under
/// `expr_path` must equal the certification's response hash, preceded by
/// its request hash when the expression covers the request.
pub open spec fn spec_v2(
    response: Response,
    tp: Option<(HashTreeVal, Seq<Seq<u8>>)>,
    certification: Option<CertificationVal>,
) -> Result<CertificationResultVal, VerificationErrorVal> {
    match certification {
        None => Ok(CertificationResultVal { passed: true, response: None }),
        Some(c) => match c {
            CertificationVal::Skip { .. } => Ok(
                CertificationResultVal { passed: true, response: None },
            ),
            CertificationVal::ResponseOnly { response_hash, .. } => spec_v2_compare(
                response,
                tp,
                response_hash,
            ),
            CertificationVal::Full { request_hash, response_hash, .. } => spec_v2_compare(
                response,
                tp,
                request_hash + response_hash,
            ),
        },
    }
}

/// Expression-scoped (version 2) verification. The caller must have built
/// the certification from the very request and response under
/// verification, through the `Certification` constructors, so its hashes
/// were recomputed under the same expression that produced the certified
/// ones.
pub fn v2_verification(
    _request: &Request,
    response: &Response,
    _canister_id: &[u8],
    _current_time_ns: u128,
    _max_cert_time_offset_ns: u128,
    tree: Option<HashTree>,
    _certificate: Option<Certificate>,
    expr_path: Option<Vec<Vec<u8>>>,
    certification: Option<Certification>,
) -> (r: Result<CertificationResult, ResponseVerificationError>)
    ensures
        result_model(r) == spec_v2(
            *response,
            match (tree, expr_path) {
                (Some(t), Some(p)) => Some((t.model(), p.deep_view())),
                _ => None,
            },
            match certification {
                Some(c) => Some(c.model()),
                None => None,
            },
        ),
{
    let certification = match certification {
        None => {
            return Ok(CertificationResult { passed: true, response: None });
        },
        Some(c) => c,
    };
    let expected = match certification {
        Certification::Skip { cel_expr_hash: _ } => {
            return Ok(CertificationResult { passed: true, response: None });
        },
        Certification::ResponseOnly { cel_expr_hash: _, response_hash } => response_hash,
        Certification::Full { cel_expr_hash: _, request_hash, response_hash } => {
            let mut e = request_hash;
            append_bytes(&mut e, &response_hash);
            e
        },
    };
    match (tree, expr_path) {
        (Some(tree), Some(path)) => {
            let passed = match lookup_path(&tree, &path) {
                LookupResult::Found(b) => crate::hash::bytes_eq(&b, &expected),
                _ => false,
            };
            let certified_response = if passed {
                Some(
                    Response {
                        status_code: response.status_code,
                        headers: Vec::new(),
                        body: clone_bytes(&response.body),
                    },
                )
            } else {
                None
            };
            let out = CertificationResult { passed, response: certified_response };
            proof {
                if passed {
                    assert(out.model().response matches Some(rv) && rv.headers =~~= Seq::<
                        (Seq<char>, Seq<char>),
                    >::empty());
                }
            }
            Ok(out)
        },
        _ => Ok(CertificationResult { passed: false, response: None }),
    }
}

/// What the state machine returns for each version: version 1 and 2 as
/// above, anything else an unsupported-version failure naming the
/// supported range.
pub open spec fn spec_verification(
    version: u8,
    request: Request,
    response: Response,
    canister_id: Seq<u8>,
    now: nat,
    max_offset: nat,
    tree: Option<HashTreeVal>,
    certificate: Option<CertificateVal>,
    expr_path: Option<Seq<Seq<u8>>>,
    certification: Option<CertificationVal>,
    decoded_body: Seq<u8>,
) -> Result<CertificationResultVal, VerificationErrorVal> {
    if version == 1 {
        spec_v1(
            request,
            response,
            canister_id,
            now,
            max_offset,
            match (tree, certificate) {
                (Some(t), Some(c)) => Some((t, c)),
                _ => None,
            },
            decoded_body,
        )
    } else if version == 2 {
        spec_v2(
            response,
            match (tree, expr_path) {
                (Some(t), Some(p)) => Some((t, p)),
                _ => None,
            },
            certification,
        )
    } else {
        Err(
            VerificationErrorVal::UnsupportedVerificationVersion {
                min_supported_version: MIN_VERIFICATION_VERSION,
                max_supported_version: MAX_VERIFICATION_VERSION,
                requested_version: version,
            },
        )
    }
}

/// Selects the protocol arm for the requested version.
pub fn verification(
    version: u8,
    request: &Request,
    response: &Response,
    canister_id: &[u8],
    current_time_ns: u128,
    max_cert_time_offset_ns: u128,
    tree: Option<HashTree>,
    certificate: Option<Certificate>,
    expr_path: Option<Vec<Vec<u8>>>,
    certification: Option<Certification>,
    decoded_body: &Vec<u8>,
) -> (r: Result<CertificationResult, ResponseVerificationError>)
    requires
        (tree matches Some(t) ==> t.model().well_formed()),
    ensures
        result_model(r) == spec_verification(
            version,
            *request,
            *response,
            canister_id@,
            current_time_ns as nat,
            max_cert_time_offset_ns as nat,
            match tree {
                Some(t) => Some(t.model()),
                None => None,
            },
            match certificate {
                Some(c) => Some(c.model()),
                None => None,
            },
            match expr_path {
                Some(p) => Some(p.deep_view()),
                None => None,
            },
            match certification {
                Some(c) => Some(c.model()),
                None => None,
            },
            decoded_body@,
        ),
{
    if version == 1 {
        v1_verification(
            request,
            response,
            canister_id,
            current_time_ns,
            max_cert_time_offset_ns,
            tree,
            certificate,
            decoded_body,
        )
    } else if version == 2 {
        v2_verification(
            request,
            response,
            canister_id,
            current_time_ns,
            max_cert_time_offset_ns,
            tree,
            certificate,
            expr_path,
            certification,
        )
    } else {
        Err(
            ResponseVerificationError::UnsupportedVerificationVersion {
                min_supported_version: MIN_VERIFICATION_VERSION,
                max_supported_version: MAX_VERIFICATION_VERSION,
                requested_version: version,
            },
        )
    }
}

/// The tree a raw header field stands for: decoded from CBOR, then read
/// as a hash tree.
pub open spec fn spec_tree_field(b: Seq<u8>) -> Result<HashTreeVal, VerificationErrorVal> {
    match spec_parse_cbor(b) {
        None => Err(VerificationErrorVal::Decode),
        Some(v) => match spec_tree_from_cbor(v) {
            None => Err(VerificationErrorVal::Structure),
            Some(t) => Ok(t),
        },
    }
}

/// The certificate a raw header field stands for.
pub open spec fn spec_cert_field(b: Seq<u8>) -> Result<CertificateVal, VerificationErrorVal> {
    match spec_parse_cbor(b) {
        None => Err(VerificationErrorVal::Decode),
        Some(v) => match spec_cert_from_cbor(v, MAX_DELEGATION_DEPTH as nat) {
            None => Err(VerificationErrorVal::Structure),
            Some(c) => Ok(c),
        },
    }
}

/// The byte strings held by a decoded array, from index `i` on, if every
/// element is one.
pub open spec fn spec_bytes_array_items(items: Seq<CborVal>, i: int) -> Option<Seq<Seq<u8>>>
    decreases items.len() - i,
    when i >= 0
{
    if i >= items.len() {
        Some(Seq::empty())
    } else {
        match items[i] {
            CborVal::Bytes(b) => match spec_bytes_array_items(items, i + 1) {
                Some(rest) => Some(seq![b] + rest),
                None => None,
            },
            _ => None,
        }
    }
}

/// The expression path a raw header field stands for: a CBOR array of
/// byte strings.
pub open spec fn spec_expr_path_field(b: Seq<u8>) -> Result<Seq<Seq<u8>>, VerificationErrorVal> {
    match spec_parse_cbor(b) {
        None => Err(VerificationErrorVal::Decode),
        Some(v) => match v {
            CborVal::Array(items) => match spec_bytes_array_items(items, 0) {
                Some(ps) => Ok(ps),
                None => Err(VerificationErrorVal::Structure),
            },
            _ => Err(VerificationErrorVal::Structure),
        },
    }
}

/// Decodes a CBOR array of byte strings, as the expression path is
/// transported.
pub fn parse_cbor_bytes_array(b: &[u8]) -> (r: Result<Vec<Vec<u8>>, ResponseVerificationError>)
    ensures
        match r {
            Ok(ps) => spec_expr_path_field(b@) == Ok::<Seq<Seq<u8>>, VerificationErrorVal>(
                ps.deep_view(),
            ),
            Err(e) => spec_expr_path_field(b@) == Err::<Seq<Seq<u8>>, VerificationErrorVal>(
                e.model(),
            ),
        },
{
    let v = match parse_cbor(b) {
        Ok(v) => v,
        Err(e) => {
            return Err(ResponseVerificationError::Decode(e));
        },
    };
    let items = match v {
        CborValue::Array(items) => items,
        _ => {
            return Err(
                ResponseVerificationError::Structure(crate::hash_tree::StructuralError {}),
            );
        },
    };
    let ghost m = models_of(items@);
    proof {
        lemma_models_of_index(items@);
    }
    let mut out: Vec<Vec<u8>> = Vec::new();
    let mut i: usize = 0;
    while i < items.len()
        invariant
            i <= items@.len(),
            m == models_of(items@),
            spec_parse_cbor(b@) == Some(CborVal::Array(m)),
            m.len() == items@.len(),
            forall|k: int| 0 <= k < m.len() ==> #[trigger] m[k] == items@[k].model(),
            out.deep_view().len() == i,
            match spec_bytes_array_items(m, i as int) {
                Some(rest) => spec_bytes_array_items(m, 0) == Some(out.deep_view() + rest),
                None => spec_bytes_array_items(m, 0) is None,
            },
        decreases items@.len() - i,
    {
        let ghost pre = out.deep_view();
        match &items[i] {
            CborValue::ByteString(bs) => {
                out.push(clone_bytes(bs));
                proof {
                    assert(m[i as int] matches CborVal::Bytes(bb) && bb == items@[i as int]->ByteString_0@);
                    assert(out.deep_view() =~~= pre.push(items@[i as int]->ByteString_0@));
                    match spec_bytes_array_items(m, i + 1) {
                        Some(rest) => {
                            assert(pre.push(items@[i as int]->ByteString_0@) + rest =~~= pre + (seq![
                                items@[i as int]->ByteString_0@,
                            ] + rest));
                        },
                        None => {},
                    }
                }
            },
            _ => {
                return Err(
                    ResponseVerificationError::Structure(crate::hash_tree::StructuralError {}),
                );
            },
        }
        i += 1;
    }
    proof {
        assert(spec_bytes_array_items(m, items@.len() as int) == Some(Seq::<Seq<u8>>::empty()));
        assert(out.deep_view() + Seq::<Seq<u8>>::empty() =~~= out.deep_view());
    }
    Ok(out)
}

/// What the whole verification returns for given collaborator outputs:
/// with no certificate header, version 1 with nothing to check; otherwise
/// each present field is decoded (the tree first, then the certificate,
/// then the expression path, failing on the first malformed one) and the
/// state machine runs under the header's version, or the lowest supported
/// one if absent.
pub open spec fn spec_verify(
    request: Request,
    response: Response,
    canister_id: Seq<u8>,
    now: nat,
    max_offset: nat,
    header: Option<CertificateHeader>,
    certification: Option<Certification>,
    decoded_body: Seq<u8>,
) -> Result<CertificationResultVal, VerificationErrorVal> {
    let certv = match certification {
        Some(c) => Some(c.model()),
        None => None,
    };
    match header {
        None => spec_verification(
            MIN_VERIFICATION_VERSION,
            request,
            response,
            canister_id,
            now,
            max_offset,
            None,
            None,
            None,
            certv,
            decoded_body,
        ),
        Some(h) => {
            let treer = match h.tree {
                None => Ok(None),
                Some(tb) => match spec_tree_field(tb@) {
                    Ok(t) => Ok(Some(t)),
                    Err(e) => Err(e),
                },
            };
            match treer {
                Err(e) => Err(e),
                Ok(tree) => {
                    let certr = match h.certificate {
                        None => Ok(None),
                        Some(cb) => match spec_cert_field(cb@) {
                            Ok(c) => Ok(Some(c)),
                            Err(e) => Err(e),
                        },
                    };
                    match certr {
                        Err(e) => Err(e),
                        Ok(cert) => {
                            let epr = match h.expr_path {
                                None => Ok(None),
                                Some(eb) => match spec_expr_path_field(eb@) {
                                    Ok(p) => Ok(Some(p)),
                                    Err(e) => Err(e),
                                },
                            };
                            match epr {
                                Err(e) => Err(e),
                                Ok(ep) => {
                                    let version = match h.version {
                                        Some(v) => v,
                                        None => MIN_VERIFICATION_VERSION,
                                    };
                                    spec_verification(
                                        version,
                                        request,
                                        response,
                                        canister_id,
                                        now,
                                        max_offset,
                                        tree,
                                        cert,
                                        ep,
                                        certv,
                                        decoded_body,
                                    )
                                },
                            }
                        },
                    }
                },
            }
        },
    }
}

/// The value of the last header at or after index `i` whose name equals
/// `name` ignoring ASCII case, if any.
pub open spec fn spec_find_header_value(
    headers: Seq<(String, String)>,
    name: Seq<char>,
    i: int,
) -> Option<Seq<char>>
    decreases headers.len() - i,
    when i >= 0
{
    if i >= headers.len() {
        None
    } else {
        match spec_find_header_value(headers, name, i + 1) {
            Some(v) => Some(v),
            None => {
                if crate::hash::ascii_lower(encode_utf8(headers[i].0@)) == crate::hash::ascii_lower(
                    encode_utf8(name),
                ) {
                    Some(headers[i].1@)
                } else {
                    None
                }
            },
        }
    }
}

/// A later match determines every earlier search as well.
proof fn lemma_find_header_value_lift(headers: Seq<(String, String)>, name: Seq<char>, i: int)
    requires
        0 <= i <= headers.len(),
        spec_find_header_value(headers, name, i) is Some,
    ensures
        spec_find_header_value(headers, name, 0) == spec_find_header_value(headers, name, i),
    decreases i,
{
    if i > 0 {
        assert(spec_find_header_value(headers, name, i - 1) == spec_find_header_value(
            headers,
            name,
            i,
        ));
        lemma_find_header_value_lift(headers, name, i - 1);
    }
}

/// Whether two strings spell the same bytes up to ASCII case.
fn eq_ignore_ascii_case(a: &String, b: &str) -> (r: bool)
    ensures
        r == (crate::hash::ascii_lower(encode_utf8(a@)) == crate::hash::ascii_lower(
            encode_utf8(b@),
        )),
{
    let ab_raw = crate::hash::str_bytes(a);
    let ab = crate::hash::lower_bytes(&ab_raw);
    let bb_raw = vstd::slice::slice_to_vec(b.as_bytes());
    let bb = crate::hash::lower_bytes(&bb_raw);
    crate::hash::bytes_eq(&ab, &bb)
}

/// Finds the value of the last header named `name`, ignoring ASCII case,
/// as the certificate header and its companions are located in a
/// response.
pub fn find_header_value(headers: &Vec<(String, String)>, name: &str) -> (r: Option<String>)
    ensures
        match r {
            Some(v) => spec_find_header_value(headers@, name@, 0) == Some(v@),
            None => spec_find_header_value(headers@, name@, 0) is None,
        },
{
    let mut j: usize = headers.len();
    while j > 0
        invariant
            j <= headers@.len(),
            spec_find_header_value(headers@, name@, j as int) is None,
        decreases j,
    {
        j -= 1;
        if eq_ignore_ascii_case(&headers[j].0, name) {
            proof {
                assert(spec_find_header_value(headers@, name@, j as int) == Some(
                    headers@[j as int].1@,
                ));
                lemma_find_header_value_lift(headers@, name@, j as int);
            }
            return Some(headers[j].1.clone());
        }
    }
    None
}

/// Verification has no hidden state: any two outcomes that satisfy the
/// verifier's contract for the same inputs are the same outcome, so
/// calling it twice with identical inputs yields identical results.
pub proof fn lemma_verify_deterministic(
    request: Request,
    response: Response,
    canister_id: Seq<u8>,
    now: nat,
    max_offset: nat,
    header: Option<CertificateHeader>,
    certification: Option<Certification>,
    decoded_body: Seq<u8>,
    r1: Result<CertificationResult, ResponseVerificationError>,
    r2: Result<CertificationResult, ResponseVerificationError>,
)
    requires
        result_model(r1) == spec_verify(
            request,
            response,
            canister_id,
            now,
            max_offset,
            header,
            certification,
            decoded_body,
        ),
        result_model(r2) == spec_verify(
            request,
            response,
            canister_id,
            now,
            max_offset,
            header,
            certification,
            decoded_body,
        ),
    ensures
        result_model(r1) == result_model(r2),
{
}

/// Verifies that the response is, or contains, what the service
/// certified for this request. The header splitter's fields, the parsed
/// certification and the decoded body come from the caller's
/// collaborators; every decision made on them here is a function of the
/// arguments alone, so identical inputs always yield identical results.
pub fn verify_request_response_pair_impl(
    request: &Request,
    response: &Response,
    canister_id: &[u8],
    current_time_ns: u128,
    max_cert_time_offset_ns: u128,
    header: Option<CertificateHeader>,
    certification: Option<Certification>,
    decoded_body: &Vec<u8>,
) -> (r: Result<CertificationResult, ResponseVerificationError>)
    ensures
        result_model(r) == spec_verify(
            *request,
            *response,
            canister_id@,
            current_time_ns as nat,
            max_cert_time_offset_ns as nat,
            header,
            certification,
            decoded_body@,
        ),
{
    let h = match header {
        None => {
            return verification(
                MIN_VERIFICATION_VERSION,
                request,
                response,
                canister_id,
                current_time_ns,
                max_cert_time_offset_ns,
                None,
                None,
                None,
                certification,
                decoded_body,
            );
        },
        Some(h) => h,
    };
    let tree: Option<HashTree> = match h.tree {
        None => None,
        Some(tb) => {
            let v = match parse_cbor(tb.as_slice()) {
                Ok(v) => v,
                Err(e) => {
                    return Err(ResponseVerificationError::Decode(e));
                },
            };
            match tree_from_cbor(&v) {
                Ok(t) => Some(t),
                Err(e) => {
                    return Err(ResponseVerificationError::Structure(e));
                },
            }
        },
    };
    let certificate: Option<Certificate> = match h.certificate {
        None => None,
        Some(cb) => {
            let v = match parse_cbor(cb.as_slice()) {
                Ok(v) => v,
                Err(e) => {
                    return Err(ResponseVerificationError::Decode(e));
                },
            };
            match cert_from_cbor(&v, MAX_DELEGATION_DEPTH) {
                Ok(c) => Some(c),
                Err(e) => {
                    return Err(ResponseVerificationError::Structure(e));
                },
            }
        },
    };
    let expr_path: Option<Vec<Vec<u8>>> = match h.expr_path {
        None => None,
        Some(eb) => {
            match parse_cbor_bytes_array(eb.as_slice()) {
                Ok(p) => Some(p),
                Err(e) => {
                    return Err(e);
                },
            }
        },
    };
    let version = match h.version {
        Some(v) => v,
        None => MIN_VERIFICATION_VERSION,
    };
    verification(
        version,
        request,
        response,
        canister_id,
        current_time_ns,
        max_cert_time_offset_ns,
        tree,
        certificate,
        expr_path,
        certification,
        decoded_body,
    )
}

} // verus!
