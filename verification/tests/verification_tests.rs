use ic_response_verification::CertificateHeader;
use ic_response_verification::Certification;
use ic_response_verification::CertificationResult;
use ic_response_verification::Request;
use ic_response_verification::Response;
use ic_response_verification::ResponseCertification;
use ic_response_verification::ResponseVerificationError;
use ic_response_verification::certificate::Certificate;
use ic_response_verification::hash::hash;
use ic_response_verification::hash_tree::HashTree;
use ic_response_verification::hash_tree::digest;
use ic_response_verification::types::RequestCertification;
use ic_response_verification::validation::validate_certificate_time;
use ic_response_verification::verification::find_header_value;
use ic_response_verification::verification::verification;
use ic_response_verification::verify_request_response_pair;

fn label(l: &[u8], t: HashTree) -> HashTree {
    HashTree::Labelled(l.to_vec(), Box::new(t))
}

fn fork(l: HashTree, r: HashTree) -> HashTree {
    HashTree::Fork(Box::new(l), Box::new(r))
}

fn leaf(b: &[u8]) -> HashTree {
    HashTree::Leaf(b.to_vec())
}

fn request(url: &str) -> Request {
    Request {
        method: "GET".to_string(),
        url: url.to_string(),
        headers: vec![],
        body: vec![],
    }
}

fn response(body: &[u8]) -> Response {
    Response {
        status_code: 200,
        headers: vec![],
        body: body.to_vec(),
    }
}

/// A certificate whose tree certifies `digest` for the one-byte service
/// identity `1`, and the time `5` nanoseconds (as one base-128 byte).
fn certificate_for(data_digest: Vec<u8>) -> Certificate {
    let cert_tree = fork(
        label(
            b"canister",
            label(&[1u8], label(b"certified_data", HashTree::Leaf(data_digest))),
        ),
        label(b"time", leaf(&[5u8])),
    );
    Certificate {
        tree: cert_tree,
        signature: vec![],
        delegation: None,
    }
}

#[test]
fn no_certificate_header_fails_without_error() {
    let result = verify_request_response_pair(
        &request("/index.html"),
        &response(b"hello"),
        &[1u8],
        5,
        10,
        None,
        None,
        &b"hello".to_vec(),
    )
    .unwrap();
    assert_eq!(
        result,
        CertificationResult {
            passed: false,
            response: None
        }
    );
}

#[test]
fn no_certification_expression_passes_with_no_response() {
    let header = CertificateHeader {
        certificate: None,
        tree: None,
        version: Some(2),
        expr_path: None,
    };
    let result = verify_request_response_pair(
        &request("/index.html"),
        &response(b"hello"),
        &[1u8],
        5,
        10,
        Some(header),
        None,
        &b"hello".to_vec(),
    )
    .unwrap();
    assert_eq!(
        result,
        CertificationResult {
            passed: true,
            response: None
        }
    );
}

#[test]
fn verify_is_idempotent() {
    let run = || {
        verify_request_response_pair(
            &request("/index.html"),
            &response(b"hello"),
            &[1u8],
            5,
            10,
            None,
            None,
            &b"hello".to_vec(),
        )
    };
    assert_eq!(run().unwrap(), run().unwrap());
}

#[test]
fn unsupported_version_is_a_typed_error() {
    let header = CertificateHeader {
        certificate: None,
        tree: None,
        version: Some(3),
        expr_path: None,
    };
    let err = verify_request_response_pair(
        &request("/index.html"),
        &response(b"hello"),
        &[1u8],
        5,
        10,
        Some(header),
        None,
        &b"hello".to_vec(),
    )
    .unwrap_err();
    assert_eq!(
        err,
        ResponseVerificationError::UnsupportedVerificationVersion {
            min_supported_version: 1,
            max_supported_version: 2,
            requested_version: 3,
        }
    );
}

#[test]
fn malformed_url_is_a_typed_error() {
    let tree = label(b"http_assets", label(b"/x", leaf(b"y")));
    let err = verification(
        1,
        &request("http://[bad"),
        &response(b"hello"),
        &[1u8],
        5,
        10,
        Some(tree),
        Some(certificate_for(vec![0u8; 32])),
        None,
        None,
        &b"hello".to_vec(),
    )
    .unwrap_err();
    assert_eq!(
        err,
        ResponseVerificationError::MalformedUrl("http://[bad".to_string())
    );
}

#[test]
fn v1_passes_on_a_matching_tree_and_certificate() {
    let body = b"hello world";
    let body_sha = hash(body);
    let tree = label(b"http_assets", label(b"/index.html", HashTree::Leaf(body_sha)));
    let cert = certificate_for(digest(&tree));

    let result = verification(
        1,
        &request("/index.html"),
        &response(body),
        &[1u8],
        5,
        10,
        Some(tree),
        Some(cert),
        None,
        None,
        &body.to_vec(),
    )
    .unwrap();
    assert!(result.passed);
    let certified = result.response.unwrap();
    assert_eq!(certified.status_code, 200);
    assert!(certified.headers.is_empty());
    assert_eq!(certified.body, body.to_vec());
}

#[test]
fn v1_fails_on_a_wrong_body() {
    let body = b"hello world";
    let body_sha = hash(body);
    let tree = label(b"http_assets", label(b"/index.html", HashTree::Leaf(body_sha)));
    let cert = certificate_for(digest(&tree));

    let result = verification(
        1,
        &request("/index.html"),
        &response(b"tampered"),
        &[1u8],
        5,
        10,
        Some(tree),
        Some(cert),
        None,
        None,
        &b"tampered".to_vec(),
    )
    .unwrap();
    assert!(!result.passed);
    assert!(result.response.is_none());
}

#[test]
fn v1_fails_on_a_mismatched_certificate() {
    let body = b"hello world";
    let body_sha = hash(body);
    let tree = label(b"http_assets", label(b"/index.html", HashTree::Leaf(body_sha)));
    // the certificate signs a different digest
    let cert = certificate_for(vec![0u8; 32]);

    let result = verification(
        1,
        &request("/index.html"),
        &response(body),
        &[1u8],
        5,
        10,
        Some(tree),
        Some(cert),
        None,
        None,
        &body.to_vec(),
    )
    .unwrap();
    assert!(!result.passed);
    assert!(result.response.is_none());
}

#[test]
fn time_validation_holds_at_the_boundary() {
    let cert = certificate_for(vec![0u8; 32]);
    // certificate time is 5; at distance exactly max_offset it passes
    assert!(validate_certificate_time(&cert, &7, &2).is_ok());
    assert!(validate_certificate_time(&cert, &3, &2).is_ok());
    // one past the boundary it fails, on either side
    assert_eq!(
        validate_certificate_time(&cert, &8, &2),
        Err(ResponseVerificationError::TimeValidation)
    );
    assert_eq!(
        validate_certificate_time(&cert, &2, &2),
        Err(ResponseVerificationError::TimeValidation)
    );
}

#[test]
fn v1_propagates_a_time_failure() {
    let body = b"hello world";
    let body_sha = hash(body);
    let tree = label(b"http_assets", label(b"/index.html", HashTree::Leaf(body_sha)));
    let cert = certificate_for(digest(&tree));

    let err = verification(
        1,
        &request("/index.html"),
        &response(body),
        &[1u8],
        100,
        10,
        Some(tree),
        Some(cert),
        None,
        None,
        &body.to_vec(),
    )
    .unwrap_err();
    assert_eq!(err, ResponseVerificationError::TimeValidation);
}

#[test]
fn v2_passes_when_the_tree_certifies_the_response_hash() {
    let body = b"hello world";
    let resp = Response {
        status_code: 200,
        headers: vec![("ETag".to_string(), "42".to_string())],
        body: body.to_vec(),
    };
    let scope = ResponseCertification {
        certified_response_headers: vec!["ETag".to_string()],
    };
    let certification = Certification::response_only("cel expression text", &scope, &resp, None);
    let response_hash = match &certification {
        Certification::ResponseOnly { response_hash, .. } => response_hash.clone(),
        _ => unreachable!(),
    };
    let tree = label(b"p", HashTree::Leaf(response_hash));

    let result = verification(
        2,
        &request("/index.html"),
        &resp,
        &[1u8],
        5,
        10,
        Some(tree),
        None,
        Some(vec![b"p".to_vec()]),
        Some(certification),
        &body.to_vec(),
    )
    .unwrap();
    assert!(result.passed);
    let certified = result.response.unwrap();
    assert!(certified.headers.is_empty());
    assert_eq!(certified.body, body.to_vec());
}

#[test]
fn v2_fails_when_the_certified_hash_differs() {
    let body = b"hello world";
    let resp = response(body);
    let scope = ResponseCertification {
        certified_response_headers: vec![],
    };
    let certification = Certification::response_only("cel expression text", &scope, &resp, None);
    let tree = label(b"p", HashTree::Leaf(vec![0u8; 32]));

    let result = verification(
        2,
        &request("/index.html"),
        &resp,
        &[1u8],
        5,
        10,
        Some(tree),
        None,
        Some(vec![b"p".to_vec()]),
        Some(certification),
        &body.to_vec(),
    )
    .unwrap();
    assert!(!result.passed);
    assert!(result.response.is_none());
}

#[test]
fn v2_fails_when_the_path_is_pruned_or_absent() {
    let body = b"hello world";
    let resp = response(body);
    let scope = ResponseCertification {
        certified_response_headers: vec![],
    };
    let certification = Certification::response_only("cel expression text", &scope, &resp, None);

    // pruned: the subtree that would decide was elided
    let tree = HashTree::Pruned(vec![0u8; 32]);
    let result = verification(
        2,
        &request("/index.html"),
        &resp,
        &[1u8],
        5,
        10,
        Some(tree),
        None,
        Some(vec![b"p".to_vec()]),
        Some(certification),
        &body.to_vec(),
    )
    .unwrap();
    assert!(!result.passed);

    // absent: no such label
    let certification = Certification::response_only("cel expression text", &resp_scope(), &resp, None);
    let tree = label(b"q", leaf(b"other"));
    let result = verification(
        2,
        &request("/index.html"),
        &resp,
        &[1u8],
        5,
        10,
        Some(tree),
        None,
        Some(vec![b"p".to_vec()]),
        Some(certification),
        &body.to_vec(),
    )
    .unwrap();
    assert!(!result.passed);
}

fn resp_scope() -> ResponseCertification {
    ResponseCertification {
        certified_response_headers: vec![],
    }
}

#[test]
fn skip_certification_passes_with_no_response() {
    let certification = Certification::skip("skip expression");
    let result = verification(
        2,
        &request("/index.html"),
        &response(b"x"),
        &[1u8],
        5,
        10,
        None,
        None,
        None,
        Some(certification),
        &b"x".to_vec(),
    )
    .unwrap();
    assert_eq!(
        result,
        CertificationResult {
            passed: true,
            response: None
        }
    );
}

#[test]
fn skip_hashes_the_expression_text() {
    match Certification::skip("abc") {
        Certification::Skip { cel_expr_hash } => {
            assert_eq!(cel_expr_hash, hash(b"abc"));
        }
        _ => unreachable!(),
    }
}

#[test]
fn full_certification_fails_on_a_malformed_url() {
    let req = request("http://[bad");
    let resp = response(b"x");
    let err = Certification::full(
        "expr",
        &RequestCertification {
            certified_request_headers: vec![],
            certified_query_parameters: vec![],
        },
        &req,
        &resp_scope(),
        &resp,
        None,
    )
    .unwrap_err();
    assert_eq!(
        err,
        ResponseVerificationError::MalformedUrl("http://[bad".to_string())
    );
}

#[test]
fn request_hash_covers_only_designated_fields() {
    let scope = RequestCertification {
        certified_request_headers: vec!["Accept".to_string()],
        certified_query_parameters: vec!["q".to_string()],
    };
    let base = Request {
        method: "GET".to_string(),
        url: "/search?q=verus&page=2".to_string(),
        headers: vec![
            ("Accept".to_string(), "text/html".to_string()),
            ("Cookie".to_string(), "secret".to_string()),
        ],
        body: vec![],
    };
    let with_other_cookie = Request {
        headers: vec![
            ("Accept".to_string(), "text/html".to_string()),
            ("Cookie".to_string(), "other".to_string()),
        ],
        ..request_like(&base)
    };
    let with_other_page = Request {
        url: "/search?q=verus&page=3".to_string(),
        ..request_like(&base)
    };
    let with_other_query = Request {
        url: "/search?q=coq&page=2".to_string(),
        ..request_like(&base)
    };
    let h = ic_response_verification::hash::request_hash(&base, &scope).unwrap();
    // fields outside the allow-lists do not enter the hash
    assert_eq!(h, ic_response_verification::hash::request_hash(&with_other_cookie, &scope).unwrap());
    assert_eq!(h, ic_response_verification::hash::request_hash(&with_other_page, &scope).unwrap());
    // covered fields do
    assert_ne!(h, ic_response_verification::hash::request_hash(&with_other_query, &scope).unwrap());
}

fn request_like(r: &Request) -> Request {
    Request {
        method: r.method.clone(),
        url: r.url.clone(),
        headers: r.headers.clone(),
        body: r.body.clone(),
    }
}

#[test]
fn response_headers_hash_ignores_case_and_uncovered_headers() {
    let scope = ResponseCertification {
        certified_response_headers: vec!["ETag".to_string()],
    };
    let a = Response {
        status_code: 200,
        headers: vec![
            ("etag".to_string(), "42".to_string()),
            ("Date".to_string(), "today".to_string()),
        ],
        body: vec![],
    };
    let b = Response {
        status_code: 200,
        headers: vec![("ETag".to_string(), "42".to_string())],
        body: vec![],
    };
    assert_eq!(ic_response_verification::hash::response_headers_hash(&a, &scope), ic_response_verification::hash::response_headers_hash(&b, &scope));
    let c = Response {
        status_code: 200,
        headers: vec![("ETag".to_string(), "43".to_string())],
        body: vec![],
    };
    assert_ne!(ic_response_verification::hash::response_headers_hash(&b, &scope), ic_response_verification::hash::response_headers_hash(&c, &scope));
}

#[test]
fn find_header_value_is_case_insensitive_and_last_wins() {
    let headers = vec![
        ("ic-certificate".to_string(), "first".to_string()),
        ("Other".to_string(), "x".to_string()),
        ("Ic-Certificate".to_string(), "second".to_string()),
    ];
    assert_eq!(
        find_header_value(&headers, "Ic-Certificate"),
        Some("second".to_string())
    );
    assert_eq!(find_header_value(&headers, "Missing"), None);
}

#[test]
fn malformed_header_fields_are_typed_errors() {
    // the tree field [3] is a leaf tag without its payload
    let header = CertificateHeader {
        certificate: Some(build_cert_bytes()),
        tree: Some(hex::decode("8103").unwrap()),
        version: Some(1),
        expr_path: None,
    };
    let err = verify_request_response_pair(
        &request("/index.html"),
        &response(b"x"),
        &[1u8],
        5,
        10,
        Some(header),
        None,
        &b"x".to_vec(),
    )
    .unwrap_err();
    assert!(matches!(err, ResponseVerificationError::Structure(_)));

    // a truncated tree field is a decode error
    let header = CertificateHeader {
        certificate: None,
        tree: Some(hex::decode("82").unwrap()),
        version: Some(1),
        expr_path: None,
    };
    let err = verify_request_response_pair(
        &request("/index.html"),
        &response(b"x"),
        &[1u8],
        5,
        10,
        Some(header),
        None,
        &b"x".to_vec(),
    )
    .unwrap_err();
    assert!(matches!(err, ResponseVerificationError::Decode(_)));
}

#[test]
fn certificate_decodes_through_the_header_path() {
    // {"tree": [0], "signature": h'00'}: decodes, but its tree certifies
    // no time, so time validation fails on the version-1 path
    let header = CertificateHeader {
        certificate: Some(build_cert_bytes()),
        tree: Some(hex::decode("8100").unwrap()),
        version: Some(1),
        expr_path: None,
    };
    let err = verify_request_response_pair(
        &request("/index.html"),
        &response(b"x"),
        &[1u8],
        5,
        10,
        Some(header),
        None,
        &b"x".to_vec(),
    )
    .unwrap_err();
    assert_eq!(err, ResponseVerificationError::TimeValidation);
}

fn build_cert_bytes() -> Vec<u8> {
    // {"tree": [0], "signature": h'00'}
    let mut v = Vec::new();
    v.push(0xa2);
    v.push(0x64);
    v.extend_from_slice(b"tree");
    v.extend_from_slice(&[0x81, 0x00]);
    v.push(0x69);
    v.extend_from_slice(b"signature");
    v.extend_from_slice(&[0x41, 0x00]);
    v
}

fn build_delegated_cert_bytes() -> Vec<u8> {
    let inner = build_cert_bytes();
    let mut v = Vec::new();
    v.push(0xa3);
    v.push(0x64);
    v.extend_from_slice(b"tree");
    v.extend_from_slice(&[0x81, 0x00]);
    v.push(0x69);
    v.extend_from_slice(b"signature");
    v.extend_from_slice(&[0x41, 0x00]);
    v.push(0x6a);
    v.extend_from_slice(b"delegation");
    v.push(0xa2);
    v.push(0x69);
    v.extend_from_slice(b"subnet_id");
    v.extend_from_slice(&[0x41, 0xaa]);
    v.push(0x6b);
    v.extend_from_slice(b"certificate");
    v.push(0x40 + inner.len() as u8);
    v.extend_from_slice(&inner);
    v
}

#[test]
fn decodes_a_delegated_certificate() {
    let bytes = build_delegated_cert_bytes();
    let v = ic_response_verification::parse_cbor(&bytes).unwrap();
    let cert = ic_response_verification::certificate::cert_from_cbor(&v, 10).unwrap();
    assert_eq!(cert.tree, HashTree::Empty);
    assert_eq!(cert.signature, vec![0u8]);
    let delegation = cert.delegation.unwrap();
    assert_eq!(delegation.subnet_id, vec![0xaa]);
    assert_eq!(delegation.certificate.tree, HashTree::Empty);
    assert!(delegation.certificate.delegation.is_none());
}

#[test]
fn delegation_depth_is_bounded() {
    let bytes = build_delegated_cert_bytes();
    let v = ic_response_verification::parse_cbor(&bytes).unwrap();
    // with no delegation levels allowed, a delegated certificate is refused
    assert!(ic_response_verification::certificate::cert_from_cbor(&v, 0).is_err());
}
