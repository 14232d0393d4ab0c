//! The certificate-side checks of verification: the time bound, the tree
//! digest against the certified data of the service identity, and the body
//! hash against the tree.

use vstd::prelude::*;

verus! {

use vstd::utf8::encode_utf8;

use crate::certificate::Certificate;
use crate::certificate::CertificateVal;
use crate::certificate::decode_leb128;
use crate::certificate::spec_leb128;
use crate::error::ResponseVerificationError;
use crate::hash::sha256_of;
use crate::hash_tree::HashTree;
use crate::hash_tree::HashTreeVal;
use crate::hash_tree::LookupResult;
use crate::hash_tree::LookupResultVal;
use crate::hash_tree::lookup_path;
use crate::hash_tree::spec_digest;
use crate::hash_tree::spec_lookup_path;
use crate::hash_tree::digest;

broadcast use vstd::std_specs::vec::group_vec_axioms, vstd::seq::group_seq_axioms;

/// The reserved path under which a certificate's tree certifies its
/// timestamp: the single label `time`.
pub open spec fn time_path() -> Seq<Seq<u8>> {
    seq![seq![116u8, 105, 109, 101]]
}

/// The timestamp a certificate's tree certifies, if its `time` leaf is
/// present and decodes as a little-endian base-128 number.
pub open spec fn spec_cert_time(cert: CertificateVal) -> Option<nat> {
    match spec_lookup_path(cert.tree, time_path()) {
        LookupResultVal::Found(b) => spec_leb128(b),
        _ => None,
    }
}

/// Whether a certificate time lies within the allowed clock-skew window
/// around the current time.
pub open spec fn spec_time_in_bounds(cert_time: nat, now: nat, max_offset: nat) -> bool {
    (if now >= cert_time {
        now - cert_time
    } else {
        cert_time - now
    }) <= max_offset
}

/// Whether time validation accepts the certificate: it certifies a
/// readable timestamp that fits 128 bits and lies within the window.
pub open spec fn spec_time_ok(cert: CertificateVal, now: nat, max_offset: nat) -> bool {
    match spec_cert_time(cert) {
        Some(t) => t <= u128::MAX && spec_time_in_bounds(t, now, max_offset),
        None => false,
    }
}

/// Whenever the distance between the current time and the certificate
/// time exceeds the allowed offset, time validation fails; at exactly the
/// boundary it passes.
pub proof fn lemma_time_bound(cert_time: nat, now: nat, max_offset: nat)
    ensures
        ((if now >= cert_time {
            now - cert_time
        } else {
            cert_time - now
        }) > max_offset) ==> !spec_time_in_bounds(cert_time, now, max_offset),
        ((if now >= cert_time {
            now - cert_time
        } else {
            cert_time - now
        }) == max_offset) ==> spec_time_in_bounds(cert_time, now, max_offset),
{
}

/// Validates the certificate's timestamp against the current time,
/// bounding how stale or how far in the future a certificate may be.
pub fn validate_certificate_time(
    certificate: &Certificate,
    current_time_ns: &u128,
    max_cert_time_offset_ns: &u128,
) -> (r: Result<(), ResponseVerificationError>)
    ensures
        r is Ok <==> spec_time_ok(
            certificate.model(),
            *current_time_ns as nat,
            *max_cert_time_offset_ns as nat,
        ),
        r is Err ==> (r matches Err(e) && e is TimeValidation),
{
    let time_label: Vec<u8> = vec![116u8, 105, 109, 101];
    let mut path: Vec<Vec<u8>> = Vec::new();
    path.push(time_label);
    proof {
        assert(path.deep_view() =~~= time_path());
    }
    let leaf = match lookup_path(&certificate.tree, &path) {
        LookupResult::Found(b) => b,
        _ => {
            return Err(ResponseVerificationError::TimeValidation);
        },
    };
    let t = match decode_leb128(&leaf) {
        Some(t) => t,
        None => {
            return Err(ResponseVerificationError::TimeValidation);
        },
    };
    let now = *current_time_ns;
    let max = *max_cert_time_offset_ns;
    let diff = if now >= t {
        now - t
    } else {
        t - now
    };
    if diff > max {
        Err(ResponseVerificationError::TimeValidation)
    } else {
        Ok(())
    }
}

/// The path under which a certificate's tree certifies a service's data:
/// `canister`, the service identity, `certified_data`.
pub open spec fn certified_data_path(canister_id: Seq<u8>) -> Seq<Seq<u8>> {
    seq![
        seq![99u8, 97, 110, 105, 115, 116, 101, 114],
        canister_id,
        seq![99u8, 101, 114, 116, 105, 102, 105, 101, 100, 95, 100, 97, 116, 97],
    ]
}

/// Whether the certificate's tree certifies, for the given service
/// identity, exactly the digest of the witness tree.
pub open spec fn spec_validate_tree(
    canister_id: Seq<u8>,
    cert: CertificateVal,
    tree: HashTreeVal,
) -> bool {
    match spec_lookup_path(cert.tree, certified_data_path(canister_id)) {
        LookupResultVal::Found(d) => d == spec_digest(tree),
        _ => false,
    }
}

/// Checks that the certificate's tree certifies the witness tree's digest
/// for the given service identity.
pub fn validate_tree(canister_id: &[u8], certificate: &Certificate, tree: &HashTree) -> (r: bool)
    requires
        tree.model().well_formed(),
    ensures
        r == spec_validate_tree(canister_id@, certificate.model(), tree.model()),
{
    let canister_label: Vec<u8> = vec![99u8, 97, 110, 105, 115, 116, 101, 114];
    let data_label: Vec<u8> = vec![99u8, 101, 114, 116, 105, 102, 105, 101, 100, 95, 100, 97, 116,
        97];
    let id = vstd::slice::slice_to_vec(canister_id);
    let mut path: Vec<Vec<u8>> = Vec::new();
    path.push(canister_label);
    path.push(id);
    path.push(data_label);
    proof {
        assert(path.deep_view() =~~= certified_data_path(canister_id@));
    }
    match lookup_path(&certificate.tree, &path) {
        LookupResult::Found(d) => {
            let td = digest(tree);
            crate::hash::bytes_eq(&d, &td)
        },
        _ => false,
    }
}

/// The path under which the witness tree certifies a body: `http_assets`,
/// then the request path.
pub open spec fn http_assets_path(uri_path: Seq<u8>) -> Seq<Seq<u8>> {
    seq![seq![104u8, 116, 116, 112, 95, 97, 115, 115, 101, 116, 115], uri_path]
}

/// Whether the witness tree certifies the given body hash under the
/// request path.
pub open spec fn spec_validate_body(tree: HashTreeVal, uri_path: Seq<u8>, body_sha: Seq<u8>) -> bool {
    match spec_lookup_path(tree, http_assets_path(uri_path)) {
        LookupResultVal::Found(h) => h == body_sha,
        _ => false,
    }
}

/// Checks that the witness tree certifies the decoded body's hash under
/// the request path.
pub fn validate_body(tree: &HashTree, uri_path: &String, decoded_body_sha: &Vec<u8>) -> (r: bool)
    ensures
        r == spec_validate_body(tree.model(), encode_utf8(uri_path@), decoded_body_sha@),
{
    let assets_label: Vec<u8> = vec![104u8, 116, 116, 112, 95, 97, 115, 115, 101, 116, 115];
    let path_bytes = crate::hash::str_bytes(uri_path);
    let mut path: Vec<Vec<u8>> = Vec::new();
    path.push(assets_label);
    path.push(path_bytes);
    proof {
        assert(path.deep_view() =~~= http_assets_path(encode_utf8(uri_path@)));
    }
    match lookup_path(tree, &path) {
        LookupResult::Found(h) => crate::hash::bytes_eq(&h, decoded_body_sha),
        _ => false,
    }
}

} // verus!
