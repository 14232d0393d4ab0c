//! Verification of certified HTTP responses against a network-signed
//! certificate: a constrained CBOR decoder, a Merkle hash tree with digest
//! reconstruction and path lookup, certificate time validation,
//! representation-independent hashing of request/response data, and the
//! two-version verification state machine that ties them together.

pub mod cbor;
pub mod certificate;
pub mod certification;
pub mod error;
pub mod hash;
pub mod hash_tree;
pub mod types;
pub mod uri;
pub mod validation;
pub mod verification;

pub use cbor::CborHashTree;
pub use cbor::CborSigned;
pub use cbor::CborUnsigned;
pub use cbor::CborValue;
pub use cbor::DecodeError;
pub use cbor::get_cbor_info;
pub use cbor::get_cbor_type;
pub use cbor::parse_cbor;
pub use certificate::Certificate;
pub use certificate::Delegation;
pub use certification::Certification;
pub use error::ResponseVerificationError;
pub use error::ResponseVerificationResult;
pub use hash_tree::HashTree;
pub use hash_tree::LookupResult;
pub use types::CertificationResult;
pub use types::Request;
pub use types::RequestCertification;
pub use types::Response;
pub use types::ResponseCertification;
pub use verification::CertificateHeader;
pub use verification::MAX_VERIFICATION_VERSION;
pub use verification::MIN_VERIFICATION_VERSION;
pub use verification::verify_request_response_pair_impl;
pub use verification::verify_request_response_pair_impl as verify_request_response_pair;
