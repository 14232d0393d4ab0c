//! The error taxonomy: every fallible step returns a typed result, and
//! "could not even parse" stays distinguishable from "parsed but did not
//! verify" (the latter is a `CertificationResult` with `passed` false, not
//! an error).

use vstd::prelude::*;

verus! {

use crate::cbor::DecodeError;
use crate::hash_tree::StructuralError;

/// A typed verification failure.
#[derive(Debug, PartialEq)]
pub enum ResponseVerificationError {
    /// The binary input was malformed, truncated or over-long.
    Decode(DecodeError),
    /// A decoded value did not match the expected hash-tree or certificate
    /// shape.
    Structure(StructuralError),
    /// The certificate's timestamp lies outside the allowed clock-skew
    /// window, or its tree does not certify a readable timestamp.
    TimeValidation,
    /// The requested protocol version is outside the supported range.
    UnsupportedVerificationVersion {
        min_supported_version: u8,
        max_supported_version: u8,
        requested_version: u8,
    },
    /// The request URL does not parse.
    MalformedUrl(String),
}

/// The mathematical model of a verification failure; decode offsets are
/// diagnostic only and carry no meaning here.
pub enum VerificationErrorVal {
    Decode,
    Structure,
    TimeValidation,
    UnsupportedVerificationVersion { min_supported_version: u8, max_supported_version: u8, requested_version: u8 },
    MalformedUrl(Seq<char>),
}

impl ResponseVerificationError {
    /// The mathematical value this error stands for.
    pub open spec fn model(self) -> VerificationErrorVal {
        match self {
            ResponseVerificationError::Decode(_) => VerificationErrorVal::Decode,
            ResponseVerificationError::Structure(_) => VerificationErrorVal::Structure,
            ResponseVerificationError::TimeValidation => VerificationErrorVal::TimeValidation,
            ResponseVerificationError::UnsupportedVerificationVersion {
                min_supported_version,
                max_supported_version,
                requested_version,
            } => VerificationErrorVal::UnsupportedVerificationVersion {
                min_supported_version,
                max_supported_version,
                requested_version,
            },
            ResponseVerificationError::MalformedUrl(u) => VerificationErrorVal::MalformedUrl(u@),
        }
    }
}

/// The result type every fallible step of verification returns.
pub type ResponseVerificationResult<T> = Result<T, ResponseVerificationError>;

} // verus!
