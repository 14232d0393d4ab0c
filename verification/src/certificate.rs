//! The certificate: a signed container of a hash tree with an optional
//! recursive delegation, decoded from a CBOR map envelope, and the
//! little-endian base-128 timestamp its tree carries under `time`.

use vstd::prelude::*;

verus! {

use crate::cbor::CborVal;
use crate::cbor::CborValue;
use crate::cbor::dict_models_of;
use crate::cbor::lemma_dict_models_of_index;
use crate::cbor::spec_parse_cbor;
use crate::cbor::parse_cbor;
use crate::hash_tree::HashTree;
use crate::hash_tree::HashTreeVal;
use crate::hash_tree::StructuralError;
use crate::hash_tree::clone_bytes;
use crate::hash_tree::spec_tree_from_cbor;
use crate::hash_tree::tree_from_cbor;

broadcast use vstd::std_specs::vec::group_vec_axioms, vstd::seq::group_seq_axioms;

/// How deep a chain of delegations may nest; networks use only a handful
/// of levels, and bounding the depth bounds recursion on hostile input.
pub const MAX_DELEGATION_DEPTH: u32 = 10;

/// A certificate: a hash tree, a signature over its root digest, and an
/// optional delegation narrowing trust to a sub-authority.
#[derive(Debug, PartialEq)]
pub struct Certificate {
    pub tree: HashTree,
    pub signature: Vec<u8>,
    pub delegation: Option<Delegation>,
}

/// A delegation: the delegated subnet and its own certificate.
#[derive(Debug, PartialEq)]
pub struct Delegation {
    pub subnet_id: Vec<u8>,
    pub certificate: Box<Certificate>,
}

/// The mathematical model of a certificate.
pub struct CertificateVal {
    pub tree: HashTreeVal,
    pub signature: Seq<u8>,
    pub delegation: Option<DelegationVal>,
}

/// The mathematical model of a delegation.
pub struct DelegationVal {
    pub subnet_id: Seq<u8>,
    pub certificate: Box<CertificateVal>,
}

impl Certificate {
    /// The mathematical certificate this value stands for.
    pub open spec fn model(self) -> CertificateVal
        decreases self,
    {
        CertificateVal {
            tree: self.tree.model(),
            signature: self.signature@,
            delegation: match self.delegation {
                None => None,
                Some(d) => Some(
                    DelegationVal {
                        subnet_id: d.subnet_id@,
                        certificate: Box::new((*d.certificate).model()),
                    },
                ),
            },
        }
    }
}

/// The value under the first entry holding `key`, if any.
pub open spec fn spec_dict_get(
    entries: Seq<(Seq<char>, CborVal)>,
    key: Seq<char>,
) -> Option<CborVal>
    decreases entries.len(),
{
    if entries.len() == 0 {
        None
    } else if entries[0].0 == key {
        Some(entries[0].1)
    } else {
        spec_dict_get(entries.drop_first(), key)
    }
}

/// Finds the value under `key` in a decoded map's entries.
pub fn dict_get<'a>(entries: &'a Vec<(String, CborValue)>, key: &String) -> (r: Option<
    &'a CborValue,
>)
    ensures
        match r {
            Some(v) => spec_dict_get(dict_models_of(entries@), key@) == Some(v.model()),
            None => spec_dict_get(dict_models_of(entries@), key@) is None,
        },
{
    proof {
        lemma_dict_models_of_index(entries@);
        assert(dict_models_of(entries@).skip(0) =~= dict_models_of(entries@));
    }
    let ghost m = dict_models_of(entries@);
    let mut j: usize = 0;
    while j < entries.len()
        invariant
            j <= entries@.len(),
            m == dict_models_of(entries@),
            m.len() == entries@.len(),
            forall|i: int| 0 <= i < m.len() ==> #[trigger] m[i] == (entries@[i].0@, entries@[i].1.model()),
            spec_dict_get(m, key@) == spec_dict_get(m.skip(j as int), key@),
        decreases entries@.len() - j,
    {
        if entries[j].0 == *key {
            assert(m.skip(j as int)[0] == m[j as int]);
            return Some(&entries[j].1);
        }
        proof {
            assert(m.skip(j as int)[0] == m[j as int]);
            assert(m.skip(j as int).drop_first() =~= m.skip(j + 1));
        }
        j += 1;
    }
    assert(m.skip(entries@.len() as int).len() == 0);
    None
}

/// The key strings of the certificate envelope.
pub open spec fn tree_key() -> Seq<char> {
    "tree"@
}

pub open spec fn signature_key() -> Seq<char> {
    "signature"@
}

pub open spec fn delegation_key() -> Seq<char> {
    "delegation"@
}

pub open spec fn subnet_id_key() -> Seq<char> {
    "subnet_id"@
}

pub open spec fn certificate_key() -> Seq<char> {
    "certificate"@
}

/// The certificate a decoded CBOR value stands for: a map holding `tree`
/// and `signature`, and at most `depth` further levels of delegation, each
/// a map holding `subnet_id` and a nested CBOR `certificate`.
pub open spec fn spec_cert_from_cbor(v: CborVal, depth: nat) -> Option<CertificateVal>
    decreases depth, 1nat,
{
    match v {
        CborVal::Dict(entries) => {
            match (spec_dict_get(entries, tree_key()), spec_dict_get(entries, signature_key())) {
                (Some(tv), Some(CborVal::Bytes(sig))) => {
                    match spec_tree_from_cbor(tv) {
                        Some(tree) => {
                            match spec_dict_get(entries, delegation_key()) {
                                None => Some(
                                    CertificateVal { tree, signature: sig, delegation: None },
                                ),
                                Some(dv) => {
                                    match spec_delegation_from_cbor(dv, depth) {
                                        Some(d) => Some(
                                            CertificateVal {
                                                tree,
                                                signature: sig,
                                                delegation: Some(d),
                                            },
                                        ),
                                        None => None,
                                    }
                                },
                            }
                        },
                        None => None,
                    }
                },
                _ => None,
            }
        },
        _ => None,
    }
}

/// The delegation a decoded CBOR value stands for; `depth` bounds further
/// nesting.
pub open spec fn spec_delegation_from_cbor(v: CborVal, depth: nat) -> Option<DelegationVal>
    decreases depth, 0nat,
{
    if depth == 0 {
        None
    } else {
        match v {
            CborVal::Dict(entries) => {
                match (
                    spec_dict_get(entries, subnet_id_key()),
                    spec_dict_get(entries, certificate_key()),
                ) {
                    (Some(CborVal::Bytes(sid)), Some(CborVal::Bytes(cb))) => {
                        match spec_parse_cbor(cb) {
                            Some(cv) => {
                                match spec_cert_from_cbor(cv, (depth - 1) as nat) {
                                    Some(c) => Some(
                                        DelegationVal {
                                            subnet_id: sid,
                                            certificate: Box::new(c),
                                        },
                                    ),
                                    None => None,
                                }
                            },
                            None => None,
                        }
                    },
                    _ => None,
                }
            },
            _ => None,
        }
    }
}

impl CertificateVal {
    /// The tree is well formed, as is every delegated certificate's.
    pub open spec fn well_formed(self) -> bool
        decreases self,
    {
        self.tree.well_formed() && match self.delegation {
            None => true,
            Some(d) => (*d.certificate).well_formed(),
        }
    }
}

/// Builds a certificate from a decoded CBOR value, following at most
/// `depth` levels of delegation.
pub fn cert_from_cbor(v: &CborValue, depth: u32) -> (r: Result<Certificate, StructuralError>)
    ensures
        match r {
            Ok(c) => spec_cert_from_cbor(v.model(), depth as nat) == Some(c.model())
                && c.model().well_formed(),
            Err(_) => spec_cert_from_cbor(v.model(), depth as nat) is None,
        },
    decreases depth, 1nat,
{
    let entries = match v {
        CborValue::Dict(entries) => entries,
        _ => {
            return Err(StructuralError {});
        },
    };
    let tv = match dict_get(entries, &"tree".to_owned()) {
        Some(tv) => tv,
        None => {
            return Err(StructuralError {});
        },
    };
    let sig = match dict_get(entries, &"signature".to_owned()) {
        Some(CborValue::ByteString(sig)) => clone_bytes(sig),
        _ => {
            return Err(StructuralError {});
        },
    };
    let tree = match tree_from_cbor(tv) {
        Ok(t) => t,
        Err(e) => {
            return Err(e);
        },
    };
    match dict_get(entries, &"delegation".to_owned()) {
        None => Ok(Certificate { tree, signature: sig, delegation: None }),
        Some(dv) => {
            match delegation_from_cbor(dv, depth) {
                Ok(d) => Ok(Certificate { tree, signature: sig, delegation: Some(d) }),
                Err(e) => Err(e),
            }
        },
    }
}

/// Builds a delegation from a decoded CBOR value, decoding the nested
/// certificate bytes.
fn delegation_from_cbor(v: &CborValue, depth: u32) -> (r: Result<Delegation, StructuralError>)
    ensures
        match r {
            Ok(d) => spec_delegation_from_cbor(v.model(), depth as nat) == Some(
                DelegationVal {
                    subnet_id: d.subnet_id@,
                    certificate: Box::new((*d.certificate).model()),
                },
            ) && (*d.certificate).model().well_formed(),
            Err(_) => spec_delegation_from_cbor(v.model(), depth as nat) is None,
        },
    decreases depth, 0nat,
{
    if depth == 0 {
        return Err(StructuralError {});
    }
    let entries = match v {
        CborValue::Dict(entries) => entries,
        _ => {
            return Err(StructuralError {});
        },
    };
    let sid = match dict_get(entries, &"subnet_id".to_owned()) {
        Some(CborValue::ByteString(sid)) => clone_bytes(sid),
        _ => {
            return Err(StructuralError {});
        },
    };
    let cb = match dict_get(entries, &"certificate".to_owned()) {
        Some(CborValue::ByteString(cb)) => cb,
        _ => {
            return Err(StructuralError {});
        },
    };
    let cv = match parse_cbor(cb.as_slice()) {
        Ok(cv) => cv,
        Err(_) => {
            return Err(StructuralError {});
        },
    };
    match cert_from_cbor(&cv, depth - 1) {
        Ok(c) => Ok(Delegation { subnet_id: sid, certificate: Box::new(c) }),
        Err(e) => Err(e),
    }
}

/// The value of a little-endian base-128 byte string: seven value bits per
/// byte, least significant first.
pub open spec fn leb_value(s: Seq<u8>) -> nat
    decreases s.len(),
{
    if s.len() == 0 {
        0
    } else {
        (s[0] % 128) as nat + 128 * leb_value(s.drop_first())
    }
}

/// A complete little-endian base-128 encoding: at least one byte, every
/// byte but the last marked for continuation, the last not.
pub open spec fn leb_wellformed(s: Seq<u8>) -> bool {
    s.len() > 0 && (forall|i: int| 0 <= i < s.len() - 1 ==> s[i] >= 128) && s[s.len() - 1] < 128
}

/// The number a little-endian base-128 byte string denotes, if well formed.
pub open spec fn spec_leb128(s: Seq<u8>) -> Option<nat> {
    if leb_wellformed(s) {
        Some(leb_value(s))
    } else {
        None
    }
}

/// A string's value dominates the value of each of its suffixes.
proof fn lemma_leb_value_suffix(s: Seq<u8>, j: int)
    requires
        0 <= j <= s.len(),
    ensures
        leb_value(s) >= leb_value(s.skip(j)),
    decreases j,
{
    if j == 0 {
        assert(s.skip(0) =~= s);
    } else {
        assert(s.len() > 0);
        lemma_leb_value_suffix(s.drop_first(), j - 1);
        assert(s.drop_first().skip(j - 1) =~= s.skip(j));
        assert(leb_value(s) >= 128 * leb_value(s.drop_first())) by {
            assert(leb_value(s) == (s[0] % 128) as nat + 128 * leb_value(s.drop_first()));
        }
        assert(128 * leb_value(s.drop_first()) >= leb_value(s.drop_first())) by (nonlinear_arith);
    }
}

/// Decodes a little-endian base-128 timestamp, failing exactly when the
/// bytes are not a complete encoding or the value does not fit 128 bits.
pub fn decode_leb128(bytes: &Vec<u8>) -> (r: Option<u128>)
    ensures
        match r {
            Some(v) => spec_leb128(bytes@) == Some(v as nat),
            None => match spec_leb128(bytes@) {
                Some(v) => v > u128::MAX,
                None => true,
            },
        },
{
    if bytes.len() == 0 {
        return None;
    }
    let last = bytes[bytes.len() - 1];
    if last >= 128 {
        return None;
    }
    let mut i: usize = bytes.len() - 1;
    let mut val: u128 = last as u128;
    proof {
        let t = bytes@.skip(bytes@.len() - 1);
        assert(t.len() == 1);
        assert(t[0] == bytes@[bytes@.len() - 1]);
        assert(t.drop_first() =~= Seq::<u8>::empty());
        assert(leb_value(Seq::<u8>::empty()) == 0);
        assert(leb_value(t) == (t[0] % 128) as nat + 128 * leb_value(t.drop_first()));
        assert(leb_value(bytes@.skip(bytes@.len() - 1)) == last as nat);
    }
    while i > 0
        invariant
            i < bytes@.len(),
            val == leb_value(bytes@.skip(i as int)),
            forall|j: int| i <= j < bytes@.len() - 1 ==> bytes@[j] >= 128,
            bytes@[bytes@.len() - 1] < 128,
        decreases i,
    {
        i -= 1;
        let b = bytes[i];
        if b < 128 {
            return None;
        }
        let low = (b - 128) as u128;
        if val > (u128::MAX - low) / 128 {
            proof {
                assert((val as nat) * 128 + (low as nat) > u128::MAX) by (nonlinear_arith)
                    requires
                        val > (u128::MAX - low) / 128,
                        low <= 127,
                ;
                assert(bytes@.skip(i as int).drop_first() =~= bytes@.skip(i + 1));
                assert(leb_value(bytes@.skip(i as int)) == (b % 128) as nat + 128 * leb_value(
                    bytes@.skip(i + 1),
                ));
                assert(leb_value(bytes@.skip(i as int)) > u128::MAX);
                lemma_leb_value_suffix(bytes@, i as int);
            }
            return None;
        }
        proof {
            assert(val * 128 + low <= u128::MAX) by (nonlinear_arith)
                requires
                    val <= (u128::MAX - low) / 128,
                    low <= 127,
            ;
            assert(bytes@.skip(i as int).drop_first() =~= bytes@.skip(i + 1));
        }
        val = val * 128 + low;
    }
    proof {
        assert(bytes@.skip(0) =~= bytes@);
    }
    Some(val)
}

} // verus!
