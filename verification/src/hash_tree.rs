//! The Merkle hash tree carried by certificates: construction from decoded
//! CBOR, bottom-up digest reconstruction with domain separation, and path
//! lookup.
//!
//! A pruned node stands for an elided subtree and carries that subtree's
//! 32-byte digest verbatim; digests of the remaining nodes are rebuilt from
//! structure alone, so a digest never depends on what was pruned away.

use vstd::prelude::*;

verus! {

use crate::cbor::CborVal;
use crate::cbor::CborValue;
use crate::cbor::lemma_models_of_index;
use crate::cbor::models_of;
use crate::hash::hash;
use crate::hash::sha256_of;

broadcast use vstd::std_specs::vec::group_vec_axioms, vstd::seq::group_seq_axioms;

/// A Merkle hash-tree node. A parent owns its children; the tree is built
/// only by decoding and never mutated afterwards.
#[derive(Debug, PartialEq)]
pub enum HashTree {
    Empty,
    Fork(Box<HashTree>, Box<HashTree>),
    Labelled(Vec<u8>, Box<HashTree>),
    Leaf(Vec<u8>),
    Pruned(Vec<u8>),
}

/// The mathematical model of a hash tree.
pub enum HashTreeVal {
    Empty,
    Fork(Box<HashTreeVal>, Box<HashTreeVal>),
    Labelled(Seq<u8>, Box<HashTreeVal>),
    Leaf(Seq<u8>),
    Pruned(Seq<u8>),
}

impl HashTree {
    /// The mathematical tree this value stands for.
    pub open spec fn model(self) -> HashTreeVal
        decreases self,
    {
        match self {
            HashTree::Empty => HashTreeVal::Empty,
            HashTree::Fork(l, r) => HashTreeVal::Fork(
                Box::new((*l).model()),
                Box::new((*r).model()),
            ),
            HashTree::Labelled(lab, c) => HashTreeVal::Labelled(lab@, Box::new((*c).model())),
            HashTree::Leaf(b) => HashTreeVal::Leaf(b@),
            HashTree::Pruned(d) => HashTreeVal::Pruned(d@),
        }
    }
}

impl HashTreeVal {
    /// Every pruned node carries a 32-byte digest.
    pub open spec fn well_formed(self) -> bool
        decreases self,
    {
        match self {
            HashTreeVal::Empty => true,
            HashTreeVal::Fork(l, r) => (*l).well_formed() && (*r).well_formed(),
            HashTreeVal::Labelled(_, c) => (*c).well_formed(),
            HashTreeVal::Leaf(_) => true,
            HashTreeVal::Pruned(d) => d.len() == 32,
        }
    }
}

/// The decoded value does not have the shape of a hash tree or certificate.
#[derive(Debug, Clone, Copy, PartialEq, Eq, Structural)]
pub struct StructuralError {}

/// Domain-separation prefix for an empty node: a length byte and the fixed
/// ASCII tag `ic-hashtree-empty`.
pub open spec fn domain_sep_empty() -> Seq<u8> {
    seq![17u8, 105, 99, 45, 104, 97, 115, 104, 116, 114, 101, 101, 45, 101, 109, 112, 116, 121]
}

/// Domain-separation prefix for a fork node (tag `ic-hashtree-fork`).
pub open spec fn domain_sep_fork() -> Seq<u8> {
    seq![16u8, 105, 99, 45, 104, 97, 115, 104, 116, 114, 101, 101, 45, 102, 111, 114, 107]
}

/// Domain-separation prefix for a labelled node (tag `ic-hashtree-labeled`).
pub open spec fn domain_sep_labeled() -> Seq<u8> {
    seq![
        19u8, 105, 99, 45, 104, 97, 115, 104, 116, 114, 101, 101, 45, 108, 97, 98, 101, 108, 101,
        100,
    ]
}

/// Domain-separation prefix for a leaf node (tag `ic-hashtree-leaf`).
pub open spec fn domain_sep_leaf() -> Seq<u8> {
    seq![16u8, 105, 99, 45, 104, 97, 115, 104, 116, 114, 101, 101, 45, 108, 101, 97, 102]
}

/// The digest of a hash tree: every unpruned node hashes its
/// domain-separation prefix and its content; a pruned node is its digest.
pub open spec fn spec_digest(t: HashTreeVal) -> Seq<u8>
    decreases t,
{
    match t {
        HashTreeVal::Empty => sha256_of(domain_sep_empty()),
        HashTreeVal::Fork(l, r) => sha256_of(
            domain_sep_fork() + spec_digest(*l) + spec_digest(*r),
        ),
        HashTreeVal::Labelled(lab, c) => sha256_of(domain_sep_labeled() + lab + spec_digest(*c)),
        HashTreeVal::Leaf(b) => sha256_of(domain_sep_leaf() + b),
        HashTreeVal::Pruned(d) => d,
    }
}

/// The tree a decoded CBOR value stands for, if it has the right shape:
/// an array opening with a node tag, then the content that tag calls for.
pub open spec fn spec_tree_from_cbor(v: CborVal) -> Option<HashTreeVal>
    decreases v,
{
    match v {
        CborVal::Array(items) => {
            if items.len() == 0 {
                None
            } else {
                match items[0] {
                    CborVal::HashTree(tag) => match tag {
                        crate::cbor::CborHashTree::Empty => {
                            if items.len() == 1 {
                                Some(HashTreeVal::Empty)
                            } else {
                                None
                            }
                        },
                        crate::cbor::CborHashTree::Fork => {
                            if items.len() == 3 {
                                match (spec_tree_from_cbor(items[1]), spec_tree_from_cbor(
                                    items[2],
                                )) {
                                    (Some(l), Some(r)) => Some(
                                        HashTreeVal::Fork(Box::new(l), Box::new(r)),
                                    ),
                                    _ => None,
                                }
                            } else {
                                None
                            }
                        },
                        crate::cbor::CborHashTree::Labelled => {
                            if items.len() == 3 {
                                match items[1] {
                                    CborVal::Bytes(lab) => match spec_tree_from_cbor(items[2]) {
                                        Some(c) => Some(
                                            HashTreeVal::Labelled(lab, Box::new(c)),
                                        ),
                                        None => None,
                                    },
                                    _ => None,
                                }
                            } else {
                                None
                            }
                        },
                        crate::cbor::CborHashTree::Leaf => {
                            if items.len() == 2 {
                                match items[1] {
                                    CborVal::Bytes(b) => Some(HashTreeVal::Leaf(b)),
                                    _ => None,
                                }
                            } else {
                                None
                            }
                        },
                        crate::cbor::CborHashTree::Pruned => {
                            if items.len() == 2 {
                                match items[1] {
                                    CborVal::Bytes(d) => {
                                        if d.len() == 32 {
                                            Some(HashTreeVal::Pruned(d))
                                        } else {
                                            None
                                        }
                                    },
                                    _ => None,
                                }
                            } else {
                                None
                            }
                        },
                    },
                    _ => None,
                }
            }
        },
        _ => None,
    }
}

/// Copies a byte vector.
pub fn clone_bytes(b: &Vec<u8>) -> (r: Vec<u8>)
    ensures
        r@ == b@,
{
    let mut out: Vec<u8> = Vec::new();
    let mut i: usize = 0;
    while i < b.len()
        invariant
            i <= b@.len(),
            out@ =~= b@.subrange(0, i as int),
        decreases b@.len() - i,
    {
        out.push(b[i]);
        i += 1;
    }
    assert(out@ =~= b@);
    out
}

/// Appends the bytes of `src` to `dst`.
pub fn append_bytes(dst: &mut Vec<u8>, src: &Vec<u8>)
    ensures
        final(dst)@ == old(dst)@ + src@,
{
    let mut i: usize = 0;
    while i < src.len()
        invariant
            i <= src@.len(),
            dst@ =~= old(dst)@ + src@.subrange(0, i as int),
        decreases src@.len() - i,
    {
        dst.push(src[i]);
        i += 1;
    }
    assert(dst@ =~= old(dst)@ + src@);
}

/// Builds a hash tree from a decoded CBOR value, failing on any shape
/// mismatch; the resulting tree is well formed.
pub fn tree_from_cbor(v: &CborValue) -> (r: Result<HashTree, StructuralError>)
    ensures
        match r {
            Ok(t) => spec_tree_from_cbor(v.model()) == Some(t.model()) && t.model().well_formed(),
            Err(_) => spec_tree_from_cbor(v.model()) is None,
        },
    decreases v,
{
    match v {
        CborValue::Array(items) => {
            proof {
                lemma_models_of_index(items@);
            }
            if items.len() == 0 {
                return Err(StructuralError {});
            }
            let tag = match &items[0] {
                CborValue::HashTree(t) => *t,
                _ => {
                    return Err(StructuralError {});
                },
            };
            match tag {
                crate::cbor::CborHashTree::Empty => {
                    if items.len() == 1 {
                        Ok(HashTree::Empty)
                    } else {
                        Err(StructuralError {})
                    }
                },
                crate::cbor::CborHashTree::Fork => {
                    if items.len() == 3 {
                        let l = match tree_from_cbor(&items[1]) {
                            Ok(t) => t,
                            Err(e) => {
                                return Err(e);
                            },
                        };
                        let r = match tree_from_cbor(&items[2]) {
                            Ok(t) => t,
                            Err(e) => {
                                return Err(e);
                            },
                        };
                        Ok(HashTree::Fork(Box::new(l), Box::new(r)))
                    } else {
                        Err(StructuralError {})
                    }
                },
                crate::cbor::CborHashTree::Labelled => {
                    if items.len() == 3 {
                        let lab = match &items[1] {
                            CborValue::ByteString(b) => clone_bytes(b),
                            _ => {
                                return Err(StructuralError {});
                            },
                        };
                        let c = match tree_from_cbor(&items[2]) {
                            Ok(t) => t,
                            Err(e) => {
                                return Err(e);
                            },
                        };
                        Ok(HashTree::Labelled(lab, Box::new(c)))
                    } else {
                        Err(StructuralError {})
                    }
                },
                crate::cbor::CborHashTree::Leaf => {
                    if items.len() == 2 {
                        match &items[1] {
                            CborValue::ByteString(b) => Ok(HashTree::Leaf(clone_bytes(b))),
                            _ => Err(StructuralError {}),
                        }
                    } else {
                        Err(StructuralError {})
                    }
                },
                crate::cbor::CborHashTree::Pruned => {
                    if items.len() == 2 {
                        match &items[1] {
                            CborValue::ByteString(d) => {
                                if d.len() == 32 {
                                    Ok(HashTree::Pruned(clone_bytes(d)))
                                } else {
                                    Err(StructuralError {})
                                }
                            },
                            _ => Err(StructuralError {}),
                        }
                    } else {
                        Err(StructuralError {})
                    }
                },
            }
        },
        _ => Err(StructuralError {}),
    }
}

/// Reconstructs the digest of a well-formed tree, bottom up. The result is
/// a function of the tree's structure alone, so repeated calls on the same
/// tree return the same 32 bytes.
pub fn digest(t: &HashTree) -> (r: Vec<u8>)
    requires
        t.model().well_formed(),
    ensures
        r@ == spec_digest(t.model()),
        r@.len() == 32,
    decreases t,
{
    match t {
        HashTree::Empty => {
            let buf: Vec<u8> = vec![
                17u8, 105, 99, 45, 104, 97, 115, 104, 116, 114, 101, 101, 45, 101, 109, 112, 116,
                121,
            ];
            assert(buf@ =~= domain_sep_empty());
            hash(buf.as_slice())
        },
        HashTree::Fork(l, r) => {
            let mut buf: Vec<u8> = vec![
                16u8, 105, 99, 45, 104, 97, 115, 104, 116, 114, 101, 101, 45, 102, 111, 114, 107,
            ];
            assert(buf@ =~= domain_sep_fork());
            let dl = digest(l);
            let dr = digest(r);
            append_bytes(&mut buf, &dl);
            append_bytes(&mut buf, &dr);
            hash(buf.as_slice())
        },
        HashTree::Labelled(lab, c) => {
            let mut buf: Vec<u8> = vec![
                19u8, 105, 99, 45, 104, 97, 115, 104, 116, 114, 101, 101, 45, 108, 97, 98, 101,
                108, 101, 100,
            ];
            assert(buf@ =~= domain_sep_labeled());
            append_bytes(&mut buf, lab);
            let dc = digest(c);
            append_bytes(&mut buf, &dc);
            hash(buf.as_slice())
        },
        HashTree::Leaf(b) => {
            let mut buf: Vec<u8> = vec![
                16u8, 105, 99, 45, 104, 97, 115, 104, 116, 114, 101, 101, 45, 108, 101, 97, 102,
            ];
            assert(buf@ =~= domain_sep_leaf());
            append_bytes(&mut buf, b);
            hash(buf.as_slice())
        },
        HashTree::Pruned(d) => clone_bytes(d),
    }
}

/// Digest reconstruction is deterministic and stable: any two digests
/// computed for the same tree are equal, since each is pinned to the one
/// mathematical digest of that tree's structure.
pub proof fn lemma_digest_stable(t: HashTreeVal, d1: Seq<u8>, d2: Seq<u8>)
    requires
        d1 == spec_digest(t),
        d2 == spec_digest(t),
    ensures
        d1 == d2,
{
}

/// A position in a tree: 0 and 1 descend into a fork's children, 2 into a
/// labelled node's child.
pub open spec fn spec_prune_at(t: HashTreeVal, pos: Seq<int>) -> Option<HashTreeVal>
    decreases pos.len(),
{
    if pos.len() == 0 {
        Some(HashTreeVal::Pruned(spec_digest(t)))
    } else {
        match t {
            HashTreeVal::Fork(l, r) => {
                if pos[0] == 0 {
                    match spec_prune_at(*l, pos.drop_first()) {
                        Some(l2) => Some(HashTreeVal::Fork(Box::new(l2), r)),
                        None => None,
                    }
                } else if pos[0] == 1 {
                    match spec_prune_at(*r, pos.drop_first()) {
                        Some(r2) => Some(HashTreeVal::Fork(l, Box::new(r2))),
                        None => None,
                    }
                } else {
                    None
                }
            },
            HashTreeVal::Labelled(lab, c) => {
                if pos[0] == 2 {
                    match spec_prune_at(*c, pos.drop_first()) {
                        Some(c2) => Some(HashTreeVal::Labelled(lab, Box::new(c2))),
                        None => None,
                    }
                } else {
                    None
                }
            },
            _ => None,
        }
    }
}

/// Replacing the subtree at any position with a pruned node carrying that
/// subtree's digest leaves the digest of the whole tree unchanged.
pub proof fn lemma_prune_preserves_digest(t: HashTreeVal, pos: Seq<int>)
    ensures
        match spec_prune_at(t, pos) {
            Some(t2) => spec_digest(t2) == spec_digest(t),
            None => true,
        },
    decreases pos.len(),
{
    if pos.len() > 0 {
        match t {
            HashTreeVal::Fork(l, r) => {
                lemma_prune_preserves_digest(*l, pos.drop_first());
                lemma_prune_preserves_digest(*r, pos.drop_first());
            },
            HashTreeVal::Labelled(_, c) => {
                lemma_prune_preserves_digest(*c, pos.drop_first());
            },
            _ => {},
        }
    }
}

/// Three-way lexicographic byte order: negative, zero or positive as `a`
/// comes before, equals or comes after `b`.
pub open spec fn spec_lex_cmp(a: Seq<u8>, b: Seq<u8>) -> int
    decreases a.len(),
{
    if a.len() == 0 && b.len() == 0 {
        0
    } else if a.len() == 0 {
        -1
    } else if b.len() == 0 {
        1
    } else if a[0] < b[0] {
        -1
    } else if a[0] > b[0] {
        1
    } else {
        spec_lex_cmp(a.drop_first(), b.drop_first())
    }
}

/// Compares two byte strings in lexicographic order.
pub fn lex_cmp(a: &Vec<u8>, b: &Vec<u8>) -> (r: i8)
    ensures
        r == spec_lex_cmp(a@, b@),
{
    let mut i: usize = 0;
    proof {
        assert(a@.skip(0) =~= a@);
        assert(b@.skip(0) =~= b@);
    }
    while i < a.len() && i < b.len()
        invariant
            i <= a@.len(),
            i <= b@.len(),
            spec_lex_cmp(a@, b@) == spec_lex_cmp(a@.skip(i as int), b@.skip(i as int)),
        decreases a@.len() - i,
    {
        if a[i] < b[i] {
            return -1;
        }
        if a[i] > b[i] {
            return 1;
        }
        proof {
            assert(a@.skip(i as int).drop_first() =~= a@.skip(i + 1));
            assert(b@.skip(i as int).drop_first() =~= b@.skip(i + 1));
        }
        i += 1;
    }
    if a.len() < b.len() {
        -1
    } else if a.len() > b.len() {
        1
    } else {
        0
    }
}

/// What searching one level of the tree for a label can find.
pub enum LabelLookup<'a> {
    Found(&'a HashTree),
    Absent,
    Greater,
    Less,
    Unknown,
}

/// The model of a one-level label search result.
pub enum LabelLookupVal {
    Found(HashTreeVal),
    Absent,
    Greater,
    Less,
    Unknown,
}

/// Searches the fork structure of one tree level for `label`, relying on
/// (without enforcing) the certifying side's ascending label order:
/// `Greater` and `Less` report overshooting in either direction, `Unknown`
/// that a pruned subtree may hide the label.
pub open spec fn spec_find_label(t: HashTreeVal, label: Seq<u8>) -> LabelLookupVal
    decreases t,
{
    match t {
        HashTreeVal::Labelled(l, sub) => {
            let c = spec_lex_cmp(label, l);
            if c > 0 {
                LabelLookupVal::Greater
            } else if c == 0 {
                LabelLookupVal::Found(*sub)
            } else {
                LabelLookupVal::Less
            }
        },
        HashTreeVal::Fork(lt, rt) => {
            match spec_find_label(*lt, label) {
                LabelLookupVal::Greater => {
                    match spec_find_label(*rt, label) {
                        LabelLookupVal::Less => LabelLookupVal::Absent,
                        rr => rr,
                    }
                },
                LabelLookupVal::Unknown => {
                    match spec_find_label(*rt, label) {
                        LabelLookupVal::Less => LabelLookupVal::Unknown,
                        rr => rr,
                    }
                },
                other => other,
            }
        },
        HashTreeVal::Pruned(_) => LabelLookupVal::Unknown,
        _ => LabelLookupVal::Absent,
    }
}

/// Searches one level of `t` for `label`.
pub fn find_label<'a>(t: &'a HashTree, label: &Vec<u8>) -> (r: LabelLookup<'a>)
    ensures
        match r {
            LabelLookup::Found(sub) => spec_find_label(t.model(), label@) == LabelLookupVal::Found(
                sub.model(),
            ),
            LabelLookup::Absent => spec_find_label(t.model(), label@) == LabelLookupVal::Absent,
            LabelLookup::Greater => spec_find_label(t.model(), label@) == LabelLookupVal::Greater,
            LabelLookup::Less => spec_find_label(t.model(), label@) == LabelLookupVal::Less,
            LabelLookup::Unknown => spec_find_label(t.model(), label@) == LabelLookupVal::Unknown,
        },
    decreases t,
{
    match t {
        HashTree::Labelled(l, sub) => {
            let c = lex_cmp(label, l);
            if c > 0 {
                LabelLookup::Greater
            } else if c == 0 {
                LabelLookup::Found(sub)
            } else {
                LabelLookup::Less
            }
        },
        HashTree::Fork(lt, rt) => {
            match find_label(lt, label) {
                LabelLookup::Greater => {
                    match find_label(rt, label) {
                        LabelLookup::Less => LabelLookup::Absent,
                        rr => rr,
                    }
                },
                LabelLookup::Unknown => {
                    match find_label(rt, label) {
                        LabelLookup::Less => LabelLookup::Unknown,
                        rr => rr,
                    }
                },
                other => other,
            }
        },
        HashTree::Pruned(_) => LabelLookup::Unknown,
        _ => LabelLookup::Absent,
    }
}

/// What looking a path up in a tree can establish.
#[derive(Debug, PartialEq)]
pub enum LookupResult {
    Found(Vec<u8>),
    Absent,
    Unknown,
    Error,
}

/// The model of a path lookup result.
pub enum LookupResultVal {
    Found(Seq<u8>),
    Absent,
    Unknown,
    Error,
}

impl LookupResult {
    /// The mathematical value this result stands for.
    pub open spec fn model(self) -> LookupResultVal {
        match self {
            LookupResult::Found(b) => LookupResultVal::Found(b@),
            LookupResult::Absent => LookupResultVal::Absent,
            LookupResult::Unknown => LookupResultVal::Unknown,
            LookupResult::Error => LookupResultVal::Error,
        }
    }
}

/// Looks up `path` in `t` from segment `i` on: a leaf at the path's end is
/// `Found`; a label gap is `Absent`; a pruned subtree that may hide the
/// path is `Unknown`; a structure that cannot carry the path is `Error`.
pub open spec fn spec_lookup_from(t: HashTreeVal, path: Seq<Seq<u8>>, i: int) -> LookupResultVal
    decreases path.len() - i,
    when i >= 0
{
    if i >= path.len() {
        match t {
            HashTreeVal::Leaf(v) => LookupResultVal::Found(v),
            HashTreeVal::Empty => LookupResultVal::Absent,
            HashTreeVal::Pruned(_) => LookupResultVal::Unknown,
            _ => LookupResultVal::Error,
        }
    } else {
        match spec_find_label(t, path[i]) {
            LabelLookupVal::Found(sub) => spec_lookup_from(sub, path, i + 1),
            LabelLookupVal::Unknown => LookupResultVal::Unknown,
            _ => LookupResultVal::Absent,
        }
    }
}

/// Looking up a whole path from the root.
pub open spec fn spec_lookup_path(t: HashTreeVal, path: Seq<Seq<u8>>) -> LookupResultVal {
    spec_lookup_from(t, path, 0)
}

fn lookup_from(t: &HashTree, path: &Vec<Vec<u8>>, i: usize) -> (r: LookupResult)
    requires
        i <= path@.len(),
    ensures
        r.model() == spec_lookup_from(t.model(), path.deep_view(), i as int),
    decreases path@.len() - i,
{
    proof {
        assert(path.deep_view().len() == path@.len());
    }
    if i >= path.len() {
        match t {
            HashTree::Leaf(v) => LookupResult::Found(clone_bytes(v)),
            HashTree::Empty => LookupResult::Absent,
            HashTree::Pruned(_) => LookupResult::Unknown,
            _ => LookupResult::Error,
        }
    } else {
        proof {
            assert(path.deep_view()[i as int] == path@[i as int]@);
        }
        match find_label(t, &path[i]) {
            LabelLookup::Found(sub) => lookup_from(sub, path, i + 1),
            LabelLookup::Unknown => LookupResult::Unknown,
            _ => LookupResult::Absent,
        }
    }
}

/// Walks `path` down the tree, matching each segment against the labels of
/// one level.
pub fn lookup_path(t: &HashTree, path: &Vec<Vec<u8>>) -> (r: LookupResult)
    ensures
        r.model() == spec_lookup_path(t.model(), path.deep_view()),
{
    lookup_from(t, path, 0)
}

} // verus!
