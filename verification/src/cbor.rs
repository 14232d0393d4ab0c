//! Decoder for the constrained CBOR subset used to transport certificates and
//! hash-tree data.
//!
//! One byte of header gives a major type (high three bits) and additional
//! information (low five bits); the additional information is either an inline
//! value (0..=23) or the width of a following big-endian value (24..=27).
//! Major-type-0 values 0..=4 encoded inline are reserved hash-tree node tags
//! and never surface as integers; the same values in length-prefixed form
//! decode as ordinary unsigned integers.

use vstd::prelude::*;

verus! {

use vstd::utf8::decode_utf8;
use vstd::utf8::valid_utf8;

broadcast use vstd::std_specs::vec::group_vec_axioms, vstd::seq::group_seq_axioms;

/// A decoded CBOR negative integer, width-preserving: the value is
/// `-1 - m` folded into the same width as the unsigned magnitude `m`.
#[derive(Debug, Clone, Copy, PartialEq, Eq, Structural)]
pub enum CborSigned {
    Int8(i8),
    Int16(i16),
    Int32(i32),
    Int64(i64),
}

/// A decoded CBOR unsigned integer, keeping the width of its encoding.
/// Inline values (additional information 0..=23) decode as `UInt8`.
#[derive(Debug, Clone, Copy, PartialEq, Eq, Structural)]
pub enum CborUnsigned {
    UInt8(u8),
    UInt16(u16),
    UInt32(u32),
    UInt64(u64),
}

/// A hash-tree node tag: major-type-0 inline values 0..=4, in this order.
#[derive(Debug, Clone, Copy, PartialEq, Eq, Structural)]
pub enum CborHashTree {
    Empty,
    Fork,
    Labelled,
    Leaf,
    Pruned,
}

/// A decoded CBOR value. Map keys are UTF-8 strings; duplicate keys
/// overwrite the earlier entry in place (last value wins).
#[derive(Debug, PartialEq)]
pub enum CborValue {
    Unsigned(CborUnsigned),
    Signed(CborSigned),
    ByteString(Vec<u8>),
    Array(Vec<CborValue>),
    Dict(Vec<(String, CborValue)>),
    HashTree(CborHashTree),
}

/// The mathematical model of a decoded CBOR value.
pub enum CborVal {
    Unsigned(CborUnsigned),
    Signed(CborSigned),
    Bytes(Seq<u8>),
    Array(Seq<CborVal>),
    Dict(Seq<(Seq<char>, CborVal)>),
    HashTree(CborHashTree),
}

impl CborValue {
    /// The mathematical value this decoded value stands for.
    pub open spec fn model(self) -> CborVal
        decreases self,
    {
        match self {
            CborValue::Unsigned(u) => CborVal::Unsigned(u),
            CborValue::Signed(s) => CborVal::Signed(s),
            CborValue::ByteString(b) => CborVal::Bytes(b@),
            CborValue::Array(items) => CborVal::Array(models_of(items@)),
            CborValue::Dict(entries) => CborVal::Dict(dict_models_of(entries@)),
            CborValue::HashTree(t) => CborVal::HashTree(t),
        }
    }
}

/// The models of a sequence of decoded values, element by element.
pub open spec fn models_of(s: Seq<CborValue>) -> Seq<CborVal>
    decreases s,
{
    if s.len() == 0 {
        Seq::empty()
    } else {
        seq![s[0].model()] + models_of(s.drop_first())
    }
}

/// The models of a sequence of map entries, entry by entry.
pub open spec fn dict_models_of(s: Seq<(String, CborValue)>) -> Seq<(Seq<char>, CborVal)>
    decreases s,
{
    if s.len() == 0 {
        Seq::empty()
    } else {
        seq![(s[0].0@, s[0].1.model())] + dict_models_of(s.drop_first())
    }
}

/// A malformed, truncated or over-long input; `offset` is the position at
/// which decoding could not continue, kept for diagnostics only.
#[derive(Debug, Clone, Copy, PartialEq, Eq, Structural)]
pub struct DecodeError {
    pub offset: usize,
}

/// The major type of a header byte: its high-order three bits.
pub fn get_cbor_type(e: u8) -> (r: u8)
    ensures
        r == spec_cbor_type(e),
{
    (e & 0b111_00000) >> 5
}

/// The additional information of a header byte: its low-order five bits.
pub fn get_cbor_info(e: u8) -> (r: u8)
    ensures
        r == spec_cbor_info(e),
{
    e & 0b000_11111
}

pub open spec fn spec_cbor_type(e: u8) -> u8 {
    (e & 0b111_00000) >> 5
}

pub open spec fn spec_cbor_info(e: u8) -> u8 {
    e & 0b000_11111
}

/// The numeric value carried by a decoded unsigned integer.
pub open spec fn spec_uns_value(u: CborUnsigned) -> int {
    match u {
        CborUnsigned::UInt8(v) => v as int,
        CborUnsigned::UInt16(v) => v as int,
        CborUnsigned::UInt32(v) => v as int,
        CborUnsigned::UInt64(v) => v as int,
    }
}

/// The width-preserving negative-integer transform: `-1 - m` in the
/// magnitude's own width, wrapping around that width.
pub open spec fn spec_to_signed(u: CborUnsigned) -> CborSigned {
    match u {
        CborUnsigned::UInt8(n) => CborSigned::Int8(
            (if n <= 127 { -1 - n as int } else { 255 - n as int }) as i8,
        ),
        CborUnsigned::UInt16(n) => CborSigned::Int16(
            (if n <= 0x7fff { -1 - n as int } else { 0xffff - n as int }) as i16,
        ),
        CborUnsigned::UInt32(n) => CborSigned::Int32(
            (if n <= 0x7fff_ffff { -1 - n as int } else { 0xffff_ffff - n as int }) as i32,
        ),
        CborUnsigned::UInt64(n) => CborSigned::Int64(
            (if n <= 0x7fff_ffff_ffff_ffff { -1 - n as int } else {
                0xffff_ffff_ffff_ffff - n as int
            }) as i64,
        ),
    }
}

/// The hash-tree tag denoted by an inline major-type-0 value 0..=4.
pub open spec fn spec_tree_tag(info: u8) -> CborHashTree {
    if info == 0 { CborHashTree::Empty }
    else if info == 1 { CborHashTree::Fork }
    else if info == 2 { CborHashTree::Labelled }
    else if info == 3 { CborHashTree::Leaf }
    else { CborHashTree::Pruned }
}

/// Decodes the header at position `i`: the unsigned value carried by the
/// additional information (inline, or read big-endian from the following
/// 1, 2, 4 or 8 bytes) and the position just past it. Additional
/// information 28..=31 is invalid.
pub open spec fn spec_header(s: Seq<u8>, i: int) -> Option<(CborUnsigned, int)> {
    if !(0 <= i < s.len()) {
        None
    } else {
        let info = spec_cbor_info(s[i]);
        if info <= 23 {
            Some((CborUnsigned::UInt8(info), i + 1))
        } else if info == 24 {
            if i + 2 <= s.len() {
                Some((CborUnsigned::UInt8(s[i + 1]), i + 2))
            } else {
                None
            }
        } else if info == 25 {
            if i + 3 <= s.len() {
                Some((CborUnsigned::UInt16(((s[i + 1] as int) * 0x100 + s[i + 2] as int) as u16),
                    i + 3))
            } else {
                None
            }
        } else if info == 26 {
            if i + 5 <= s.len() {
                Some((CborUnsigned::UInt32(
                    ((s[i + 1] as int) * 0x100_0000 + (s[i + 2] as int) * 0x1_0000
                        + (s[i + 3] as int) * 0x100 + s[i + 4] as int) as u32,
                ), i + 5))
            } else {
                None
            }
        } else if info == 27 {
            if i + 9 <= s.len() {
                Some((CborUnsigned::UInt64(
                    ((s[i + 1] as int) * 0x100_0000_0000_0000
                        + (s[i + 2] as int) * 0x1_0000_0000_0000
                        + (s[i + 3] as int) * 0x100_0000_0000
                        + (s[i + 4] as int) * 0x1_0000_0000
                        + (s[i + 5] as int) * 0x100_0000
                        + (s[i + 6] as int) * 0x1_0000
                        + (s[i + 7] as int) * 0x100
                        + s[i + 8] as int) as u64,
                ), i + 9))
            } else {
                None
            }
        } else {
            None
        }
    }
}

/// Replaces the value under `key` if present (keeping its position),
/// otherwise appends the pair: duplicate map keys overwrite, last wins.
pub open spec fn spec_map_insert(
    m: Seq<(Seq<char>, CborVal)>,
    key: Seq<char>,
    val: CborVal,
) -> Seq<(Seq<char>, CborVal)>
    decreases m.len(),
{
    if m.len() == 0 {
        seq![(key, val)]
    } else if m[0].0 == key {
        seq![(key, val)] + m.drop_first()
    } else {
        seq![m[0]] + spec_map_insert(m.drop_first(), key, val)
    }
}

/// Decodes one value at position `i` of `s`: the value and the position
/// just past it, or `None` if the input is malformed there.
pub open spec fn spec_decode_at(s: Seq<u8>, i: int) -> Option<(CborVal, int)>
    decreases s.len() - i, 0int, 0int,
    when i >= 0
{
    match spec_header(s, i) {
        None => None,
        Some((uns, hd)) => {
            let major = spec_cbor_type(s[i]);
            let info = spec_cbor_info(s[i]);
            if major == 0 {
                if info <= 4 {
                    Some((CborVal::HashTree(spec_tree_tag(info)), hd))
                } else {
                    Some((CborVal::Unsigned(uns), hd))
                }
            } else if major == 1 {
                Some((CborVal::Signed(spec_to_signed(uns)), hd))
            } else if major == 2 || major == 3 {
                let n = spec_uns_value(uns);
                if hd + n <= s.len() {
                    Some((CborVal::Bytes(s.subrange(hd, hd + n)), hd + n))
                } else {
                    None
                }
            } else if major == 4 {
                match spec_decode_list(s, hd, spec_uns_value(uns), Seq::empty()) {
                    None => None,
                    Some((items, end)) => Some((CborVal::Array(items), end)),
                }
            } else if major == 5 {
                match spec_decode_map(s, hd, spec_uns_value(uns), Seq::empty()) {
                    None => None,
                    Some((entries, end)) => Some((CborVal::Dict(entries), end)),
                }
            } else if major == 6 || major == 7 {
                spec_decode_at(s, hd)
            } else {
                None
            }
        },
    }
}

/// Decodes `n` further array elements starting at position `i`,
/// accumulated onto `acc`.
pub open spec fn spec_decode_list(
    s: Seq<u8>,
    i: int,
    n: int,
    acc: Seq<CborVal>,
) -> Option<(Seq<CborVal>, int)>
    decreases s.len() - i, n, 1int,
    when i >= 0
{
    if n <= 0 {
        Some((acc, i))
    } else {
        match spec_decode_at(s, i) {
            None => None,
            Some((val, end)) => {
                if i < end <= s.len() {
                    spec_decode_list(s, end, n - 1, acc.push(val))
                } else {
                    None
                }
            },
        }
    }
}

/// Decodes `n` further key/value pairs starting at position `i`,
/// accumulated onto `acc`. A key must decode to a byte string holding
/// valid UTF-8; duplicate keys overwrite the earlier entry.
pub open spec fn spec_decode_map(
    s: Seq<u8>,
    i: int,
    n: int,
    acc: Seq<(Seq<char>, CborVal)>,
) -> Option<(Seq<(Seq<char>, CborVal)>, int)>
    decreases s.len() - i, n, 1int,
    when i >= 0
{
    if n <= 0 {
        Some((acc, i))
    } else {
        match spec_decode_at(s, i) {
            None => None,
            Some((key, kend)) => {
                if !(i < kend <= s.len()) {
                    None
                } else {
                    match key {
                        CborVal::Bytes(kb) => {
                            if !valid_utf8(kb) {
                                None
                            } else {
                                match spec_decode_at(s, kend) {
                                    None => None,
                                    Some((val, vend)) => {
                                        if kend < vend <= s.len() {
                                            spec_decode_map(s, vend, n - 1,
                                                spec_map_insert(acc, decode_utf8(kb), val))
                                        } else {
                                            None
                                        }
                                    },
                                }
                            }
                        },
                        _ => None,
                    }
                }
            },
        }
    }
}

/// The whole-input decoding that `parse_cbor` implements: one value
/// consuming the entire input.
pub open spec fn spec_parse_cbor(s: Seq<u8>) -> Option<CborVal> {
    match spec_decode_at(s, 0) {
        None => None,
        Some((val, end)) => if end == s.len() { Some(val) } else { None },
    }
}

/// A major-type-0 value 0..=4 encoded inline decodes as a hash-tree node
/// tag, never as an integer; the same value in the one-byte
/// length-prefixed form decodes as an ordinary unsigned integer.
pub proof fn lemma_tree_tag_disambiguation(b: u8)
    requires
        b <= 4,
    ensures
        spec_decode_at(seq![b], 0) == Some((CborVal::HashTree(spec_tree_tag(b)), 1int)),
        spec_decode_at(seq![0x18u8, b], 0) == Some((
            CborVal::Unsigned(CborUnsigned::UInt8(b)),
            2int,
        )),
{
    assert(spec_cbor_type(b) == 0 && spec_cbor_info(b) == b) by (bit_vector)
        requires
            b <= 4,
    ;
    assert(spec_cbor_type(0x18u8) == 0 && spec_cbor_info(0x18u8) == 24) by (bit_vector);
    let s1 = seq![b];
    assert(s1.len() == 1 && s1[0] == b);
    assert(spec_header(s1, 0) == Some((CborUnsigned::UInt8(b), 1int)));
    let s2 = seq![0x18u8, b];
    assert(s2.len() == 2 && s2[0] == 0x18u8 && s2[1] == b);
    assert(spec_header(s2, 0) == Some((CborUnsigned::UInt8(b), 2int)));
}

/// `models_of` maps the sequence element by element.
pub proof fn lemma_models_of_index(s: Seq<CborValue>)
    ensures
        models_of(s).len() == s.len(),
        forall|i: int| 0 <= i < s.len() ==> #[trigger] models_of(s)[i] == s[i].model(),
    decreases s.len(),
{
    if s.len() > 0 {
        lemma_models_of_index(s.drop_first());
        assert forall|i: int| 0 <= i < s.len() implies #[trigger] models_of(s)[i] == s[i].model()
        by {
            if i > 0 {
                assert(models_of(s)[i] == models_of(s.drop_first())[i - 1]);
                assert(s.drop_first()[i - 1] == s[i]);
            }
        }
    }
}

pub proof fn lemma_models_of_push(s: Seq<CborValue>, v: CborValue)
    ensures
        models_of(s.push(v)) == models_of(s).push(v.model()),
{
    lemma_models_of_index(s);
    lemma_models_of_index(s.push(v));
    assert(models_of(s.push(v)) =~= models_of(s).push(v.model()));
}

/// `dict_models_of` maps the entries element by element.
pub proof fn lemma_dict_models_of_index(s: Seq<(String, CborValue)>)
    ensures
        dict_models_of(s).len() == s.len(),
        forall|i: int|
            0 <= i < s.len() ==> #[trigger] dict_models_of(s)[i] == (s[i].0@, s[i].1.model()),
    decreases s.len(),
{
    if s.len() > 0 {
        lemma_dict_models_of_index(s.drop_first());
        assert forall|i: int| 0 <= i < s.len() implies #[trigger] dict_models_of(s)[i] == (
            s[i].0@,
            s[i].1.model(),
        ) by {
            if i > 0 {
                assert(dict_models_of(s)[i] == dict_models_of(s.drop_first())[i - 1]);
                assert(s.drop_first()[i - 1] == s[i]);
            }
        }
    }
}

pub proof fn lemma_dict_models_of_push(s: Seq<(String, CborValue)>, p: (String, CborValue))
    ensures
        dict_models_of(s.push(p)) == dict_models_of(s).push((p.0@, p.1.model())),
{
    lemma_dict_models_of_index(s);
    lemma_dict_models_of_index(s.push(p));
    assert(dict_models_of(s.push(p)) =~= dict_models_of(s).push((p.0@, p.1.model())));
}

pub proof fn lemma_dict_models_of_update(s: Seq<(String, CborValue)>, j: int, p: (String, CborValue))
    requires
        0 <= j < s.len(),
    ensures
        dict_models_of(s.update(j, p)) == dict_models_of(s).update(j, (p.0@, p.1.model())),
{
    lemma_dict_models_of_index(s);
    lemma_dict_models_of_index(s.update(j, p));
    assert(dict_models_of(s.update(j, p)) =~= dict_models_of(s).update(j, (p.0@, p.1.model())));
}

/// Inserting a key that no entry holds appends the pair.
pub proof fn lemma_map_insert_absent(m: Seq<(Seq<char>, CborVal)>, key: Seq<char>, val: CborVal)
    requires
        forall|i: int| 0 <= i < m.len() ==> m[i].0 != key,
    ensures
        spec_map_insert(m, key, val) == m.push((key, val)),
    decreases m.len(),
{
    if m.len() == 0 {
        assert(spec_map_insert(m, key, val) =~= m.push((key, val)));
    } else {
        assert(m[0].0 != key);
        lemma_map_insert_absent(m.drop_first(), key, val);
        assert(spec_map_insert(m, key, val) =~= m.push((key, val)));
    }
}

/// Inserting a key held by the entry at the first matching position `j`
/// replaces that entry in place.
pub proof fn lemma_map_insert_found(
    m: Seq<(Seq<char>, CborVal)>,
    key: Seq<char>,
    val: CborVal,
    j: int,
)
    requires
        0 <= j < m.len(),
        m[j].0 == key,
        forall|i: int| 0 <= i < j ==> m[i].0 != key,
    ensures
        spec_map_insert(m, key, val) == m.update(j, (key, val)),
    decreases m.len(),
{
    if j == 0 {
        assert(spec_map_insert(m, key, val) =~= m.update(0, (key, val)));
    } else {
        assert(m[0].0 != key);
        lemma_map_insert_found(m.drop_first(), key, val, j - 1);
        assert(m.drop_first().update(j - 1, (key, val)) =~= m.update(j, (key, val)).drop_first());
        assert(spec_map_insert(m, key, val) =~= m.update(j, (key, val)));
    }
}

/// Relies on `String::from_utf8`: it succeeds exactly on valid UTF-8 and
/// returns the string those bytes spell.
#[verifier::external_body]
fn bytes_to_string(bytes: Vec<u8>) -> (r: Option<String>)
    ensures
        match r {
            Some(s) => valid_utf8(bytes@) && s@ == decode_utf8(bytes@),
            None => !valid_utf8(bytes@),
        },
{
    match String::from_utf8(bytes) {
        Ok(s) => Some(s),
        Err(_) => None,
    }
}

impl CborUnsigned {
    /// The carried value as a `usize`; the value must fit.
    pub fn to_usize(self) -> (r: usize)
        requires
            spec_uns_value(self) <= usize::MAX,
        ensures
            r == spec_uns_value(self),
    {
        match self {
            CborUnsigned::UInt8(v) => v as usize,
            CborUnsigned::UInt16(v) => v as usize,
            CborUnsigned::UInt32(v) => v as usize,
            CborUnsigned::UInt64(v) => v as usize,
        }
    }

    /// The carried value as a `u64`, which always fits.
    pub fn to_u64(self) -> (r: u64)
        ensures
            r == spec_uns_value(self),
    {
        match self {
            CborUnsigned::UInt8(v) => v as u64,
            CborUnsigned::UInt16(v) => v as u64,
            CborUnsigned::UInt32(v) => v as u64,
            CborUnsigned::UInt64(v) => v,
        }
    }

    /// The width-preserving CBOR negative-integer transform `-1 - m`,
    /// wrapping within the magnitude's own width.
    pub fn to_signed(self) -> (r: CborSigned)
        ensures
            r == spec_to_signed(self),
    {
        match self {
            CborUnsigned::UInt8(n) => CborSigned::Int8(
                if n <= 127 { -1 - (n as i8) } else { (255 - n) as i8 },
            ),
            CborUnsigned::UInt16(n) => CborSigned::Int16(
                if n <= 0x7fff { -1 - (n as i16) } else { (0xffff - n) as i16 },
            ),
            CborUnsigned::UInt32(n) => CborSigned::Int32(
                if n <= 0x7fff_ffff { -1 - (n as i32) } else { (0xffff_ffff - n) as i32 },
            ),
            CborUnsigned::UInt64(n) => CborSigned::Int64(
                if n <= 0x7fff_ffff_ffff_ffff { -1 - (n as i64) } else {
                    (0xffff_ffff_ffff_ffff - n) as i64
                },
            ),
        }
    }
}

/// Reads the header at `pos`: the unsigned value carried by the additional
/// information and the position just past it.
fn extract_cbor_value(v: &Vec<u8>, pos: usize) -> (r: Result<(CborUnsigned, usize), DecodeError>)
    requires
        pos <= v@.len(),
    ensures
        match r {
            Ok((uns, end)) => spec_header(v@, pos as int) == Some((uns, end as int)) && pos < end
                <= v@.len(),
            Err(_) => spec_header(v@, pos as int) is None,
        },
{
    if pos >= v.len() {
        return Err(DecodeError { offset: pos });
    }
    let info = get_cbor_info(v[pos]);
    if info <= 23 {
        Ok((CborUnsigned::UInt8(info), pos + 1))
    } else if info == 24 {
        if v.len() - pos >= 2 {
            Ok((CborUnsigned::UInt8(v[pos + 1]), pos + 2))
        } else {
            Err(DecodeError { offset: pos })
        }
    } else if info == 25 {
        if v.len() - pos >= 3 {
            let x: u16 = (v[pos + 1] as u16) * 0x100 + (v[pos + 2] as u16);
            Ok((CborUnsigned::UInt16(x), pos + 3))
        } else {
            Err(DecodeError { offset: pos })
        }
    } else if info == 26 {
        if v.len() - pos >= 5 {
            let x: u32 = (v[pos + 1] as u32) * 0x100_0000 + (v[pos + 2] as u32) * 0x1_0000 + (v[pos
                + 3] as u32) * 0x100 + (v[pos + 4] as u32);
            Ok((CborUnsigned::UInt32(x), pos + 5))
        } else {
            Err(DecodeError { offset: pos })
        }
    } else if info == 27 {
        if v.len() - pos >= 9 {
            let x: u64 = (v[pos + 1] as u64) * 0x100_0000_0000_0000 + (v[pos + 2] as u64)
                * 0x1_0000_0000_0000 + (v[pos + 3] as u64) * 0x100_0000_0000 + (v[pos + 4] as u64)
                * 0x1_0000_0000 + (v[pos + 5] as u64) * 0x100_0000 + (v[pos + 6] as u64) * 0x1_0000
                + (v[pos + 7] as u64) * 0x100 + (v[pos + 8] as u64);
            Ok((CborUnsigned::UInt64(x), pos + 9))
        } else {
            Err(DecodeError { offset: pos })
        }
    } else {
        Err(DecodeError { offset: pos })
    }
}

/// The hash-tree tag for an inline major-type-0 value 0..=4.
fn tree_tag_of(info: u8) -> (r: CborHashTree)
    requires
        info <= 4,
    ensures
        r == spec_tree_tag(info),
{
    if info == 0 {
        CborHashTree::Empty
    } else if info == 1 {
        CborHashTree::Fork
    } else if info == 2 {
        CborHashTree::Labelled
    } else if info == 3 {
        CborHashTree::Leaf
    } else {
        CborHashTree::Pruned
    }
}

/// The first index whose entry holds `key`, if any.
fn dict_find(entries: &Vec<(String, CborValue)>, key: &String) -> (r: Option<usize>)
    ensures
        match r {
            Some(j) => j < entries@.len() && entries@[j as int].0@ == key@ && forall|i: int|
                0 <= i < j ==> entries@[i].0@ != key@,
            None => forall|i: int| 0 <= i < entries@.len() ==> entries@[i].0@ != key@,
        },
{
    let mut j: usize = 0;
    while j < entries.len()
        invariant
            j <= entries@.len(),
            forall|i: int| 0 <= i < j ==> entries@[i].0@ != key@,
        decreases entries@.len() - j,
    {
        if entries[j].0 == *key {
            return Some(j);
        }
        j += 1;
    }
    None
}

/// Decodes one value at position `pos`, returning it with the position just
/// past it; fails exactly where the mathematical decoding is undefined.
#[verifier::loop_isolation(false)]
fn decode_at(v: &Vec<u8>, pos: usize) -> (r: Result<(CborValue, usize), DecodeError>)
    requires
        pos <= v@.len(),
    ensures
        match r {
            Ok((val, end)) => spec_decode_at(v@, pos as int) == Some((val.model(), end as int))
                && pos < end <= v@.len(),
            Err(_) => spec_decode_at(v@, pos as int) is None,
        },
    decreases v@.len() - pos,
{
    if pos >= v.len() {
        return Err(DecodeError { offset: pos });
    }
    let b = v[pos];
    let major = get_cbor_type(b);
    let info = get_cbor_info(b);
    let (uns, hd) = match extract_cbor_value(v, pos) {
        Ok(x) => x,
        Err(e) => {
            return Err(e);
        },
    };
    if major == 0 {
        if info <= 4 {
            Ok((CborValue::HashTree(tree_tag_of(info)), hd))
        } else {
            Ok((CborValue::Unsigned(uns), hd))
        }
    } else if major == 1 {
        Ok((CborValue::Signed(uns.to_signed()), hd))
    } else if major == 2 || major == 3 {
        let n64 = uns.to_u64();
        if n64 > (v.len() - hd) as u64 {
            return Err(DecodeError { offset: hd });
        }
        let n = uns.to_usize();
        let mut bytes: Vec<u8> = Vec::new();
        let mut k: usize = 0;
        while k < n
            invariant
                k <= n,
                hd + n <= v@.len(),
                bytes@ =~= v@.subrange(hd as int, hd + k as int),
            decreases n - k,
        {
            bytes.push(v[hd + k]);
            k += 1;
        }
        assert(bytes@ =~= v@.subrange(hd as int, hd + n as int));
        Ok((CborValue::ByteString(bytes), hd + n))
    } else if major == 4 {
        let count = uns.to_u64();
        let mut items: Vec<CborValue> = Vec::new();
        let mut cur = hd;
        let mut i: u64 = 0;
        while i < count
            invariant
                i <= count,
                pos < cur <= v@.len(),
                spec_decode_list(v@, hd as int, spec_uns_value(uns), Seq::empty())
                    == spec_decode_list(v@, cur as int, count - i, models_of(items@)),
                count == spec_uns_value(uns),
            decreases count - i,
        {
            match decode_at(v, cur) {
                Err(e) => {
                    return Err(e);
                },
                Ok((val, end)) => {
                    proof {
                        lemma_models_of_push(items@, val);
                    }
                    items.push(val);
                    cur = end;
                    i += 1;
                },
            }
        }
        Ok((CborValue::Array(items), cur))
    } else if major == 5 {
        let count = uns.to_u64();
        let mut entries: Vec<(String, CborValue)> = Vec::new();
        let mut cur = hd;
        let mut i: u64 = 0;
        while i < count
            invariant
                i <= count,
                pos < cur <= v@.len(),
                spec_decode_map(v@, hd as int, spec_uns_value(uns), Seq::empty())
                    == spec_decode_map(v@, cur as int, count - i, dict_models_of(entries@)),
                count == spec_uns_value(uns),
            decreases count - i,
        {
            let (kval, kend) = match decode_at(v, cur) {
                Err(e) => {
                    return Err(e);
                },
                Ok(x) => x,
            };
            let kb = match kval {
                CborValue::ByteString(kb) => kb,
                _ => {
                    return Err(DecodeError { offset: cur });
                },
            };
            let key = match bytes_to_string(kb) {
                Some(s) => s,
                None => {
                    return Err(DecodeError { offset: cur });
                },
            };
            let (vv, vend) = match decode_at(v, kend) {
                Err(e) => {
                    return Err(DecodeError { offset: kend });
                },
                Ok(x) => x,
            };
            match dict_find(&entries, &key) {
                Some(j) => {
                    proof {
                        let m = dict_models_of(entries@);
                        lemma_dict_models_of_index(entries@);
                        assert forall|i: int| 0 <= i < j implies m[i].0 != key@ by {
                            assert(entries@[i].0@ != key@);
                        }
                        lemma_map_insert_found(m, key@, vv.model(), j as int);
                        lemma_dict_models_of_update(entries@, j as int, (key, vv));
                    }
                    entries[j] = (key, vv);
                },
                None => {
                    proof {
                        let m = dict_models_of(entries@);
                        lemma_dict_models_of_index(entries@);
                        assert forall|i: int| 0 <= i < m.len() implies m[i].0 != key@ by {
                            assert(entries@[i].0@ != key@);
                        }
                        lemma_map_insert_absent(m, key@, vv.model());
                        lemma_dict_models_of_push(entries@, (key, vv));
                    }
                    entries.push((key, vv));
                },
            }
            cur = vend;
            i += 1;
        }
        Ok((CborValue::Dict(entries), cur))
    } else if major == 6 || major == 7 {
        decode_at(v, hd)
    } else {
        proof {
            assert(spec_cbor_type(b) <= 7) by (bit_vector);
        }
        Err(DecodeError { offset: pos })
    }
}

/// Decodes one value consuming the entire input; trailing bytes after a
/// complete value are an error, as is any malformed prefix.
pub fn parse_cbor(i: &[u8]) -> (r: Result<CborValue, DecodeError>)
    ensures
        match r {
            Ok(val) => spec_parse_cbor(i@) == Some(val.model()),
            Err(_) => spec_parse_cbor(i@) is None,
        },
{
    let v = vstd::slice::slice_to_vec(i);
    let (val, end) = match decode_at(&v, 0) {
        Ok(x) => x,
        Err(e) => {
            return Err(e);
        },
    };
    if end != v.len() {
        return Err(DecodeError { offset: end });
    }
    Ok(val)
}

} // verus!
