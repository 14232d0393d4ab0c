//! Cryptographic leaf hashing and representation-independent hashing of
//! ordered key/value and list structures.
//!
//! The representation-independent form hashes each field on its own and then
//! hashes the sorted concatenation of the per-field hashes, so the digest does
//! not depend on the wire encoding that carried the data.

use vstd::prelude::*;

verus! {

use vstd::utf8::encode_utf8;

broadcast use vstd::std_specs::vec::group_vec_axioms, vstd::seq::group_seq_axioms;

/// The SHA-256 digest of a byte string: 32 bytes, a function of the input
/// alone.
pub uninterp spec fn sha256_of(bytes: Seq<u8>) -> Seq<u8>;

/// Relies on `ic_representation_independent_hash::hash`: the SHA-256 digest
/// of `data`, depending on `data` alone; its type fixes the length at 32.
#[verifier::external_body]
pub fn hash(data: &[u8]) -> (r: Vec<u8>)
    ensures
        r@ == sha256_of(data@),
        r@.len() == 32,
{
    ic_representation_independent_hash::hash(data).to_vec()
}

/// The concatenation of a sequence of byte strings, in order.
pub open spec fn spec_concat(s: Seq<Seq<u8>>) -> Seq<u8>
    decreases s.len(),
{
    if s.len() == 0 {
        Seq::empty()
    } else {
        s[0] + spec_concat(s.drop_first())
    }
}

pub proof fn lemma_concat_push(t: Seq<Seq<u8>>, x: Seq<u8>)
    ensures
        spec_concat(t.push(x)) == spec_concat(t) + x,
    decreases t.len(),
{
    if t.len() == 0 {
        assert(t.push(x).drop_first() =~= Seq::<Seq<u8>>::empty());
        assert(spec_concat(Seq::<Seq<u8>>::empty()) =~= Seq::<u8>::empty());
        assert(spec_concat(t.push(x)) =~= spec_concat(t) + x);
    } else {
        assert(t.push(x).drop_first() =~= t.drop_first().push(x));
        lemma_concat_push(t.drop_first(), x);
        assert(spec_concat(t.push(x)) =~= spec_concat(t) + x);
    }
}

/// Inserts `x` in front of the first element it does not come after,
/// keeping ascending byte order.
pub open spec fn spec_insert_sorted(x: Seq<u8>, s: Seq<Seq<u8>>) -> Seq<Seq<u8>>
    decreases s.len(),
{
    if s.len() == 0 {
        seq![x]
    } else if crate::hash_tree::spec_lex_cmp(x, s[0]) <= 0 {
        seq![x] + s
    } else {
        seq![s[0]] + spec_insert_sorted(x, s.drop_first())
    }
}

/// Sorts byte strings into ascending byte order by repeated insertion.
pub open spec fn spec_sort(s: Seq<Seq<u8>>) -> Seq<Seq<u8>>
    decreases s.len(),
{
    if s.len() == 0 {
        Seq::empty()
    } else {
        spec_insert_sorted(s[0], spec_sort(s.drop_first()))
    }
}

proof fn lemma_insert_sorted_at(s: Seq<Seq<u8>>, x: Seq<u8>, idx: int)
    requires
        0 <= idx <= s.len(),
        forall|i: int| 0 <= i < idx ==> crate::hash_tree::spec_lex_cmp(x, #[trigger] s[i]) > 0,
        idx < s.len() ==> crate::hash_tree::spec_lex_cmp(x, s[idx]) <= 0,
    ensures
        spec_insert_sorted(x, s) == s.insert(idx, x),
    decreases s.len(),
{
    if s.len() == 0 {
        assert(spec_insert_sorted(x, s) =~= s.insert(idx, x));
    } else if idx == 0 {
        assert(spec_insert_sorted(x, s) =~= s.insert(0, x));
    } else {
        lemma_insert_sorted_at(s.drop_first(), x, idx - 1);
        assert(s.drop_first().insert(idx - 1, x) =~= s.insert(idx, x).drop_first());
        assert(spec_insert_sorted(x, s) =~= s.insert(idx, x));
    }
}

/// The views of a sequence of byte vectors, element by element.
pub open spec fn views_of(s: Seq<Vec<u8>>) -> Seq<Seq<u8>> {
    Seq::new(s.len(), |i: int| s[i]@)
}

/// The first position whose element `x` does not come after.
fn find_insert_idx(out: &Vec<Vec<u8>>, x: &Vec<u8>) -> (idx: usize)
    ensures
        idx <= out@.len(),
        forall|i: int|
            0 <= i < idx ==> crate::hash_tree::spec_lex_cmp(x@, #[trigger] out@[i]@) > 0,
        idx < out@.len() ==> crate::hash_tree::spec_lex_cmp(x@, out@[idx as int]@) <= 0,
{
    let mut idx: usize = 0;
    while idx < out.len()
        invariant
            idx <= out@.len(),
            forall|i: int|
                0 <= i < idx ==> crate::hash_tree::spec_lex_cmp(x@, #[trigger] out@[i]@) > 0,
        decreases out@.len() - idx,
    {
        if crate::hash_tree::lex_cmp(x, &out[idx]) <= 0 {
            return idx;
        }
        idx += 1;
    }
    idx
}

/// Inserts `x` into the ascending vector `out`, in front of the first
/// element it does not come after.
fn insert_sorted(out: &mut Vec<Vec<u8>>, x: Vec<u8>)
    ensures
        views_of(final(out)@) == spec_insert_sorted(x@, views_of(old(out)@)),
{
    let ghost dv = views_of(old(out)@);
    let idx = find_insert_idx(out, &x);
    proof {
        assert(forall|i: int| 0 <= i < dv.len() ==> #[trigger] dv[i] == old(out)@[i]@);
        lemma_insert_sorted_at(dv, x@, idx as int);
    }
    out.insert(idx, x);
    assert(views_of(final(out)@) =~= dv.insert(idx as int, x@));
}

/// Sorts byte strings into ascending byte order.
fn sort_items(items: &Vec<Vec<u8>>) -> (r: Vec<Vec<u8>>)
    ensures
        views_of(r@) == spec_sort(views_of(items@)),
{
    let ghost orig = views_of(items@);
    let mut out: Vec<Vec<u8>> = Vec::new();
    let mut i: usize = items.len();
    proof {
        assert(orig.skip(orig.len() as int) =~~= Seq::<Seq<u8>>::empty());
        assert(views_of(out@) =~~= spec_sort(orig.skip(orig.len() as int)));
    }
    while i > 0
        invariant
            i <= items@.len(),
            orig == views_of(items@),
            views_of(out@) == spec_sort(orig.skip(i as int)),
        decreases i,
    {
        i -= 1;
        let x = crate::hash_tree::clone_bytes(&items[i]);
        proof {
            let k = i as int;
            assert(x@ == orig[k]);
            assert(orig.skip(k)[0] == orig[k]);
            assert(orig.skip(k).drop_first() =~~= orig.skip(k + 1));
            assert(spec_sort(orig.skip(k + 1)) == spec_sort(orig.skip(k).drop_first()));
        }
        insert_sorted(&mut out, x);
        assert(views_of(out@) == spec_sort(orig.skip(i as int)));
    }
    proof {
        assert(orig.skip(0) =~~= orig);
        assert(spec_sort(orig.skip(0)) == spec_sort(orig));
    }
    out
}

/// The per-field hash of a named value: the hash of the name followed by
/// the hash of the value.
pub open spec fn spec_field_hashes(pairs: Seq<(Seq<u8>, Seq<u8>)>) -> Seq<Seq<u8>> {
    Seq::new(pairs.len(), |i: int| sha256_of(pairs[i].0) + sha256_of(pairs[i].1))
}

/// The representation-independent hash of named fields: each field hashed
/// on its own, the per-field hashes sorted into ascending byte order, and
/// their concatenation hashed.
pub open spec fn spec_hash_map(pairs: Seq<(Seq<u8>, Seq<u8>)>) -> Seq<u8> {
    sha256_of(spec_concat(spec_sort(spec_field_hashes(pairs))))
}

/// The views of a sequence of byte-pair vectors, element by element.
pub open spec fn pair_views_of(s: Seq<(Vec<u8>, Vec<u8>)>) -> Seq<(Seq<u8>, Seq<u8>)> {
    Seq::new(s.len(), |i: int| (s[i].0@, s[i].1@))
}

/// Hashes an ordered sequence of named fields independent of their wire
/// representation: the digest depends only on the set of (name, value)
/// pairs, not on the order they came in.
pub fn hash_map(pairs: &Vec<(Vec<u8>, Vec<u8>)>) -> (r: Vec<u8>)
    ensures
        r@ == spec_hash_map(pair_views_of(pairs@)),
        r@.len() == 32,
{
    let ghost dv = pair_views_of(pairs@);
    let mut items: Vec<Vec<u8>> = Vec::new();
    let mut i: usize = 0;
    while i < pairs.len()
        invariant
            i <= pairs@.len(),
            items@.len() == i,
            dv == pair_views_of(pairs@),
            views_of(items@) == spec_field_hashes(dv).take(i as int),
        decreases pairs@.len() - i,
    {
        let ghost items_pre = items@;
        let mut item = hash(pairs[i].0.as_slice());
        let vh = hash(pairs[i].1.as_slice());
        crate::hash_tree::append_bytes(&mut item, &vh);
        proof {
            assert(dv[i as int] == (pairs@[i as int].0@, pairs@[i as int].1@));
            assert(item@ == sha256_of(dv[i as int].0) + sha256_of(dv[i as int].1));
        }
        items.push(item);
        i += 1;
        proof {
            assert forall|k: int| 0 <= k < i implies views_of(items@)[k] == spec_field_hashes(
                dv,
            ).take(i as int)[k] by {
                if k < i - 1 {
                    assert(items@[k] == items_pre[k]);
                    assert(views_of(items_pre)[k] == spec_field_hashes(dv).take(i - 1)[k]);
                } else {
                    assert(items@[k] == item);
                    assert(spec_field_hashes(dv)[k] == sha256_of(dv[k].0) + sha256_of(dv[k].1));
                }
            }
            assert(views_of(items@) =~~= spec_field_hashes(dv).take(i as int));
        }
    }
    proof {
        assert(spec_field_hashes(dv).take(pairs@.len() as int) =~~= spec_field_hashes(dv));
    }
    let sorted = sort_items(&items);
    let mut buf: Vec<u8> = Vec::new();
    let ghost sv = views_of(sorted@);
    let mut j: usize = 0;
    proof {
        assert(sv.take(0) =~~= Seq::<Seq<u8>>::empty());
    }
    while j < sorted.len()
        invariant
            j <= sorted@.len(),
            sv == views_of(sorted@),
            buf@ == spec_concat(sv.take(j as int)),
        decreases sorted@.len() - j,
    {
        proof {
            lemma_concat_push(sv.take(j as int), sv[j as int]);
            assert(sv.take(j as int).push(sv[j as int]) =~~= sv.take(j + 1));
        }
        crate::hash_tree::append_bytes(&mut buf, &sorted[j]);
        j += 1;
    }
    proof {
        assert(sv.take(sorted@.len() as int) =~~= sv);
    }
    hash(buf.as_slice())
}

/// The representation-independent hash of a list: the per-element hashes
/// concatenated in the given order, then hashed.
pub open spec fn spec_hash_array(values: Seq<Seq<u8>>) -> Seq<u8> {
    sha256_of(spec_concat(Seq::new(values.len(), |i: int| sha256_of(values[i]))))
}

/// A byte lowered into ASCII lower case.
pub open spec fn ascii_lower_byte(b: u8) -> u8 {
    if 65 <= b && b <= 90 {
        (b + 32) as u8
    } else {
        b
    }
}

/// A byte string lowered into ASCII lower case.
pub open spec fn ascii_lower(s: Seq<u8>) -> Seq<u8> {
    Seq::new(s.len(), |i: int| ascii_lower_byte(s[i]))
}

/// Lowers a byte string into ASCII lower case.
pub fn lower_bytes(v: &Vec<u8>) -> (r: Vec<u8>)
    ensures
        r@ == ascii_lower(v@),
{
    let mut out: Vec<u8> = Vec::new();
    let mut i: usize = 0;
    while i < v.len()
        invariant
            i <= v@.len(),
            out@.len() == i,
            forall|k: int| 0 <= k < i ==> out@[k] == ascii_lower_byte(#[trigger] v@[k]),
        decreases v@.len() - i,
    {
        let b = v[i];
        if 65 <= b && b <= 90 {
            out.push(b + 32);
        } else {
            out.push(b);
        }
        i += 1;
    }
    assert(out@ =~= ascii_lower(v@));
    out
}

/// Whether two byte strings hold the same bytes.
pub fn bytes_eq(a: &Vec<u8>, b: &Vec<u8>) -> (r: bool)
    ensures
        r == (a@ == b@),
{
    if a.len() != b.len() {
        assert(a@ != b@);
        return false;
    }
    let mut i: usize = 0;
    while i < a.len()
        invariant
            i <= a@.len(),
            a@.len() == b@.len(),
            forall|k: int| 0 <= k < i ==> a@[k] == b@[k],
        decreases a@.len() - i,
    {
        if a[i] != b[i] {
            assert(a@ != b@);
            return false;
        }
        i += 1;
    }
    assert(a@ =~= b@);
    true
}

/// The UTF-8 bytes of a string.
pub fn str_bytes(s: &String) -> (r: Vec<u8>)
    ensures
        r@ == encode_utf8(s@),
{
    s.as_str().as_bytes_vec()
}

/// Whether `name` names one of the strings in `list`, ignoring ASCII case.
pub open spec fn spec_header_included(list: Seq<String>, name: Seq<char>) -> bool {
    exists|j: int|
        0 <= j < list.len() && #[trigger] ascii_lower(encode_utf8(list[j]@)) == ascii_lower(
            encode_utf8(name),
        )
}

fn header_included(list: &Vec<String>, name: &String) -> (r: bool)
    ensures
        r == spec_header_included(list@, name@),
{
    let nb_raw = str_bytes(name);
    let nb = lower_bytes(&nb_raw);
    let mut j: usize = 0;
    while j < list.len()
        invariant
            j <= list@.len(),
            nb@ == ascii_lower(encode_utf8(name@)),
            forall|k: int|
                0 <= k < j ==> #[trigger] ascii_lower(encode_utf8(list@[k]@)) != ascii_lower(
                    encode_utf8(name@),
                ),
        decreases list@.len() - j,
    {
        let lb_raw = str_bytes(&list[j]);
        let lb = lower_bytes(&lb_raw);
        if bytes_eq(&lb, &nb) {
            assert(ascii_lower(encode_utf8(list@[j as int]@)) == ascii_lower(encode_utf8(name@)));
            return true;
        }
        j += 1;
    }
    false
}

/// Whether `name` is the exact UTF-8 spelling of one of the strings in
/// `list`.
pub open spec fn spec_param_included(list: Seq<String>, name: Seq<u8>) -> bool {
    exists|j: int| 0 <= j < list.len() && #[trigger] encode_utf8(list[j]@) == name
}

fn param_included(list: &Vec<String>, name: &Vec<u8>) -> (r: bool)
    ensures
        r == spec_param_included(list@, name@),
{
    let mut j: usize = 0;
    while j < list.len()
        invariant
            j <= list@.len(),
            forall|k: int| 0 <= k < j ==> #[trigger] encode_utf8(list@[k]@) != name@,
        decreases list@.len() - j,
    {
        let lb = str_bytes(&list[j]);
        if bytes_eq(&lb, name) {
            assert(encode_utf8(list@[j as int]@) == name@);
            return true;
        }
        j += 1;
    }
    false
}

/// The (name, value) byte pairs of the headers whose name the allow-list
/// covers (ignoring ASCII case), from index `i` on; names are lowered.
pub open spec fn spec_certified_header_pairs(
    headers: Seq<(String, String)>,
    list: Seq<String>,
    i: int,
) -> Seq<(Seq<u8>, Seq<u8>)>
    decreases headers.len() - i,
    when i >= 0
{
    if i >= headers.len() {
        Seq::empty()
    } else {
        let rest = spec_certified_header_pairs(headers, list, i + 1);
        if spec_header_included(list, headers[i].0@) {
            seq![(ascii_lower(encode_utf8(headers[i].0@)), encode_utf8(headers[i].1@))] + rest
        } else {
            rest
        }
    }
}

/// Collects the allow-listed headers as (lowered name, value) byte pairs.
fn certified_header_pairs(headers: &Vec<(String, String)>, list: &Vec<String>) -> (r: Vec<
    (Vec<u8>, Vec<u8>),
>)
    ensures
        pair_views_of(r@) == spec_certified_header_pairs(headers@, list@, 0),
{
    let mut out: Vec<(Vec<u8>, Vec<u8>)> = Vec::new();
    let mut i: usize = 0;
    while i < headers.len()
        invariant
            i <= headers@.len(),
            pair_views_of(out@) + spec_certified_header_pairs(headers@, list@, i as int)
                == spec_certified_header_pairs(headers@, list@, 0),
        decreases headers@.len() - i,
    {
        let ghost pre = pair_views_of(out@);
        if header_included(list, &headers[i].0) {
            let nb_raw = str_bytes(&headers[i].0);
            let name = lower_bytes(&nb_raw);
            let value = str_bytes(&headers[i].1);
            out.push((name, value));
            proof {
                let p = (
                    ascii_lower(encode_utf8(headers@[i as int].0@)),
                    encode_utf8(headers@[i as int].1@),
                );
                assert(pair_views_of(out@) =~~= pre.push(p));
                assert(pre.push(p) + spec_certified_header_pairs(headers@, list@, i + 1) =~~= pre
                    + spec_certified_header_pairs(headers@, list@, i as int));
            }
        } else {
            proof {
                assert(spec_certified_header_pairs(headers@, list@, i + 1)
                    == spec_certified_header_pairs(headers@, list@, i as int));
            }
        }
        i += 1;
    }
    proof {
        assert(spec_certified_header_pairs(headers@, list@, headers@.len() as int).len() == 0);
        assert(pair_views_of(out@) + spec_certified_header_pairs(
            headers@,
            list@,
            headers@.len() as int,
        ) =~~= pair_views_of(out@));
    }
    out
}

/// The first position in `[from, upto)` holding byte `b`, or `upto`.
pub open spec fn spec_find_byte_before(s: Seq<u8>, from: int, upto: int, b: u8) -> int
    decreases upto - from,
    when from <= upto
{
    if from >= upto {
        upto
    } else if s[from] == b {
        from
    } else {
        spec_find_byte_before(s, from + 1, upto, b)
    }
}

fn find_byte_before(s: &Vec<u8>, from: usize, upto: usize, b: u8) -> (r: usize)
    requires
        from <= upto <= s@.len(),
    ensures
        r == spec_find_byte_before(s@, from as int, upto as int, b),
        from <= r <= upto,
        r < upto ==> s@[r as int] == b,
    decreases upto - from,
{
    if from >= upto {
        upto
    } else if s[from] == b {
        from
    } else {
        find_byte_before(s, from + 1, upto, b)
    }
}

/// Copies `s[i..j]`.
fn copy_range(s: &Vec<u8>, i: usize, j: usize) -> (r: Vec<u8>)
    requires
        i <= j <= s@.len(),
    ensures
        r@ == s@.subrange(i as int, j as int),
{
    let mut out: Vec<u8> = Vec::new();
    let mut k: usize = i;
    while k < j
        invariant
            i <= k <= j <= s@.len(),
            out@ =~= s@.subrange(i as int, k as int),
        decreases j - k,
    {
        out.push(s[k]);
        k += 1;
    }
    assert(out@ =~= s@.subrange(i as int, j as int));
    out
}

/// The result of `spec_find_byte_before` lies in `[from, upto]`.
pub proof fn lemma_find_byte_before_bounds(s: Seq<u8>, from: int, upto: int, b: u8)
    requires
        from <= upto,
    ensures
        from <= spec_find_byte_before(s, from, upto, b) <= upto,
    decreases upto - from,
{
    if from < upto && s[from] != b {
        lemma_find_byte_before_bounds(s, from + 1, upto, b);
    }
}

/// The (name, value) pairs of a query string: fields split on `&`, each
/// split into name and value at its first `=` (no `=` leaves the value
/// empty).
pub open spec fn spec_query_params(s: Seq<u8>, from: int) -> Seq<(Seq<u8>, Seq<u8>)>
    decreases s.len() - from,
    when 0 <= from <= s.len()
    via spec_query_params_dec
{
    let amp = spec_find_byte_before(s, from, s.len() as int, 38);
    let eqi = spec_find_byte_before(s, from, amp, 61);
    let pair = (
        s.subrange(from, eqi),
        if eqi == amp {
            Seq::<u8>::empty()
        } else {
            s.subrange(eqi + 1, amp)
        },
    );
    if amp >= s.len() {
        seq![pair]
    } else {
        seq![pair] + spec_query_params(s, amp + 1)
    }
}

#[via_fn]
proof fn spec_query_params_dec(s: Seq<u8>, from: int) {
    lemma_find_byte_before_bounds(s, from, s.len() as int, 38);
}

/// Splits a query string into its (name, value) pairs from `from` on.
fn query_params(q: &Vec<u8>, from: usize) -> (r: Vec<(Vec<u8>, Vec<u8>)>)
    requires
        from <= q@.len(),
    ensures
        pair_views_of(r@) == spec_query_params(q@, from as int),
    decreases q@.len() - from,
{
    let amp = find_byte_before(q, from, q.len(), 38);
    let eqi = find_byte_before(q, from, amp, 61);
    let name = copy_range(q, from, eqi);
    let value = if eqi == amp {
        Vec::new()
    } else {
        copy_range(q, eqi + 1, amp)
    };
    let ghost pair = (
        q@.subrange(from as int, eqi as int),
        if eqi == amp {
            Seq::<u8>::empty()
        } else {
            q@.subrange(eqi + 1, amp as int)
        },
    );
    if amp >= q.len() {
        let mut out: Vec<(Vec<u8>, Vec<u8>)> = Vec::new();
        out.push((name, value));
        assert(pair_views_of(out@) =~~= seq![pair]);
        out
    } else {
        let mut rest = query_params(q, amp + 1);
        let ghost restv = pair_views_of(rest@);
        rest.insert(0, (name, value));
        assert(pair_views_of(rest@) =~~= seq![pair] + restv);
        rest
    }
}

/// The query pairs whose name the allow-list covers exactly, from `i` on.
pub open spec fn spec_certified_query_pairs(
    params: Seq<(Seq<u8>, Seq<u8>)>,
    list: Seq<String>,
    i: int,
) -> Seq<(Seq<u8>, Seq<u8>)>
    decreases params.len() - i,
    when i >= 0
{
    if i >= params.len() {
        Seq::empty()
    } else {
        let rest = spec_certified_query_pairs(params, list, i + 1);
        if spec_param_included(list, params[i].0) {
            seq![params[i]] + rest
        } else {
            rest
        }
    }
}

/// Keeps the query pairs whose name the allow-list covers.
fn certified_query_pairs(params: Vec<(Vec<u8>, Vec<u8>)>, list: &Vec<String>) -> (r: Vec<
    (Vec<u8>, Vec<u8>),
>)
    ensures
        pair_views_of(r@) == spec_certified_query_pairs(pair_views_of(params@), list@, 0),
{
    let ghost pv = pair_views_of(params@);
    let mut out: Vec<(Vec<u8>, Vec<u8>)> = Vec::new();
    let mut i: usize = 0;
    while i < params.len()
        invariant
            i <= params@.len(),
            pv == pair_views_of(params@),
            pair_views_of(out@) + spec_certified_query_pairs(pv, list@, i as int)
                == spec_certified_query_pairs(pv, list@, 0),
        decreases params@.len() - i,
    {
        let ghost pre = pair_views_of(out@);
        if param_included(list, &params[i].0) {
            let name = crate::hash_tree::clone_bytes(&params[i].0);
            let value = crate::hash_tree::clone_bytes(&params[i].1);
            out.push((name, value));
            proof {
                assert(pair_views_of(out@) =~~= pre.push(pv[i as int]));
                assert(pre.push(pv[i as int]) + spec_certified_query_pairs(pv, list@, i + 1) =~~= pre
                    + spec_certified_query_pairs(pv, list@, i as int));
            }
        } else {
            proof {
                assert(spec_certified_query_pairs(pv, list@, i + 1) == spec_certified_query_pairs(
                    pv,
                    list@,
                    i as int,
                ));
            }
        }
        i += 1;
    }
    proof {
        assert(spec_certified_query_pairs(pv, list@, params@.len() as int).len() == 0);
        assert(pair_views_of(out@) + spec_certified_query_pairs(pv, list@, params@.len() as int)
            =~~= pair_views_of(out@));
    }
    out
}

/// The field name under which a request's method is hashed,
/// `:ic-cert-method` in ASCII.
pub open spec fn method_field_key() -> Seq<u8> {
    seq![58u8, 105, 99, 45, 99, 101, 114, 116, 45, 109, 101, 116, 104, 111, 100]
}

/// The representation-independent request hash under a certification
/// scope: the allow-listed headers (names lowered), the method, and the
/// allow-listed query parameters; nothing when the URL does not parse.
pub open spec fn spec_request_hash(
    req: crate::types::Request,
    scope: crate::types::RequestCertification,
) -> Option<Seq<u8>> {
    match crate::uri::uri_parts_of(req.url@) {
        None => None,
        Some(pq) => {
            let hp = spec_certified_header_pairs(req.headers@, scope.certified_request_headers@, 0);
            let mp = seq![(method_field_key(), encode_utf8(req.method@))];
            let qp = if scope.certified_query_parameters@.len() > 0 {
                spec_certified_query_pairs(
                    spec_query_params(encode_utf8(pq.1), 0),
                    scope.certified_query_parameters@,
                    0,
                )
            } else {
                Seq::empty()
            };
            Some(spec_hash_map(hp + mp + qp))
        },
    }
}

/// Hashes the request fields a certification scope covers; fields the
/// scope does not designate are left out entirely. Fails exactly when the
/// request URL does not parse.
pub fn request_hash(
    req: &crate::types::Request,
    scope: &crate::types::RequestCertification,
) -> (r: Option<Vec<u8>>)
    ensures
        match r {
            Some(h) => spec_request_hash(*req, *scope) == Some(h@) && h@.len() == 32,
            None => spec_request_hash(*req, *scope) is None,
        },
{
    let (_path, query) = match crate::uri::split_url(req.url.as_str()) {
        Some(pq) => pq,
        None => {
            return None;
        },
    };
    let mut pairs = certified_header_pairs(&req.headers, &scope.certified_request_headers);
    let ghost hp = pair_views_of(pairs@);
    let method_key: Vec<u8> = vec![58u8, 105, 99, 45, 99, 101, 114, 116, 45, 109, 101, 116, 104,
        111, 100];
    assert(method_key@ =~= method_field_key());
    let method_bytes = str_bytes(&req.method);
    pairs.push((method_key, method_bytes));
    proof {
        assert(pair_views_of(pairs@) =~~= hp + seq![
            (method_field_key(), encode_utf8(req.method@)),
        ]);
    }
    let ghost hm = pair_views_of(pairs@);
    if scope.certified_query_parameters.len() > 0 {
        let qbytes = str_bytes(&query);
        let params = query_params(&qbytes, 0);
        let mut kept = certified_query_pairs(params, &scope.certified_query_parameters);
        let ghost keptv = pair_views_of(kept@);
        pairs.append(&mut kept);
        proof {
            assert(pair_views_of(pairs@) =~~= hm + keptv);
        }
    } else {
        proof {
            assert(pair_views_of(pairs@) =~~= hm + Seq::<(Seq<u8>, Seq<u8>)>::empty());
        }
    }
    Some(hash_map(&pairs))
}

/// The representation-independent hash of the response headers a
/// certification scope covers.
pub open spec fn spec_response_headers_hash(
    resp: crate::types::Response,
    scope: crate::types::ResponseCertification,
) -> Seq<u8> {
    spec_hash_map(
        spec_certified_header_pairs(resp.headers@, scope.certified_response_headers@, 0),
    )
}

/// Hashes the response headers a certification scope covers; headers the
/// scope does not designate are left out entirely.
pub fn response_headers_hash(
    resp: &crate::types::Response,
    scope: &crate::types::ResponseCertification,
) -> (r: Vec<u8>)
    ensures
        r@ == spec_response_headers_hash(*resp, *scope),
        r@.len() == 32,
{
    let pairs = certified_header_pairs(&resp.headers, &scope.certified_response_headers);
    hash_map(&pairs)
}

/// Hashes a list of values: per-element hashes concatenated in order, then
/// hashed.
pub fn hash_array(values: &Vec<Vec<u8>>) -> (r: Vec<u8>)
    ensures
        r@ == spec_hash_array(views_of(values@)),
        r@.len() == 32,
{
    let ghost hv = Seq::new(views_of(values@).len(), |i: int| sha256_of(views_of(values@)[i]));
    let mut buf: Vec<u8> = Vec::new();
    let mut i: usize = 0;
    proof {
        assert(hv.take(0) =~~= Seq::<Seq<u8>>::empty());
    }
    while i < values.len()
        invariant
            i <= values@.len(),
            hv == Seq::new(views_of(values@).len(), |k: int| sha256_of(views_of(values@)[k])),
            buf@ == spec_concat(hv.take(i as int)),
        decreases values@.len() - i,
    {
        proof {
            lemma_concat_push(hv.take(i as int), hv[i as int]);
            assert(hv.take(i as int).push(hv[i as int]) =~~= hv.take(i + 1));
        }
        let eh = hash(values[i].as_slice());
        crate::hash_tree::append_bytes(&mut buf, &eh);
        i += 1;
    }
    proof {
        assert(hv.take(values@.len() as int) =~~= hv);
    }
    hash(buf.as_slice())
}

} // verus!
