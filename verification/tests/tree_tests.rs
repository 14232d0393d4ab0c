use ic_response_verification::cbor::parse_cbor;
use ic_response_verification::certificate::decode_leb128;
use ic_response_verification::hash::hash;
use ic_response_verification::hash::hash_array;
use ic_response_verification::hash::hash_map;
use ic_response_verification::hash_tree::HashTree;
use ic_response_verification::hash_tree::LookupResult;
use ic_response_verification::hash_tree::digest;
use ic_response_verification::hash_tree::lookup_path;
use ic_response_verification::hash_tree::tree_from_cbor;

fn label(l: &[u8], t: HashTree) -> HashTree {
    HashTree::Labelled(l.to_vec(), Box::new(t))
}

fn fork(l: HashTree, r: HashTree) -> HashTree {
    HashTree::Fork(Box::new(l), Box::new(r))
}

fn leaf(b: &[u8]) -> HashTree {
    HashTree::Leaf(b.to_vec())
}

#[test]
fn sha256_wrapper_matches_known_digest() {
    let expected = hex::decode("7f83b1657ff1fc53b92dc18148a1d65dfc2d4b1fa3d677284addd200126d9069")
        .unwrap();
    assert_eq!(hash(b"Hello World!"), expected);
}

#[test]
fn digest_matches_ic_certification_crate() {
    let mine = fork(
        label(b"a", leaf(b"x")),
        fork(label(b"b", leaf(b"y")), HashTree::Empty),
    );
    let theirs: ic_certification::HashTree = ic_certification::fork(
        ic_certification::label("a", ic_certification::leaf(b"x".to_vec())),
        ic_certification::fork(
            ic_certification::label("b", ic_certification::leaf(b"y".to_vec())),
            ic_certification::empty(),
        ),
    );
    assert_eq!(digest(&mine), theirs.digest().to_vec());
}

#[test]
fn digest_is_stable_across_calls() {
    let t = fork(label(b"a", leaf(b"x")), label(b"b", leaf(b"y")));
    assert_eq!(digest(&t), digest(&t));
}

#[test]
fn pruning_a_subtree_keeps_the_digest() {
    let left = label(b"a", leaf(b"x"));
    let right = label(b"b", leaf(b"y"));
    let whole = fork(left, right);
    let left_digest = digest(&label(b"a", leaf(b"x")));
    let pruned = fork(HashTree::Pruned(left_digest), label(b"b", leaf(b"y")));
    assert_eq!(digest(&whole), digest(&pruned));
}

#[test]
fn tree_decodes_from_cbor() {
    // [2, "a", [3, "x"]]: a labelled node over a leaf
    let bytes = hex::decode("8302416182034178").unwrap();
    let v = parse_cbor(bytes.as_slice()).unwrap();
    let t = tree_from_cbor(&v).unwrap();
    assert_eq!(t, label(b"a", leaf(b"x")));
}

#[test]
fn tree_rejects_bad_shapes() {
    // a pruned node whose digest is not 32 bytes
    let v = parse_cbor(hex::decode("82044102").unwrap().as_slice()).unwrap();
    assert!(tree_from_cbor(&v).is_err());
    // an array opening with an ordinary integer instead of a tag
    let v = parse_cbor(hex::decode("8107").unwrap().as_slice()).unwrap();
    assert!(tree_from_cbor(&v).is_err());
    // a bare integer is no tree
    let v = parse_cbor(&[0x07]).unwrap();
    assert!(tree_from_cbor(&v).is_err());
}

#[test]
fn lookup_finds_absent_unknown_and_error() {
    let t = fork(
        label(b"a", leaf(b"x")),
        fork(
            label(b"c", HashTree::Pruned(vec![0u8; 32])),
            label(b"d", leaf(b"z")),
        ),
    );
    assert_eq!(
        lookup_path(&t, &vec![b"a".to_vec()]),
        LookupResult::Found(b"x".to_vec())
    );
    // "b" falls between present labels: absent
    assert_eq!(lookup_path(&t, &vec![b"b".to_vec()]), LookupResult::Absent);
    // below "c" only a pruned node remains: unknown
    assert_eq!(
        lookup_path(&t, &vec![b"c".to_vec(), b"q".to_vec()]),
        LookupResult::Unknown
    );
    // a leaf with remaining path is an error at that node
    assert_eq!(
        lookup_path(&t, &Vec::<Vec<u8>>::new()),
        LookupResult::Error
    );
}

#[test]
fn lookup_descends_through_labels() {
    let t = label(b"outer", label(b"inner", leaf(b"v")));
    assert_eq!(
        lookup_path(&t, &vec![b"outer".to_vec(), b"inner".to_vec()]),
        LookupResult::Found(b"v".to_vec())
    );
    assert_eq!(
        lookup_path(&t, &vec![b"outer".to_vec(), b"other".to_vec()]),
        LookupResult::Absent
    );
}

#[test]
fn hash_map_matches_ic_hash_crate() {
    let pairs: Vec<(Vec<u8>, Vec<u8>)> = vec![
        (b"name".to_vec(), b"foo".to_vec()),
        (b"message".to_vec(), b"Hello World!".to_vec()),
    ];
    let expected = ic_representation_independent_hash::representation_independent_hash(&[
        (
            "name".to_string(),
            ic_representation_independent_hash::Value::String("foo".to_string()),
        ),
        (
            "message".to_string(),
            ic_representation_independent_hash::Value::String("Hello World!".to_string()),
        ),
    ]);
    assert_eq!(hash_map(&pairs), expected.to_vec());
}

#[test]
fn hash_map_is_order_independent() {
    let a: Vec<(Vec<u8>, Vec<u8>)> = vec![
        (b"x".to_vec(), b"1".to_vec()),
        (b"y".to_vec(), b"2".to_vec()),
    ];
    let b: Vec<(Vec<u8>, Vec<u8>)> = vec![
        (b"y".to_vec(), b"2".to_vec()),
        (b"x".to_vec(), b"1".to_vec()),
    ];
    assert_eq!(hash_map(&a), hash_map(&b));
}

#[test]
fn hash_array_concatenates_element_hashes() {
    let values = vec![b"a".to_vec(), b"b".to_vec()];
    let mut concat = hash(b"a");
    concat.extend_from_slice(&hash(b"b"));
    assert_eq!(hash_array(&values), hash(&concat));
}

#[test]
fn leb128_decodes_the_classic_example() {
    assert_eq!(decode_leb128(&vec![0xE5, 0x8E, 0x26]), Some(624485));
    assert_eq!(decode_leb128(&vec![0x00]), Some(0));
    assert_eq!(decode_leb128(&vec![0x05]), Some(5));
    // incomplete: the last byte still asks for continuation
    assert_eq!(decode_leb128(&vec![0x85]), None);
    assert_eq!(decode_leb128(&Vec::new()), None);
    // trailing bytes after the terminating byte
    assert_eq!(decode_leb128(&vec![0x05, 0x05]), None);
}

#[test]
fn decodes_sixteen_bit_lengths() {
    // major type 2 with a two-byte length prefix
    let bytes = vec![0x59u8, 0x00, 0x03, 0x61, 0x62, 0x63];
    assert_eq!(
        parse_cbor(&bytes).unwrap(),
        ic_response_verification::CborValue::ByteString(b"abc".to_vec())
    );
}
