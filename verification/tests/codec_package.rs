use colabri_doc::codec::head::{read_head, write_head};
use colabri_doc::codec::item::{skip_item, MAX_NESTING};
use colabri_doc::codec::package::{
    decode_package, encode_package, ColabPackage, DecodeError, ExtraField,
};
use std::collections::{BTreeMap, HashMap};

fn package(snapshot: &[u8], peers: &[(u64, &str)]) -> ColabPackage {
    let mut peer_map = HashMap::new();
    for (p, who) in peers {
        peer_map.insert(*p, who.to_string());
    }
    ColabPackage::new(snapshot.to_vec(), peer_map)
}

#[test]
fn heads_are_the_shortest_form() {
    let cases: [(u8, u64, Vec<u8>); 7] = [
        (0, 0, vec![0x00]),
        (0, 23, vec![0x17]),
        (0, 24, vec![0x18, 24]),
        (2, 255, vec![0x58, 0xff]),
        (3, 256, vec![0x79, 0x01, 0x00]),
        (5, 65536, vec![0xba, 0x00, 0x01, 0x00, 0x00]),
        (0, u64::MAX, vec![0x1b, 0xff, 0xff, 0xff, 0xff, 0xff, 0xff, 0xff, 0xff]),
    ];
    for (major, arg, bytes) in cases {
        let mut out = Vec::new();
        write_head(&mut out, major, arg);
        assert_eq!(out, bytes);
        assert_eq!(read_head(&out, 0), Some((major, arg, bytes.len())));
    }
    assert_eq!(read_head(&[0x18], 0), None);
    assert_eq!(read_head(&[0x1f], 0), None);
    assert_eq!(read_head(&[], 0), None);
}

#[test]
fn empty_package_bytes() {
    let blob = encode_package(&package(&[], &[]));
    let mut want = vec![0xa2, 0x68];
    want.extend_from_slice(b"snapshot");
    want.push(0x40);
    want.push(0x68);
    want.extend_from_slice(b"peer_map");
    want.push(0xa0);
    assert_eq!(blob, want);
}

#[test]
fn decode_undoes_encode() {
    let long: String = std::iter::repeat('x').take(300).collect();
    let cases = vec![
        package(&[], &[]),
        package(&[1, 2, 3], &[(7, "o1/u/a")]),
        package(&[0u8; 70000], &[(0, ""), (u64::MAX, "s/colabri-doc"), (24, "é"), (256, &long)]),
    ];
    for p in cases {
        let blob = encode_package(&p);
        let back = decode_package(&blob).unwrap();
        assert_eq!(back.snapshot, p.snapshot);
        assert_eq!(back.peer_map, p.peer_map);
    }
}

#[test]
fn blob_is_cbor_as_serde_cbor_reads_it() {
    let p = package(&[9, 8, 7], &[(7, "o1/u/a"), (300, "s/colabri-doc")]);
    let blob = encode_package(&p);
    let value: serde_cbor::Value = serde_cbor::from_slice(&blob).unwrap();
    let mut peers = BTreeMap::new();
    peers.insert(serde_cbor::Value::Integer(7), serde_cbor::Value::Text("o1/u/a".to_string()));
    peers.insert(
        serde_cbor::Value::Integer(300),
        serde_cbor::Value::Text("s/colabri-doc".to_string()),
    );
    let mut top = BTreeMap::new();
    top.insert(
        serde_cbor::Value::Text("snapshot".to_string()),
        serde_cbor::Value::Bytes(vec![9, 8, 7]),
    );
    top.insert(serde_cbor::Value::Text("peer_map".to_string()), serde_cbor::Value::Map(peers));
    assert_eq!(value, serde_cbor::Value::Map(top));
}

#[test]
fn decodes_what_serde_cbor_writes() {
    // keys in the other order, the snapshot as an array of integers
    let mut peers = BTreeMap::new();
    peers.insert(serde_cbor::Value::Integer(5), serde_cbor::Value::Text("p".to_string()));
    let mut top = BTreeMap::new();
    top.insert(
        serde_cbor::Value::Text("snapshot".to_string()),
        serde_cbor::Value::Array(vec![
            serde_cbor::Value::Integer(1),
            serde_cbor::Value::Integer(200),
            serde_cbor::Value::Integer(0),
        ]),
    );
    top.insert(serde_cbor::Value::Text("peer_map".to_string()), serde_cbor::Value::Map(peers));
    let bytes = serde_cbor::to_vec(&serde_cbor::Value::Map(top)).unwrap();
    let p = decode_package(&bytes).unwrap();
    assert_eq!(p.snapshot, vec![1, 200, 0]);
    assert_eq!(p.peer_map.len(), 1);
    assert_eq!(p.peer_map[&5], "p");
}

#[test]
fn malformed_blobs_are_refused() {
    let good = encode_package(&package(&[1], &[(1, "a")]));
    let mut trailing = good.clone();
    trailing.push(0);
    let mut cut = good.clone();
    cut.pop();
    let mut three = good.clone();
    three[0] = 0xa3;
    let mut one = vec![0xa1, 0x68];
    one.extend_from_slice(b"snapshot");
    one.push(0x40);
    let mut twice = vec![0xa3, 0x68];
    twice.extend_from_slice(b"snapshot");
    twice.push(0x40);
    twice.push(0x68);
    twice.extend_from_slice(b"peer_map");
    twice.push(0xa0);
    twice.push(0x68);
    twice.extend_from_slice(b"snapshot");
    twice.push(0x40);
    let cases: Vec<Vec<u8>> =
        vec![vec![], vec![0xa0], vec![0x00], trailing, cut, three, one, twice];
    for c in cases {
        assert_eq!(decode_package(&c).unwrap_err(), DecodeError::Malformed);
    }
    // an array element above 255 is no byte
    let mut top = BTreeMap::new();
    top.insert(
        serde_cbor::Value::Text("snapshot".to_string()),
        serde_cbor::Value::Array(vec![serde_cbor::Value::Integer(256)]),
    );
    top.insert(
        serde_cbor::Value::Text("peer_map".to_string()),
        serde_cbor::Value::Map(BTreeMap::new()),
    );
    let bytes = serde_cbor::to_vec(&serde_cbor::Value::Map(top)).unwrap();
    assert!(decode_package(&bytes).is_err());
}

#[test]
fn a_later_binding_replaces_an_earlier_one() {
    let mut b = vec![0xa2, 0x68];
    b.extend_from_slice(b"peer_map");
    b.extend_from_slice(&[0xa2, 0x01, 0x61, b'a', 0x01, 0x61, b'b']);
    b.push(0x68);
    b.extend_from_slice(b"snapshot");
    b.push(0x40);
    let p = decode_package(&b).unwrap();
    assert_eq!(p.peer_map.len(), 1);
    assert_eq!(p.peer_map[&1], "b");
}

fn text(s: &str) -> serde_cbor::Value {
    serde_cbor::Value::Text(s.to_string())
}

fn with_unknown(extra: Vec<(&str, serde_cbor::Value)>) -> Vec<u8> {
    let mut peers = BTreeMap::new();
    peers.insert(serde_cbor::Value::Integer(5), text("p"));
    let mut top = BTreeMap::new();
    top.insert(text("snapshot"), serde_cbor::Value::Bytes(vec![1, 2]));
    top.insert(text("peer_map"), serde_cbor::Value::Map(peers));
    for (k, v) in extra {
        top.insert(text(k), v);
    }
    serde_cbor::to_vec(&serde_cbor::Value::Map(top)).unwrap()
}

#[test]
fn unknown_fields_are_kept() {
    let mut inner = BTreeMap::new();
    inner.insert(text("a"), serde_cbor::Value::Array(vec![serde_cbor::Value::Integer(-7)]));
    inner.insert(serde_cbor::Value::Integer(1), serde_cbor::Value::Bool(true));
    let nested = serde_cbor::Value::Map(inner);
    let tagged = serde_cbor::Value::Tag(42, Box::new(text("t")));
    let blob = with_unknown(vec![
        ("zzz_future", nested.clone()),
        ("n", serde_cbor::Value::Null),
        ("tag", tagged.clone()),
        ("b", serde_cbor::Value::Bytes(vec![0; 300])),
    ]);
    let pkg = decode_package(&blob).unwrap();
    assert_eq!(pkg.snapshot, vec![1, 2]);
    assert_eq!(pkg.peer_map[&5], "p");
    assert_eq!(pkg.extra.len(), 4);
    assert!(pkg.has_sound_extras());
    let find = |k: &str| pkg.extra.iter().find(|e| e.key == k).unwrap().value.clone();
    assert_eq!(find("zzz_future"), serde_cbor::to_vec(&nested).unwrap());
    assert_eq!(find("n"), vec![0xf6]);
    assert_eq!(find("tag"), serde_cbor::to_vec(&tagged).unwrap());
    // written again, the fields are still there, for this crate and for others
    let again = encode_package(&pkg);
    let back = decode_package(&again).unwrap();
    assert_eq!(back.snapshot, pkg.snapshot);
    assert_eq!(back.peer_map, pkg.peer_map);
    assert_eq!(back.extra.len(), 4);
    for (a, b) in back.extra.iter().zip(pkg.extra.iter()) {
        assert_eq!(a.key, b.key);
        assert_eq!(a.value, b.value);
    }
    let seen: serde_cbor::Value = serde_cbor::from_slice(&again).unwrap();
    let original: serde_cbor::Value = serde_cbor::from_slice(&blob).unwrap();
    assert_eq!(seen, original);
}

#[test]
fn whole_items_only() {
    assert_eq!(skip_item(&[0x00], 0, MAX_NESTING), Some(1));
    assert_eq!(skip_item(&[0x38, 0x63], 0, MAX_NESTING), Some(2));
    assert_eq!(skip_item(&[0x62, b'a', b'b', 0xff], 0, MAX_NESTING), Some(3));
    assert_eq!(skip_item(&[0x62, b'a'], 0, MAX_NESTING), None);
    assert_eq!(skip_item(&[0x82, 0x01, 0x81, 0x02], 0, MAX_NESTING), Some(4));
    assert_eq!(skip_item(&[0xa1, 0x01, 0x02], 0, MAX_NESTING), Some(3));
    assert_eq!(skip_item(&[0xa1, 0x01], 0, MAX_NESTING), None);
    assert_eq!(skip_item(&[0xc1, 0x1a, 0, 0, 0, 1], 0, MAX_NESTING), Some(6));
    // a number of eight bytes, a simple value in one byte
    assert_eq!(skip_item(&[0xfb, 0, 0, 0, 0, 0, 0, 0, 0], 0, MAX_NESTING), Some(9));
    assert_eq!(skip_item(&[0xf8, 0xff], 0, MAX_NESTING), Some(2));
    // lengths that are not definite are not read
    assert_eq!(skip_item(&[0x9f, 0x01, 0xff], 0, MAX_NESTING), None);
    assert_eq!(skip_item(&[0xff], 0, MAX_NESTING), None);
    // nesting is bounded
    let mut deep = vec![0x81u8; 128];
    deep.push(0x00);
    assert_eq!(skip_item(&deep, 0, MAX_NESTING), Some(129));
    let mut deeper = vec![0x81u8; 129];
    deeper.push(0x00);
    assert_eq!(skip_item(&deeper, 0, MAX_NESTING), None);
    assert_eq!(skip_item(&[0x81, 0x00], 0, 0), None);
}

#[test]
fn unsound_extras_are_told() {
    let mut p = package(&[1], &[(1, "a")]);
    assert!(p.has_sound_extras());
    p.extra.push(ExtraField { key: "k".to_string(), value: vec![0x01] });
    assert!(p.has_sound_extras());
    assert!(decode_package(&encode_package(&p)).is_ok());
    p.extra.push(ExtraField { key: "cut".to_string(), value: vec![0x62, b'a'] });
    assert!(!p.has_sound_extras());
    p.extra.pop();
    p.extra.push(ExtraField { key: "two".to_string(), value: vec![0x01, 0x02] });
    assert!(!p.has_sound_extras());
    p.extra.pop();
    p.extra.push(ExtraField { key: "snapshot".to_string(), value: vec![0x40] });
    assert!(!p.has_sound_extras());
    assert!(decode_package(&encode_package(&p)).is_err());
}
