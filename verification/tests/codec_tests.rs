//! The boundary encodings: exact byte layouts, strict decoding, and
//! round trips for content identifiers, addresses and event records.

use fvm::codec::decode_address;
use fvm::codec::decode_cid;
use fvm::codec::decode_event;
use fvm::codec::encode_address;
use fvm::codec::encode_cid;
use fvm::codec::encode_event;
use fvm::types::Address;
use fvm::types::CidBuf;
use fvm::types::EventRecord;

#[test]
fn cid_encoding_exact_bytes() {
    let cid = CidBuf { codec: 0x55, hash_code: 0x12, digest: vec![0xaa, 0xbb] };
    let enc = encode_cid(&cid);
    let mut expected = 1u64.to_le_bytes().to_vec();
    expected.extend_from_slice(&0x55u64.to_le_bytes());
    expected.extend_from_slice(&0x12u64.to_le_bytes());
    expected.extend_from_slice(&2u64.to_le_bytes());
    expected.extend_from_slice(&[0xaa, 0xbb]);
    assert_eq!(enc, expected);
}

#[test]
fn cid_round_trip_at_offset() {
    let cid = CidBuf { codec: 0x71, hash_code: 0xb220, digest: (0..32).collect() };
    let mut buf = vec![0xff, 0xfe];
    buf.extend_from_slice(&encode_cid(&cid));
    buf.push(0x99);
    let (got, used) = decode_cid(&buf, 2).unwrap();
    assert_eq!(used, 32 + 32);
    assert_eq!(got.codec, cid.codec);
    assert_eq!(got.hash_code, cid.hash_code);
    assert_eq!(got.digest, cid.digest);
}

#[test]
fn cid_decode_rejects_malformed() {
    // Too short for the header.
    assert!(decode_cid(&vec![0u8; 10], 0).is_none());
    // Wrong version tag.
    let cid = CidBuf { codec: 0x55, hash_code: 0x12, digest: vec![1] };
    let mut enc = encode_cid(&cid);
    enc[0] = 2;
    assert!(decode_cid(&enc, 0).is_none());
    // Digest length running past the end.
    let mut enc2 = encode_cid(&cid);
    enc2[24] = 200;
    assert!(decode_cid(&enc2, 0).is_none());
    // Oversized digest length.
    let mut enc3 = encode_cid(&cid);
    enc3[24] = 65;
    assert!(decode_cid(&enc3, 0).is_none());
}

#[test]
fn address_encoding_exact_bytes() {
    let id = Address::Id(0x0102);
    let enc = encode_address(&id);
    let mut expected = vec![0u8];
    expected.extend_from_slice(&0x0102u64.to_le_bytes());
    assert_eq!(enc, expected);

    let key = Address::Key { protocol: 1, payload: vec![7, 8, 9] };
    let enc2 = encode_address(&key);
    assert_eq!(enc2, vec![1, 3, 7, 8, 9]);
}

#[test]
fn address_round_trip() {
    let key = Address::Key { protocol: 3, payload: vec![0; 48] };
    let enc = encode_address(&key);
    let (got, used) = decode_address(&enc, 0).unwrap();
    assert_eq!(used, enc.len());
    match got {
        Address::Key { protocol, payload } => {
            assert_eq!(protocol, 3);
            assert_eq!(payload, vec![0; 48]);
        },
        _ => panic!("expected a key address"),
    }
    let id = Address::Id(u64::MAX);
    let (got2, used2) = decode_address(&encode_address(&id), 0).unwrap();
    assert_eq!(used2, 9);
    assert!(matches!(got2, Address::Id(u64::MAX)));
}

#[test]
fn address_decode_rejects_malformed() {
    // Unknown protocol byte.
    assert!(decode_address(&vec![9, 1, 1], 0).is_none());
    // ID address cut short.
    assert!(decode_address(&vec![0, 1, 2], 0).is_none());
    // Payload length past the end.
    assert!(decode_address(&vec![1, 5, 1, 2], 0).is_none());
    // Payload length over the maximum.
    let mut long = vec![1, 64];
    long.extend_from_slice(&[0; 64]);
    assert!(decode_address(&long, 0).is_none());
}

#[test]
fn event_encoding_exact_bytes_and_round_trip() {
    let evt = EventRecord { flags: 3, key: vec![b'k', b'v'], value: vec![9] };
    let enc = encode_event(&evt);
    let mut expected = 3u64.to_le_bytes().to_vec();
    expected.extend_from_slice(&2u64.to_le_bytes());
    expected.extend_from_slice(&[b'k', b'v']);
    expected.extend_from_slice(&1u64.to_le_bytes());
    expected.extend_from_slice(&[9]);
    assert_eq!(enc, expected);

    let (got, used) = decode_event(&enc, 0).unwrap();
    assert_eq!(used, enc.len());
    assert_eq!(got.flags, 3);
    assert_eq!(got.key, vec![b'k', b'v']);
    assert_eq!(got.value, vec![9]);
}

#[test]
fn event_decode_rejects_malformed() {
    // Too short.
    assert!(decode_event(&vec![0u8; 10], 0).is_none());
    // Unknown flag bits.
    let evt = EventRecord { flags: 4, key: vec![], value: vec![] };
    let enc = encode_event(&evt);
    assert!(decode_event(&enc, 0).is_none());
    // Key length running past the end.
    let evt2 = EventRecord { flags: 0, key: vec![1], value: vec![] };
    let mut enc2 = encode_event(&evt2);
    enc2[8] = 200;
    assert!(decode_event(&enc2, 0).is_none());
}
