use eth_gateway::codec::decode_bytes;
use eth_gateway::codec::encode_bytes;
use eth_gateway::u256::U256;

#[test]
fn hex_encode_empty() {
    assert_eq!(encode_bytes(&Vec::new()), b"0x".to_vec());
}

#[test]
fn hex_encode_bytes_exact() {
    assert_eq!(encode_bytes(&vec![0xde, 0xad, 0xbe, 0xef]), b"0xdeadbeef".to_vec());
    assert_eq!(encode_bytes(&vec![0x00, 0x01, 0x0a]), b"0x00010a".to_vec());
}

#[test]
fn hex_decode_bytes_exact() {
    assert_eq!(decode_bytes(&b"0xdeadbeef".to_vec()), Some(vec![0xde, 0xad, 0xbe, 0xef]));
    assert_eq!(decode_bytes(&b"0x".to_vec()), Some(Vec::new()));
}

#[test]
fn hex_decode_accepts_upper_case() {
    assert_eq!(decode_bytes(&b"0xDEadBEef".to_vec()), Some(vec![0xde, 0xad, 0xbe, 0xef]));
}

#[test]
fn hex_decode_rejects_bad_text() {
    // no prefix
    assert_eq!(decode_bytes(&b"deadbeef".to_vec()), None);
    // odd number of digits
    assert_eq!(decode_bytes(&b"0xabc".to_vec()), None);
    // a byte that is no hex digit
    assert_eq!(decode_bytes(&b"0xzz".to_vec()), None);
    // empty text
    assert_eq!(decode_bytes(&Vec::new()), None);
}

#[test]
fn hex_round_trip_bytes() {
    let cases: Vec<Vec<u8>> = vec![
        Vec::new(),
        vec![0x00],
        vec![0xff],
        vec![0x12, 0x34, 0x56, 0x78, 0x9a, 0xbc, 0xde, 0xf0],
    ];
    for bytes in cases {
        let text = encode_bytes(&bytes);
        assert_eq!(decode_bytes(&text), Some(bytes));
    }
}

#[test]
fn quantity_encode_zero() {
    assert_eq!(U256::zero().encode_quantity(), b"0x0".to_vec());
}

#[test]
fn quantity_encode_exact() {
    assert_eq!(U256::from_u128(1000).encode_quantity(), b"0x3e8".to_vec());
    assert_eq!(U256::from_u128(0x10).encode_quantity(), b"0x10".to_vec());
    assert_eq!(U256::from_u128(15).encode_quantity(), b"0xf".to_vec());
}

#[test]
fn quantity_encode_max() {
    let mut expected = b"0x".to_vec();
    expected.extend(std::iter::repeat(b'f').take(64));
    assert_eq!(U256::max_value().encode_quantity(), expected);
}

#[test]
fn quantity_decode_exact() {
    let u = U256::decode_quantity(&b"0x3e8".to_vec()).unwrap();
    assert!(u.equals(&U256::from_u128(1000)));
    // leading zero digits are tolerated on the way in
    let v = U256::decode_quantity(&b"0x03e8".to_vec()).unwrap();
    assert!(v.equals(&U256::from_u128(1000)));
}

#[test]
fn quantity_decode_rejects_bad_text() {
    // no digits at all
    assert_eq!(U256::decode_quantity(&b"0x".to_vec()), None);
    // more than 64 digits
    let mut too_long = b"0x".to_vec();
    too_long.extend(std::iter::repeat(b'1').take(65));
    assert_eq!(U256::decode_quantity(&too_long), None);
    // a byte that is no hex digit
    assert_eq!(U256::decode_quantity(&b"0x12g4".to_vec()), None);
    // no prefix
    assert_eq!(U256::decode_quantity(&b"3e8".to_vec()), None);
}

#[test]
fn quantity_round_trip_zero_and_max() {
    for u in [U256::zero(), U256::max_value()] {
        let text = u.encode_quantity();
        let back = U256::decode_quantity(&text).unwrap();
        assert!(back.equals(&u));
    }
}

#[test]
fn quantity_round_trip_values() {
    for v in [1u128, 2, 255, 256, 1000, 0xdead_beef, u128::MAX] {
        let u = U256::from_u128(v);
        let back = U256::decode_quantity(&u.encode_quantity()).unwrap();
        assert!(back.equals(&u));
    }
}

#[test]
fn u256_from_and_back() {
    assert_eq!(U256::from_u128(5_000_000_000_000).try_to_u64(), Some(5_000_000_000_000));
    assert_eq!(U256::from_u64(0).try_to_u64(), Some(0));
    assert_eq!(U256::from_u64(u64::MAX).try_to_u64(), Some(u64::MAX));
    // one past u64
    assert_eq!(U256::from_u128(u64::MAX as u128 + 1).try_to_u64(), None);
    assert_eq!(U256::max_value().try_to_u64(), None);
}

#[test]
fn u256_be_bytes_round_trip() {
    let u = U256::from_u128(0x0102_0304_0506_0708);
    let bytes = u.to_be_bytes();
    assert_eq!(bytes.len(), 32);
    assert_eq!(bytes[31], 0x08);
    assert_eq!(bytes[24], 0x01);
    let back = U256::from_be_bytes(bytes);
    assert!(back.equals(&u));
}
