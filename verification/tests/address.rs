use eth_gateway::address::account_address;
use eth_gateway::address::contract_address;
use eth_gateway::facade::read_address_text;

#[test]
fn account_address_of_empty_key() {
    // The last 20 bytes of the Keccak-256 digest of the empty string.
    let a = account_address(&Vec::new());
    let expected = read_address_text(&b"0xdcc703c0e500b653ca82273b7bfad8045d85a470".to_vec())
        .unwrap();
    assert_eq!(a, expected);
}

#[test]
fn account_address_deterministic() {
    let key = b"some public key material".to_vec();
    assert_eq!(account_address(&key), account_address(&key));
}

#[test]
fn contract_address_deterministic() {
    let sender = read_address_text(&b"0x9000000000000000000000000000000000000001".to_vec())
        .unwrap();
    let first = contract_address(&sender, 7);
    let second = contract_address(&sender, 7);
    assert!(first.equals(&second));
    assert_eq!(first, second);
}

#[test]
fn contract_address_standard_vectors() {
    // The widely published example of the creation rule.
    let sender = read_address_text(&b"0x6ac7ea33f8831ea9dcc53393aaa88b25a785dbf0".to_vec())
        .unwrap();
    let at_nonce_zero = read_address_text(
        &b"0xcd234a471b72ba2f1ccf0a70fcaba648a5eecd8d".to_vec(),
    ).unwrap();
    let at_nonce_one = read_address_text(
        &b"0x343c43a37d37dff08ae8c4a11544c718abb4fcf8".to_vec(),
    ).unwrap();
    assert_eq!(contract_address(&sender, 0), at_nonce_zero);
    assert_eq!(contract_address(&sender, 1), at_nonce_one);
}

#[test]
fn contract_address_depends_on_both_inputs() {
    let sender = read_address_text(&b"0x6ac7ea33f8831ea9dcc53393aaa88b25a785dbf0".to_vec())
        .unwrap();
    let other = read_address_text(&b"0x6ac7ea33f8831ea9dcc53393aaa88b25a785dbf1".to_vec())
        .unwrap();
    assert_ne!(contract_address(&sender, 0), contract_address(&sender, 1));
    assert_ne!(contract_address(&sender, 0), contract_address(&other, 0));
}
