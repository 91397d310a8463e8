use eth_gateway::error::GatewayError;
use eth_gateway::facade::balance_query_params;
use eth_gateway::facade::read_address_text;
use eth_gateway::facade::read_hash_reply;
use eth_gateway::facade::read_quantity_reply;
use eth_gateway::facade::receipt_query_param;
use eth_gateway::facade::submit_transaction_param;
use eth_gateway::facade::transaction_count_query_params;
use eth_gateway::facade::BlockTag;
use eth_gateway::facade::TransactionRequest;
use eth_gateway::receipt::TxHash;
use eth_gateway::u256::U256;

#[test]
fn facade_block_tag_texts() {
    assert_eq!(BlockTag::Earliest.to_text(), b"earliest".to_vec());
    assert_eq!(BlockTag::Latest.to_text(), b"latest".to_vec());
    assert_eq!(BlockTag::Pending.to_text(), b"pending".to_vec());
    assert_eq!(BlockTag::Number(U256::from_u64(255)).to_text(), b"0xff".to_vec());
}

#[test]
fn facade_balance_query_wire_texts() {
    let addr = read_address_text(&b"0x9621dde636de098b43efb0fa9b61facfe328f99d".to_vec())
        .unwrap();
    let (addr_text, tag_text) = balance_query_params(&addr, &BlockTag::Latest);
    assert_eq!(addr_text, b"0x9621dde636de098b43efb0fa9b61facfe328f99d".to_vec());
    assert_eq!(tag_text, b"latest".to_vec());
    let (addr_text2, tag_text2) = transaction_count_query_params(&addr, &BlockTag::Earliest);
    assert_eq!(addr_text2, addr_text);
    assert_eq!(tag_text2, b"earliest".to_vec());
}

#[test]
fn facade_submission_params() {
    let payload = vec![0x01, 0x02, 0xff];
    assert_eq!(submit_transaction_param(&payload), b"0x0102ff".to_vec());
    let hash = TxHash::from_bytes(vec![0xab; 32]);
    let mut expected = b"0x".to_vec();
    for _ in 0..32 {
        expected.extend_from_slice(b"ab");
    }
    assert_eq!(receipt_query_param(&hash), expected);
}

#[test]
fn facade_quantity_reply() {
    let zero = read_quantity_reply(&b"0x0".to_vec()).unwrap();
    assert!(zero.equals(&U256::zero()));
    let some = read_quantity_reply(&b"0xde0b6b3a7640000".to_vec()).unwrap();
    assert!(some.equals(&U256::from_u128(1_000_000_000_000_000_000)));
    assert_eq!(read_quantity_reply(&b"nonsense".to_vec()), Err(GatewayError::BackendError));
    assert_eq!(read_quantity_reply(&b"0x".to_vec()), Err(GatewayError::BackendError));
}

#[test]
fn facade_hash_reply() {
    let mut text = b"0x".to_vec();
    for _ in 0..32 {
        text.extend_from_slice(b"11");
    }
    let h = read_hash_reply(&text).unwrap();
    assert_eq!(h, TxHash::from_bytes(vec![0x11; 32]));
    // a 20-byte text is no hash
    assert_eq!(
        read_hash_reply(&b"0x9621dde636de098b43efb0fa9b61facfe328f99d".to_vec()),
        Err(GatewayError::BackendError)
    );
}

#[test]
fn facade_address_text() {
    let a = read_address_text(&b"0x0000000000000000000000000000000000000000".to_vec());
    assert!(a.is_some());
    // wrong width
    assert_eq!(read_address_text(&b"0x1234".to_vec()), None);
    // bad digits
    assert_eq!(
        read_address_text(&b"0xzz21dde636de098b43efb0fa9b61facfe328f99d".to_vec()),
        None
    );
}

#[test]
fn facade_request_shape() {
    let dest = read_address_text(&b"0x0000000000000000000000000000000000001234".to_vec())
        .unwrap();
    let call = TransactionRequest {
        to: Some(dest),
        value: U256::from_u128(1000),
        input: Vec::new(),
        nonce: U256::zero(),
    };
    assert!(!call.is_creation());
    let create = TransactionRequest {
        to: None,
        value: U256::zero(),
        input: b"hello world".to_vec(),
        nonce: U256::from_u64(1),
    };
    assert!(create.is_creation());
}

#[test]
fn facade_error_texts() {
    assert_eq!(GatewayError::Unavailable.describe(), "unavailable");
    assert_eq!(GatewayError::SubmissionRejected.describe(), "submission rejected");
    assert_eq!(GatewayError::TimedOut.describe(), "timed out");
    assert_eq!(GatewayError::BackendError.describe(), "backend error");
}
