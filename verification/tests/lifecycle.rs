use eth_gateway::address::contract_address;
use eth_gateway::address::Address;
use eth_gateway::connect::RetryPolicy;
use eth_gateway::lifecycle::DEFAULT_POLL_DEADLINE_MS;
use eth_gateway::lifecycle::DEFAULT_POLL_INTERVAL_MS;
use eth_gateway::facade::read_address_text;
use eth_gateway::facade::read_quantity_reply;
use eth_gateway::lifecycle::on_submission_accepted;
use eth_gateway::lifecycle::on_submission_rejected;
use eth_gateway::lifecycle::poll_step;
use eth_gateway::lifecycle::start_lifecycle;
use eth_gateway::lifecycle::PollEvent;
use eth_gateway::lifecycle::TxPhase;
use eth_gateway::receipt::make_receipt;
use eth_gateway::receipt::Receipt;
use eth_gateway::receipt::TxHash;
use eth_gateway::u256::U256;

fn test_sender() -> Address {
    read_address_text(&b"0x9621dde636de098b43efb0fa9b61facfe328f99d".to_vec()).unwrap()
}

fn test_hash(fill: u8) -> TxHash {
    TxHash::from_bytes(vec![fill; 32])
}

/// Run one whole lifecycle against a scripted backend: submission is
/// accepted under `hash`, the first `absent_polls` receipt queries find
/// nothing, then the receipt appears.
fn run_to_receipt(
    policy: &RetryPolicy,
    hash: TxHash,
    absent_polls: u64,
    receipt: Receipt,
) -> TxPhase {
    let mut phase = start_lifecycle();
    phase = on_submission_accepted(phase, hash);
    for _ in 0..absent_polls {
        phase = poll_step(policy, phase, PollEvent::Absent);
    }
    poll_step(policy, phase, PollEvent::Found(receipt))
}

#[test]
fn lifecycle_value_transfer_scenario() {
    // submit a transfer of 1000 units to an address whose balance reads zero
    let sender = test_sender();
    let dest = read_address_text(&b"0x0000000000000000000000000000000000001234".to_vec())
        .unwrap();
    let mut dest_balance = read_quantity_reply(&b"0x0".to_vec()).unwrap();
    assert!(dest_balance.equals(&U256::zero()));

    let value = U256::from_u128(1000);
    let policy = RetryPolicy::from_deadline(DEFAULT_POLL_DEADLINE_MS, DEFAULT_POLL_INTERVAL_MS);
    let hash = test_hash(0x11);
    let backend_receipt = make_receipt(test_hash(0x11), Some(dest.clone()), &sender, 0, true);
    let outcome = run_to_receipt(&policy, hash, 2, backend_receipt);

    match outcome {
        TxPhase::Mined { receipt } => {
            assert_eq!(receipt.to, Some(dest.clone()), "receipt should carry the destination");
            assert_eq!(receipt.contract_address, None);
            assert!(receipt.status);
        }
        other => panic!("expected a mined lifecycle, found {other:?}"),
    }

    // the scripted backend now answers the destination's balance with the value
    dest_balance = read_quantity_reply(&b"0x3e8".to_vec()).unwrap();
    assert!(dest_balance.equals(&value), "balance should equal the value sent");
}

#[test]
fn lifecycle_contract_creation_scenario() {
    // submit a creation (no destination) under nonce 3 and check the
    // receipt names exactly the derived address
    let sender = test_sender();
    let nonce: u64 = 3;
    let policy = RetryPolicy::from_deadline(30_000, 1000);
    let hash = test_hash(0x22);
    let backend_receipt = make_receipt(test_hash(0x22), None, &sender, nonce, true);
    let outcome = run_to_receipt(&policy, hash, 1, backend_receipt);

    let expected = contract_address(&sender, nonce);
    match outcome {
        TxPhase::Mined { receipt } => {
            assert_eq!(receipt.to, None);
            assert_eq!(
                receipt.contract_address,
                Some(expected.clone()),
                "contract should be deployed at the derived address"
            );
        }
        other => panic!("expected a mined lifecycle, found {other:?}"),
    }

    // the scripted backend holds the sent value at the new address
    let sent = U256::from_u128(5_000_000_000_000);
    let balance = read_quantity_reply(&b"0x48c27395000".to_vec()).unwrap();
    assert!(balance.equals(&sent), "contract balance should equal the value sent");
}

#[test]
fn lifecycle_contract_call_scenario() {
    // call a previously deployed contract with zero value: submission does
    // not error and the receipt carries the contract as destination
    let sender = test_sender();
    let deployed = contract_address(&sender, 3);
    let policy = RetryPolicy::from_deadline(30_000, 1000);
    let hash = test_hash(0x33);
    let backend_receipt = make_receipt(test_hash(0x33), Some(deployed.clone()), &sender, 4, true);
    let outcome = run_to_receipt(&policy, hash, 0, backend_receipt);

    match outcome {
        TxPhase::Mined { receipt } => {
            assert_eq!(receipt.to, Some(deployed.clone()), "receipt should carry the contract");
            assert_eq!(receipt.contract_address, None);
        }
        other => panic!("expected a mined lifecycle, found {other:?}"),
    }
}

#[test]
fn lifecycle_times_out_when_no_receipt_appears() {
    let policy = RetryPolicy::from_deadline(3000, 1000);
    let mut phase = start_lifecycle();
    phase = on_submission_accepted(phase, test_hash(0x44));
    // transient query failures count like absence
    phase = poll_step(&policy, phase, PollEvent::Absent);
    assert!(matches!(phase, TxPhase::Pending { .. }));
    phase = poll_step(&policy, phase, PollEvent::QueryFailed);
    assert!(matches!(phase, TxPhase::Pending { .. }));
    phase = poll_step(&policy, phase, PollEvent::Absent);
    assert!(matches!(phase, TxPhase::TimedOut { .. }));
}

#[test]
fn lifecycle_rejected_submission_is_terminal() {
    let phase = start_lifecycle();
    let phase = on_submission_rejected(phase);
    assert!(matches!(phase, TxPhase::Rejected));
}

#[test]
fn lifecycle_ignores_receipt_for_other_hash() {
    // a receipt for some other transaction consumes an attempt, it is not
    // observed
    let sender = test_sender();
    let policy = RetryPolicy::from_deadline(30_000, 1000);
    let mut phase = start_lifecycle();
    phase = on_submission_accepted(phase, test_hash(0x55));
    let stray = make_receipt(test_hash(0x66), None, &sender, 0, true);
    phase = poll_step(&policy, phase, PollEvent::Found(stray));
    assert!(matches!(phase, TxPhase::Pending { .. }));
}

#[test]
fn lifecycle_receipt_carries_submitted_hash() {
    let sender = test_sender();
    let policy = RetryPolicy::from_deadline(30_000, 1000);
    let backend_receipt = make_receipt(test_hash(0x77), None, &sender, 9, false);
    let outcome = run_to_receipt(&policy, test_hash(0x77), 0, backend_receipt);
    match outcome {
        TxPhase::Mined { receipt } => {
            assert_eq!(receipt.transaction_hash, test_hash(0x77));
            assert!(!receipt.status);
        }
        other => panic!("expected a mined lifecycle, found {other:?}"),
    }
}
