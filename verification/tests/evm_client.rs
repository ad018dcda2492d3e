use spread_circuit::double::Double;
use spread_circuit::evm::amounts::Uint256;
use spread_circuit::evm::client::{
    approval_needed, ensure_transaction_succeeded, parse_transfer_out, raw_amounts,
    settle_swap_receipt, swap_deadline, Receipt, ReceiptLog, SettleError, SwapRequest, Transfer,
};
use spread_circuit::evm::is_valid_quote;

fn d(x: f64) -> Double {
    Double { bits: x.to_bits() }
}

fn address(byte: u8) -> Vec<u8> {
    vec![byte; 20]
}

fn log(contract: u8, to: u8, value: u128) -> ReceiptLog {
    ReceiptLog {
        address: address(contract),
        transfer: Some(Transfer { to: address(to), value: Uint256::from_low(value) }),
    }
}

fn receipt(status: bool, logs: Vec<ReceiptLog>) -> Receipt {
    Receipt { status, tx_hash: "0xabc".to_owned(), logs }
}

#[test]
fn deadlines_lie_a_minute_ahead() {
    assert_eq!(swap_deadline(1_700_000_000), 1_700_000_060);
}

#[test]
fn reverted_transactions_are_errors() {
    assert!(ensure_transaction_succeeded(true, "0x1", "swap").is_ok());
    let error = ensure_transaction_succeeded(false, "0x1", "approve").err().unwrap();
    assert_eq!(error.message(), "approve tx 回滚: 0x1");
}

#[test]
fn approvals_are_needed_below_the_amount() {
    let (less, more) = (Uint256::from_low(5), Uint256::from_low(6));
    assert!(approval_needed(&less, &more));
    assert!(!approval_needed(&more, &more));
    assert!(!approval_needed(&Uint256::max(), &more));
}

#[test]
fn the_first_transfer_to_the_recipient_counts() {
    let logs = vec![
        ReceiptLog { address: address(2), transfer: None },
        log(1, 9, 100),
        log(2, 8, 200),
        log(2, 9, 300),
        log(2, 9, 400),
    ];
    assert_eq!(parse_transfer_out(&logs, &address(2), &address(9)), Some(Uint256::from_low(300)));
    assert_eq!(parse_transfer_out(&logs, &address(3), &address(9)), None);
}

#[test]
fn receipts_settle() {
    let good = receipt(true, vec![log(2, 9, 2_500_000)]);
    let outcome = settle_swap_receipt(&good, &address(2), &address(9), 6).unwrap();
    assert_eq!((outcome.amount_out, outcome.tx_hash.as_str()), (d(2.5), "0xabc"));
    let reverted = settle_swap_receipt(&receipt(false, vec![log(2, 9, 1)]), &address(2), &address(9), 6);
    assert!(matches!(reverted, Err(SettleError::Reverted(error)) if error.message() == "swap tx 回滚: 0xabc"));
    let missing = settle_swap_receipt(&receipt(true, vec![]), &address(2), &address(9), 6);
    assert!(matches!(
        missing,
        Err(SettleError::TransferMissing(error)) if error.message() == "transfer_event_missing:0xabc"
    ));
    let huge = receipt(
        true,
        vec![ReceiptLog {
            address: address(2),
            transfer: Some(Transfer { to: address(9), value: Uint256::max() }),
        }],
    );
    assert!(matches!(
        settle_swap_receipt(&huge, &address(2), &address(9), 6),
        Err(SettleError::Amount(_))
    ));
}

#[test]
fn raw_amounts_round_the_least_output_up() {
    let request = SwapRequest {
        router: address(1),
        token_in: address(2),
        decimals_in: 6,
        token_out: address(3),
        decimals_out: 6,
        fee_tier: 3000,
        recipient: address(4),
        amount_in: d(1.0000001),
        amount_out_min: d(1.0000001),
    };
    assert_eq!(
        raw_amounts(&request),
        Ok((Uint256::from_low(1_000_000), Uint256::from_low(1_000_001)))
    );
}

#[test]
fn quotes_must_be_positive_numbers() {
    for (value, valid) in [(1.0, true), (5e-324, true), (0.0, false), (-1.0, false), (f64::NAN, false), (f64::INFINITY, false)] {
        assert_eq!(is_valid_quote(d(value)), valid);
    }
}
