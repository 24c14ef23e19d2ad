use trex::ledger::transaction::{
    format_status, transaction_entries_to_csv, transactions_to_csv, Transaction, TransactionEntry,
    TransactionStatus, TransactionType,
};
use trex::ledger::{serialize_4dp, serialize_4dp_or_none};

#[test]
fn zero_is_rendered_with_four_zeros() {
    assert_eq!(serialize_4dp(0), "0.0000");
}

#[test]
fn whole_amounts_are_rendered_with_four_zeros() {
    assert_eq!(serialize_4dp(1_000_000), "100.0000");
    assert_eq!(serialize_4dp(10_000), "1.0000");
}

#[test]
fn fractions_keep_their_leading_zeros() {
    assert_eq!(serialize_4dp(1), "0.0001");
    assert_eq!(serialize_4dp(20), "0.0020");
    assert_eq!(serialize_4dp(300), "0.0300");
    assert_eq!(serialize_4dp(4_000), "0.4000");
    assert_eq!(serialize_4dp(12_345_678), "1234.5678");
    assert_eq!(serialize_4dp(100_001), "10.0001");
}

#[test]
fn negative_amounts_are_rendered_with_a_sign() {
    assert_eq!(serialize_4dp(-50_000), "-5.0000");
    assert_eq!(serialize_4dp(-1), "-0.0001");
}

#[test]
fn the_largest_and_smallest_balances_are_rendered() {
    assert_eq!(serialize_4dp(i128::MAX), "17014118346046923173168730371588410.5727");
    assert_eq!(serialize_4dp(i128::MIN), "-17014118346046923173168730371588410.5728");
}

#[test]
fn an_absent_amount_is_rendered_as_nothing() {
    assert_eq!(serialize_4dp_or_none(None), "");
    assert_eq!(serialize_4dp_or_none(Some(1_000_000)), "100.0000");
    assert_eq!(serialize_4dp_or_none(Some(i64::MIN)), "-922337203685477.5808");
    assert_eq!(serialize_4dp_or_none(Some(i64::MAX)), "922337203685477.5807");
}

#[test]
fn transaction_types_are_named_in_lower_case() {
    assert_eq!(TransactionType::Deposit.to_string(), "deposit");
    assert_eq!(TransactionType::Withdrawal.to_string(), "withdrawal");
    assert_eq!(TransactionType::Dispute.to_string(), "dispute");
    assert_eq!(TransactionType::Resolve.to_string(), "resolve");
    assert_eq!(TransactionType::Chargeback.to_string(), "chargeback");
}

#[test]
fn only_a_dispute_is_under_dispute() {
    assert!(TransactionType::Dispute.is_under_dispute());
    assert!(!TransactionType::Deposit.is_under_dispute());
    assert!(!TransactionType::Withdrawal.is_under_dispute());
    assert!(!TransactionType::Resolve.is_under_dispute());
    assert!(!TransactionType::Chargeback.is_under_dispute());
}

#[test]
fn statuses_are_named_in_snake_case() {
    assert_eq!(format_status(TransactionStatus::Applied), "applied");
    assert_eq!(format_status(TransactionStatus::IgnoredLocked), "ignored_locked");
    assert_eq!(
        format_status(TransactionStatus::IgnoredMissingReference),
        "ignored_missing_reference"
    );
    assert_eq!(
        format_status(TransactionStatus::FailedInsufficientFunds),
        "failed_insufficient_funds"
    );
    assert_eq!(format_status(TransactionStatus::FailedInvalidAmount), "failed_invalid_amount");
    assert_eq!(format_status(TransactionStatus::FailedDuplicateTxID), "failed_duplicate_tx_id");
}

#[test]
fn transaction_new_keeps_its_arguments() {
    let t = Transaction::new(TransactionType::Withdrawal, 3, 9, Some(25_000));
    assert_eq!(t._type, TransactionType::Withdrawal);
    assert_eq!(t.client, 3);
    assert_eq!(t.tx, 9);
    assert_eq!(t.amount, Some(25_000));
}

#[test]
fn transaction_row_with_an_amount() {
    let t = Transaction::new(TransactionType::Deposit, 1, 4294967295, Some(1_000_000));
    assert_eq!(t.to_string(), "deposit,1,4294967295,100.0000");
}

#[test]
fn transaction_row_without_an_amount_ends_in_a_comma() {
    let t = Transaction::new(TransactionType::Dispute, 10, 205, None);
    assert_eq!(t.to_string(), "dispute,10,205,");
}

#[test]
fn transactions_table_matches_the_input_format() {
    let rows = [
        Transaction::new(TransactionType::Deposit, 1, 1, Some(1_000_000)),
        Transaction::new(TransactionType::Withdrawal, 1, 2, Some(500_000)),
        Transaction::new(TransactionType::Dispute, 1, 1, None),
        Transaction::new(TransactionType::Resolve, 1, 1, None),
        Transaction::new(TransactionType::Chargeback, 1, 1, None),
    ];
    assert_eq!(
        transactions_to_csv(&rows),
        "type,client,tx,amount\n\
         deposit,1,1,100.0000\n\
         withdrawal,1,2,50.0000\n\
         dispute,1,1,\n\
         resolve,1,1,\n\
         chargeback,1,1,"
    );
}

#[test]
fn transactions_table_of_nothing_is_the_header() {
    assert_eq!(transactions_to_csv(&[]), "type,client,tx,amount");
}

#[test]
fn entries_table_adds_the_status() {
    let rows = [
        TransactionEntry {
            tx: Transaction::new(TransactionType::Deposit, 1, 1, Some(-50_000)),
            status: TransactionStatus::FailedInvalidAmount,
        },
        TransactionEntry {
            tx: Transaction::new(TransactionType::Chargeback, 2, 7, None),
            status: TransactionStatus::IgnoredMissingReference,
        },
    ];
    assert_eq!(
        transaction_entries_to_csv(&rows),
        "type,client,tx,amount,status\n\
         deposit,1,1,-5.0000,failed_invalid_amount\n\
         chargeback,2,7,,ignored_missing_reference"
    );
}

#[test]
fn entries_table_of_nothing_is_the_header() {
    assert_eq!(transaction_entries_to_csv(&[]), "type,client,tx,amount,status");
}
