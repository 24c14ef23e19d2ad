use trex::ledger::engine::Engine;
use trex::ledger::transaction::{Transaction, TransactionStatus, TransactionType};
use trex::processing::consume_batch;

fn deposit(client: u16, id: u32, units: i64) -> Transaction {
    Transaction::new(TransactionType::Deposit, client, id, Some(units))
}

fn withdrawal(client: u16, id: u32, units: i64) -> Transaction {
    Transaction::new(TransactionType::Withdrawal, client, id, Some(units))
}

fn reference(kind: TransactionType, client: u16, id: u32) -> Transaction {
    Transaction::new(kind, client, id, None)
}

#[test]
fn batch_is_processed_in_order() {
    let mut engine = Engine::new();
    consume_batch(&mut engine, &[deposit(1, 1, 1_000_000), withdrawal(1, 2, 500_000)]);
    let account = engine.get_account(1).unwrap();
    assert_eq!(account.available(), 500_000);
    assert_eq!(account.total(), 500_000);
    assert_eq!(engine.get_transactions().len(), 2);
    assert_eq!(engine.get_transactions()[0].tx, deposit(1, 1, 1_000_000));
    assert_eq!(engine.get_transactions()[1].tx, withdrawal(1, 2, 500_000));
}

#[test]
fn batch_in_the_other_order_fails_the_withdrawal() {
    let mut engine = Engine::new();
    consume_batch(&mut engine, &[withdrawal(1, 2, 500_000), deposit(1, 1, 1_000_000)]);
    let account = engine.get_account(1).unwrap();
    assert_eq!(account.available(), 1_000_000);
    assert_eq!(engine.get_transactions()[0].status, TransactionStatus::FailedInsufficientFunds);
    assert_eq!(engine.get_transactions()[1].status, TransactionStatus::Applied);
}

#[test]
fn empty_batch_changes_nothing() {
    let mut engine = Engine::new();
    consume_batch(&mut engine, &[]);
    assert!(engine.get_accounts().is_empty());
    assert!(engine.get_transactions().is_empty());
}

#[test]
fn batches_in_sequence_share_the_ledger() {
    let mut engine = Engine::new();
    consume_batch(&mut engine, &[deposit(1, 1, 100_000)]);
    consume_batch(&mut engine, &[deposit(2, 2, 200_000), deposit(2, 3, 300_000)]);
    assert_eq!(engine.get_account(1).unwrap().available(), 100_000);
    assert_eq!(engine.get_account(2).unwrap().available(), 500_000);
}

#[test]
fn dispute_in_a_later_batch_finds_the_deposit_of_an_earlier_one() {
    let mut engine = Engine::new();
    consume_batch(&mut engine, &[deposit(1, 1, 1_000_000), deposit(2, 2, 10_000)]);
    consume_batch(&mut engine, &[reference(TransactionType::Dispute, 1, 1)]);
    let account = engine.get_account(1).unwrap();
    assert_eq!(account.available(), 0);
    assert_eq!(account.held(), 1_000_000);
    assert_eq!(account.total(), 1_000_000);
    assert_eq!(engine.get_transactions()[2].status, TransactionStatus::Applied);
}

#[test]
fn dispute_in_an_earlier_batch_finds_nothing() {
    let mut engine = Engine::new();
    consume_batch(&mut engine, &[reference(TransactionType::Dispute, 1, 1)]);
    consume_batch(&mut engine, &[deposit(1, 2, 1_000_000)]);
    let account = engine.get_account(1).unwrap();
    assert_eq!(account.available(), 1_000_000);
    assert_eq!(account.held(), 0);
    assert_eq!(engine.get_transactions()[0].status, TransactionStatus::IgnoredMissingReference);
}

#[test]
fn two_batches_equal_their_concatenation() {
    let first = [deposit(1, 1, 1_000_000), deposit(2, 2, 2_000_000), withdrawal(1, 3, 500_000)];
    let second = [
        reference(TransactionType::Dispute, 2, 2),
        reference(TransactionType::Chargeback, 2, 2),
        deposit(2, 4, 10_000),
        deposit(1, 3, 10_000),
    ];
    let mut split = Engine::new();
    consume_batch(&mut split, &first);
    consume_batch(&mut split, &second);
    let mut joined = Engine::new();
    let mut all = first.to_vec();
    all.extend_from_slice(&second);
    consume_batch(&mut joined, &all);
    assert_eq!(split.get_transactions(), joined.get_transactions());
    assert_eq!(split.get_accounts(), joined.get_accounts());
    assert_eq!(split.get_account(2).unwrap().total(), 0);
    assert!(split.get_account(2).unwrap().is_locked());
    assert_eq!(split.get_account(1).unwrap().total(), 500_000);
}

#[test]
fn batch_with_references_only_moves_what_it_may() {
    let mut engine = Engine::new();
    consume_batch(
        &mut engine,
        &[
            deposit(1, 1, 1_000_000),
            deposit(2, 2, 2_000_000),
            withdrawal(1, 3, 500_000),
            reference(TransactionType::Dispute, 1, 1),
            reference(TransactionType::Resolve, 1, 1),
        ],
    );
    let first = engine.get_account(1).unwrap();
    assert_eq!(first.available(), 500_000);
    assert_eq!(first.held(), 0);
    assert_eq!(engine.get_account(2).unwrap().available(), 2_000_000);
    assert_eq!(engine.get_transactions()[3].status, TransactionStatus::IgnoredMissingReference);
    assert_eq!(engine.get_transactions()[4].status, TransactionStatus::IgnoredMissingReference);
}

#[test]
fn batch_ending_in_a_chargeback_locks_the_account() {
    let mut engine = Engine::new();
    consume_batch(
        &mut engine,
        &[
            deposit(1, 101, 1_000_000),
            reference(TransactionType::Dispute, 1, 101),
            reference(TransactionType::Chargeback, 1, 101),
        ],
    );
    let account = engine.get_account(1).unwrap();
    assert_eq!(account.total(), 0);
    assert!(account.is_locked());
}
