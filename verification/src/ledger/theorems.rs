//! What holds of the ledger over any sequence of transactions.

use vstd::prelude::*;
use crate::ledger::account::AccountId;
use crate::ledger::engine::{lemma_step_keeps_wf, lemma_step_seen, Ledger};
use crate::ledger::transaction::{Transaction, TransactionEntry, TransactionStatus, TransactionType};

verus! {

/// The ledger that an engine starts from is valid.
pub proof fn lemma_empty_wf()
    ensures
        Ledger::empty().wf(),
{
}

/// Any batch takes a valid ledger to a valid ledger.
pub proof fn lemma_run_keeps_wf(ledger: Ledger, batch: Seq<Transaction>)
    requires
        ledger.wf(),
    ensures
        ledger.run(batch).wf(),
    decreases batch.len(),
{
    if batch.len() > 0 {
        lemma_run_keeps_wf(ledger, batch.drop_last());
        lemma_step_keeps_wf(ledger.run(batch.drop_last()), batch.last());
    }
}

/// After any batch, the total of every account is the sum of its available and its held funds,
/// and neither of the two is negative.
pub proof fn lemma_totals_add_up(ledger: Ledger, batch: Seq<Transaction>, client: AccountId)
    requires
        ledger.wf(),
    ensures
        ({
            let account = ledger.run(batch).account(client);
            &&& account.total == account.available + account.held
            &&& account.available >= 0
            &&& account.held >= 0
        }),
{
    lemma_run_keeps_wf(ledger, batch);
}

/// A transaction for a locked account changes no account and nothing that is remembered of
/// earlier transactions; the log gains its entry, with the status `IgnoredLocked`.
pub proof fn lemma_locked_ignores(ledger: Ledger, tx: Transaction)
    requires
        ledger.account(tx.client).locked,
    ensures
        ledger.step(tx).accounts == ledger.accounts,
        ledger.step(tx).tx_state == ledger.tx_state,
        ledger.step(tx).log == ledger.log.push(
            TransactionEntry { tx, status: TransactionStatus::IgnoredLocked },
        ),
{
    assert(ledger.step(tx).accounts =~= ledger.accounts);
}

/// Once an account is locked, no batch changes its funds or unlocks it, whichever clients the
/// transactions of the batch name.
pub proof fn lemma_locked_stays(ledger: Ledger, batch: Seq<Transaction>, client: AccountId)
    requires
        ledger.account(client).locked,
    ensures
        ledger.run(batch).accounts.contains_key(client),
        ledger.run(batch).accounts[client] == ledger.accounts[client],
    decreases batch.len(),
{
    if batch.len() > 0 {
        lemma_locked_stays(ledger, batch.drop_last(), client);
    }
}

/// A step changes no account but that of the transaction's client.
pub proof fn lemma_other_accounts_kept(ledger: Ledger, tx: Transaction, client: AccountId)
    requires
        client != tx.client,
    ensures
        ledger.step(tx).accounts.contains_key(client) == ledger.accounts.contains_key(client),
        ledger.step(tx).account(client) == ledger.account(client),
{
}

/// A transaction that is not applied moves no funds and leaves what is remembered of earlier
/// transactions as it was: the client's account stands as it stood, or is opened empty.
pub proof fn lemma_rejected_changes_nothing(ledger: Ledger, tx: Transaction, client: AccountId)
    requires
        ledger.status(tx) != TransactionStatus::Applied,
    ensures
        ledger.step(tx).account(client) == ledger.account(client),
        ledger.step(tx).tx_state == ledger.tx_state,
{
}

/// Every step appends exactly one entry to the log, for the transaction that it was given, and
/// leaves the entries before it as they were.
pub proof fn lemma_step_logs(ledger: Ledger, tx: Transaction)
    ensures
        ledger.step(tx).log.len() == ledger.log.len() + 1,
        ledger.step(tx).log.last() == (TransactionEntry { tx, status: ledger.status(tx) }),
        ledger.step(tx).log.drop_last() == ledger.log,
{
    assert(ledger.step(tx).log.drop_last() =~= ledger.log);
}

/// A batch appends one entry for each of its transactions, in their order, and leaves the
/// entries before them as they were.
pub proof fn lemma_run_logs(ledger: Ledger, batch: Seq<Transaction>)
    ensures
        ledger.run(batch).log.len() == ledger.log.len() + batch.len(),
        ledger.run(batch).log.take(ledger.log.len() as int) == ledger.log,
        forall|i: int|
            0 <= i < batch.len() ==> (#[trigger] ledger.run(batch).log[ledger.log.len() + i]).tx
                == batch[i],
    decreases batch.len(),
{
    if batch.len() > 0 {
        let before = ledger.run(batch.drop_last());
        lemma_run_logs(ledger, batch.drop_last());
        lemma_step_logs(before, batch.last());
        let after = ledger.run(batch);
        assert(after.log.take(ledger.log.len() as int) =~= before.log.take(
            ledger.log.len() as int,
        ));
        assert forall|i: int| 0 <= i < batch.len() implies (#[trigger] after.log[ledger.log.len()
            + i]).tx == batch[i] by {
            if i < batch.len() - 1 {
                assert(after.log[ledger.log.len() + i] == before.log[ledger.log.len() + i]);
                assert(batch.drop_last()[i] == batch[i]);
            }
        }
    } else {
        assert(ledger.log.take(ledger.log.len() as int) =~= ledger.log);
    }
}

/// An id that the log holds stays in the log, whatever comes after.
pub proof fn lemma_seen_stays(ledger: Ledger, batch: Seq<Transaction>, id: u32)
    requires
        ledger.seen(id),
    ensures
        ledger.run(batch).seen(id),
    decreases batch.len(),
{
    if batch.len() > 0 {
        lemma_seen_stays(ledger, batch.drop_last(), id);
        lemma_step_seen(ledger.run(batch.drop_last()), batch.last(), id);
    }
}

/// A deposit or a withdrawal whose id the log already holds is refused as a duplicate, whoever
/// its client is, and changes nothing. Two cases come first and are left out here: a locked
/// account ignores the transaction, and one without an amount is invalid.
pub proof fn lemma_duplicate_refused(ledger: Ledger, tx: Transaction)
    requires
        tx._type.moves_funds(),
        ledger.seen(tx.tx),
        !ledger.account(tx.client).locked,
        tx.amount is Some,
    ensures
        ledger.status(tx) == TransactionStatus::FailedDuplicateTxID,
        ledger.step(tx).tx_state == ledger.tx_state,
        forall|client: AccountId| #[trigger]
            ledger.step(tx).account(client) == ledger.account(client),
{
}

/// Once a transaction was processed, whatever its outcome, a later deposit or withdrawal with
/// its id is refused as a duplicate, with the two exceptions of [`lemma_duplicate_refused`].
pub proof fn lemma_resubmission_refused(
    ledger: Ledger,
    first: Transaction,
    between: Seq<Transaction>,
    again: Transaction,
)
    requires
        again.tx == first.tx,
        again._type.moves_funds(),
        again.amount is Some,
        !ledger.step(first).run(between).account(again.client).locked,
    ensures
        ledger.step(first).run(between).status(again) == TransactionStatus::FailedDuplicateTxID,
{
    lemma_step_seen(ledger, first, first.tx);
    lemma_seen_stays(ledger.step(first), between, first.tx);
}

/// What is remembered of a deposit or a withdrawal is never dropped, and neither its owner nor
/// its amount ever changes.
pub proof fn lemma_reference_kept(ledger: Ledger, tx: Transaction, id: u32)
    requires
        ledger.wf(),
        ledger.tx_state.contains_key(id),
    ensures
        ledger.step(tx).tx_state.contains_key(id),
        ledger.step(tx).tx_state[id].client == ledger.tx_state[id].client,
        ledger.step(tx).tx_state[id].amount == ledger.tx_state[id].amount,
{
}

/// A dispute, a resolve or a chargeback that names a transaction of another client is ignored
/// for want of a reference: no account changes, and neither does what is remembered of the
/// transaction. A locked account of the sender is left out: it has the transaction ignored as
/// locked.
pub proof fn lemma_foreign_reference_ignored(ledger: Ledger, tx: Transaction)
    requires
        ledger.wf(),
        !tx._type.moves_funds(),
        ledger.tx_state.contains_key(tx.tx),
        ledger.tx_state[tx.tx].client != tx.client,
        !ledger.account(tx.client).locked,
    ensures
        ledger.status(tx) == TransactionStatus::IgnoredMissingReference,
        ledger.step(tx).tx_state == ledger.tx_state,
        forall|client: AccountId| #[trigger]
            ledger.step(tx).account(client) == ledger.account(client),
{
}

/// Two batches processed one after the other leave the ledger that their concatenation leaves:
/// what the first batch set up is there for the second.
pub proof fn lemma_run_concat(ledger: Ledger, first: Seq<Transaction>, second: Seq<Transaction>)
    ensures
        ledger.run(first + second) == ledger.run(first).run(second),
    decreases second.len(),
{
    if second.len() == 0 {
        assert(first + second =~= first);
    } else {
        lemma_run_concat(ledger, first, second.drop_last());
        assert((first + second).drop_last() =~= first + second.drop_last());
        assert((first + second).last() == second.last());
    }
}

/// A dispute in a batch of its own finds the deposit of the batch before: where the deposit was
/// applied, the dispute is applied too, and puts the deposit's amount on hold.
pub proof fn lemma_dispute_across_batches(
    ledger: Ledger,
    deposit: Transaction,
    dispute: Transaction,
)
    requires
        ledger.wf(),
        deposit._type == TransactionType::Deposit,
        ledger.status(deposit) == TransactionStatus::Applied,
        dispute._type == TransactionType::Dispute,
        dispute.client == deposit.client,
        dispute.tx == deposit.tx,
    ensures
        ledger.run(seq![deposit]).run(seq![dispute]).account(deposit.client) == ledger.account(
            deposit.client,
        ).deposit(deposit.amount.unwrap() as int).dispute(deposit.amount.unwrap() as int),
        ledger.run(seq![deposit]).status(dispute) == TransactionStatus::Applied,
{
    let first = seq![deposit];
    let second = seq![dispute];
    assert(first.drop_last() =~= Seq::<Transaction>::empty());
    assert(second.drop_last() =~= Seq::<Transaction>::empty());
    assert(ledger.run(first.drop_last()) == ledger);
    assert(ledger.run(first) == ledger.step(deposit));
    let middle = ledger.step(deposit);
    assert(middle.run(second.drop_last()) == middle);
    assert(middle.run(second) == middle.step(dispute));
}

} // verus!
