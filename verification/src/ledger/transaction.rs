//! The records that come in, and the records that the log keeps of them.

use vstd::prelude::*;
use vstd::string::StringExecFns;
use crate::ledger::account::{AccountId, Amount};
use crate::ledger::{decimal, fixed_4dp_or_none, lines, push_4dp, push_decimal};

verus! {

/// What a transaction asks for.
#[derive(Debug, Clone, Copy, PartialEq, Eq)]
pub enum TransactionType {
    Deposit,
    Withdrawal,
    Dispute,
    Resolve,
    Chargeback,
}

impl TransactionType {
    /// Whether this is the kind of transaction that opens a dispute.
    pub fn is_under_dispute(&self) -> (disputing: bool)
        ensures
            disputing == (*self == TransactionType::Dispute),
    {
        matches!(self, TransactionType::Dispute)
    }

    /// Whether a transaction of this kind carries funds of its own, and so has an id that later
    /// transactions can refer to.
    pub open spec fn moves_funds(self) -> bool {
        self == TransactionType::Deposit || self == TransactionType::Withdrawal
    }

    /// The kind's name, in lower case.
    pub open spec fn name(self) -> Seq<char> {
        match self {
            TransactionType::Deposit => "deposit"@,
            TransactionType::Withdrawal => "withdrawal"@,
            TransactionType::Dispute => "dispute"@,
            TransactionType::Resolve => "resolve"@,
            TransactionType::Chargeback => "chargeback"@,
        }
    }

    fn as_str(&self) -> (text: &'static str)
        ensures
            text@ == self.name(),
    {
        match self {
            TransactionType::Deposit => "deposit",
            TransactionType::Withdrawal => "withdrawal",
            TransactionType::Dispute => "dispute",
            TransactionType::Resolve => "resolve",
            TransactionType::Chargeback => "chargeback",
        }
    }

    /// The kind's name, in lower case.
    pub fn to_string(&self) -> (text: String)
        ensures
            text@ == self.name(),
    {
        String::from_str(self.as_str())
    }
}

/// One incoming record. For a deposit or a withdrawal `tx` is the record's own id and `amount`
/// is what it moves; for the other kinds `tx` is the id of the record they refer to.
#[derive(Debug, Clone, Copy, PartialEq, Eq)]
pub struct Transaction {
    pub _type: TransactionType,
    pub client: AccountId,
    pub tx: u32,
    pub amount: Option<Amount>,
}

impl Transaction {
    pub fn new(_type: TransactionType, client: AccountId, tx: u32, amount: Option<Amount>) -> (t:
        Transaction)
        ensures
            t == (Transaction { _type, client, tx, amount }),
    {
        Transaction { _type, client, tx, amount }
    }

    /// The transaction as one row of a table: type, client, tx and amount, with a comma between
    /// them. Where there is no amount, nothing follows the last comma.
    pub open spec fn row(self) -> Seq<char> {
        self._type.name() + seq![','] + decimal(self.client as nat) + seq![','] + decimal(
            self.tx as nat,
        ) + seq![','] + fixed_4dp_or_none(self.amount)
    }

    /// The transaction as one row of a table, its amount with four digits after the decimal
    /// point.
    pub fn to_string(&self) -> (text: String)
        ensures
            text@ == self.row(),
    {
        let mut text = String::new();
        self.push_row(&mut text);
        text
    }

    fn push_row(&self, text: &mut String)
        ensures
            final(text)@ == old(text)@ + self.row(),
    {
        proof {
            reveal_strlit(",");
        }
        text.append(self._type.as_str());
        text.append(",");
        push_decimal(text, self.client as u128);
        text.append(",");
        push_decimal(text, self.tx as u128);
        text.append(",");
        if let Some(amount) = self.amount {
            push_4dp(text, amount as i128);
        }
        assert(text@ =~= old(text)@ + self.row());
    }
}

/// The names of a transaction's columns, as the first line of a table of transactions.
pub open spec fn transactions_header() -> Seq<char> {
    "type,client,tx,amount"@
}

/// The transactions as a table: the names of the columns, then one row for each transaction, in
/// the order given.
pub fn transactions_to_csv(transactions: &[Transaction]) -> (text: String)
    ensures
        text@ == lines(transactions_header(), transactions@.map_values(|t: Transaction| t.row())),
{
    let mut text = String::from_str("type,client,tx,amount");
    let ghost rows = transactions@.map_values(|t: Transaction| t.row());
    let mut done: usize = 0;
    while done < transactions.len()
        invariant
            done <= transactions.len(),
            rows == transactions@.map_values(|t: Transaction| t.row()),
            text@ == lines(transactions_header(), rows.take(done as int)),
        decreases transactions.len() - done,
    {
        let ghost before = text@;
        proof {
            reveal_strlit("\n");
        }
        text.append("\n");
        transactions[done].push_row(&mut text);
        proof {
            let next = rows.take(done + 1);
            assert(next.drop_last() =~= rows.take(done as int));
            assert(next.last() == transactions@[done as int].row());
            assert(text@ =~= before + seq!['\n'] + next.last());
        }
        done = done + 1;
    }
    assert(rows.take(done as int) =~= rows);
    text
}

/// How an incoming transaction was handled.
#[derive(Debug, Clone, Copy, PartialEq, Eq)]
pub enum TransactionStatus {
    Applied,
    IgnoredLocked,
    IgnoredMissingReference,
    FailedInsufficientFunds,
    FailedInvalidAmount,
    FailedDuplicateTxID,
}

impl TransactionStatus {
    /// The status's name, in lower case, its words joined by underscores.
    pub open spec fn name(self) -> Seq<char> {
        match self {
            TransactionStatus::Applied => "applied"@,
            TransactionStatus::IgnoredLocked => "ignored_locked"@,
            TransactionStatus::IgnoredMissingReference => "ignored_missing_reference"@,
            TransactionStatus::FailedInsufficientFunds => "failed_insufficient_funds"@,
            TransactionStatus::FailedInvalidAmount => "failed_invalid_amount"@,
            TransactionStatus::FailedDuplicateTxID => "failed_duplicate_tx_id"@,
        }
    }
}

/// One line of the log: a transaction and what became of it.
#[derive(Debug, Clone, Copy, PartialEq, Eq)]
pub struct TransactionEntry {
    pub tx: Transaction,
    pub status: TransactionStatus,
}

impl TransactionEntry {
    /// The entry as one row of a table: the transaction's row, a comma, and the status.
    pub open spec fn row(self) -> Seq<char> {
        self.tx.row() + seq![','] + self.status.name()
    }
}

/// The names of a log entry's columns, as the first line of a table of log entries.
pub open spec fn entries_header() -> Seq<char> {
    "type,client,tx,amount,status"@
}

/// The log entries as a table: the names of the columns, then one row for each entry, in the
/// order given.
pub fn transaction_entries_to_csv(entries: &[TransactionEntry]) -> (text: String)
    ensures
        text@ == lines(entries_header(), entries@.map_values(|e: TransactionEntry| e.row())),
{
    let mut text = String::from_str("type,client,tx,amount,status");
    let ghost rows = entries@.map_values(|e: TransactionEntry| e.row());
    let mut done: usize = 0;
    while done < entries.len()
        invariant
            done <= entries.len(),
            rows == entries@.map_values(|e: TransactionEntry| e.row()),
            text@ == lines(entries_header(), rows.take(done as int)),
        decreases entries.len() - done,
    {
        let ghost before = text@;
        proof {
            reveal_strlit("\n");
            reveal_strlit(",");
        }
        text.append("\n");
        entries[done].tx.push_row(&mut text);
        text.append(",");
        text.append(format_status(entries[done].status));
        proof {
            let next = rows.take(done + 1);
            assert(next.drop_last() =~= rows.take(done as int));
            assert(next.last() == entries@[done as int].row());
            assert(text@ =~= before + seq!['\n'] + next.last());
        }
        done = done + 1;
    }
    assert(rows.take(done as int) =~= rows);
    text
}

/// The name under which a status stands in a table of log entries.
pub fn format_status(status: TransactionStatus) -> (text: &'static str)
    ensures
        text@ == status.name(),
{
    match status {
        TransactionStatus::Applied => "applied",
        TransactionStatus::IgnoredLocked => "ignored_locked",
        TransactionStatus::IgnoredMissingReference => "ignored_missing_reference",
        TransactionStatus::FailedInsufficientFunds => "failed_insufficient_funds",
        TransactionStatus::FailedInvalidAmount => "failed_invalid_amount",
        TransactionStatus::FailedDuplicateTxID => "failed_duplicate_tx_id",
    }
}

} // verus!
