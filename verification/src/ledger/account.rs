//! A client's balances and the five operations that move them.

use vstd::prelude::*;
use vstd::string::StringExecFns;
use crate::ledger::{decimal, fixed_4dp, lines, push_4dp, push_decimal};

verus! {

/// Identifies a client.
pub type AccountId = u16;

/// The amount of one transaction, in ten-thousandths.
pub type Amount = i64;

/// A balance of an account, in ten-thousandths.
pub type Balance = i128;

/// What an account is, as mathematics.
pub struct AccountView {
    pub client: AccountId,
    pub available: int,
    pub held: int,
    pub total: int,
    pub locked: bool,
}

impl AccountView {
    /// The account of a client that has not moved any funds yet.
    pub open spec fn opened(client: AccountId) -> AccountView {
        AccountView { client, available: 0, held: 0, total: 0, locked: false }
    }

    /// Balances add up, and none of them is negative.
    pub open spec fn balanced(self) -> bool {
        &&& self.total == self.available + self.held
        &&& 0 <= self.available
        &&& 0 <= self.held
    }

    pub open spec fn deposit(self, amount: int) -> AccountView {
        AccountView { available: self.available + amount, total: self.total + amount, ..self }
    }

    pub open spec fn withdraw(self, amount: int) -> AccountView {
        AccountView { available: self.available - amount, total: self.total - amount, ..self }
    }

    pub open spec fn dispute(self, amount: int) -> AccountView {
        AccountView { available: self.available - amount, held: self.held + amount, ..self }
    }

    pub open spec fn resolve(self, amount: int) -> AccountView {
        AccountView { available: self.available + amount, held: self.held - amount, ..self }
    }

    pub open spec fn chargeback(self, amount: int) -> AccountView {
        AccountView { held: self.held - amount, total: self.total - amount, locked: true, ..self }
    }

    /// The account as one row of a table: client, available, held, total and locked, with a
    /// comma between them.
    pub open spec fn row(self) -> Seq<char> {
        decimal(self.client as nat) + seq![','] + fixed_4dp(self.available) + seq![',']
            + fixed_4dp(self.held) + seq![','] + fixed_4dp(self.total) + seq![','] + if self.locked {
            "true"@
        } else {
            "false"@
        }
    }
}

/// The names of an account's columns, as the first line of a table of accounts.
pub open spec fn accounts_header() -> Seq<char> {
    "client,available,held,total,locked"@
}

/// Why an operation on an account was refused.
#[derive(Debug, Clone, Copy, PartialEq, Eq)]
pub enum AccountError {
    /// The available balance is smaller than the amount.
    InsufficientFunds,
    /// The held balance is smaller than the amount.
    InsufficientHeld,
}

/// The balances of one client.
#[derive(Debug, Clone, Copy, PartialEq, Eq)]
pub struct Account {
    client: AccountId,
    available: Balance,
    held: Balance,
    total: Balance,
    locked: bool,
}

impl View for Account {
    type V = AccountView;

    closed spec fn view(&self) -> AccountView {
        AccountView {
            client: self.client,
            available: self.available as int,
            held: self.held as int,
            total: self.total as int,
            locked: self.locked,
        }
    }
}

impl Account {
    /// The invariant of every account: see [`AccountView::balanced`].
    pub open spec fn wf(&self) -> bool {
        self@.balanced()
    }

    /// Whatever an account holds fits the machine type of a balance.
    pub proof fn lemma_in_range(&self)
        ensures
            i128::MIN <= self@.available <= i128::MAX,
            i128::MIN <= self@.held <= i128::MAX,
            i128::MIN <= self@.total <= i128::MAX,
    {
    }

    pub fn new(client: AccountId) -> (account: Account)
        ensures
            account@ == AccountView::opened(client),
            account.wf(),
    {
        Account { client, available: 0, held: 0, total: 0, locked: false }
    }

    /// Credits `amount` to the available funds.
    pub fn deposit(&mut self, amount: Amount)
        requires
            old(self).wf(),
            0 <= amount,
            old(self)@.total + amount <= i128::MAX,
        ensures
            final(self)@ == old(self)@.deposit(amount as int),
            final(self).wf(),
    {
        self.available = self.available + (amount as i128);
        self.total = self.total + (amount as i128);
    }

    /// Debits `amount` from the available funds, if they cover it.
    pub fn withdraw(&mut self, amount: Amount) -> (result: Result<(), AccountError>)
        requires
            old(self).wf(),
            0 <= amount,
        ensures
            final(self).wf(),
            match result {
                Ok(_) => old(self)@.available >= amount && final(self)@ == old(self)@.withdraw(
                    amount as int,
                ),
                Err(e) => old(self)@.available < amount && final(self)@ == old(self)@ && e
                    == AccountError::InsufficientFunds,
            },
    {
        if self.available < (amount as i128) {
            return Err(AccountError::InsufficientFunds);
        }
        self.available = self.available - (amount as i128);
        self.total = self.total - (amount as i128);
        Ok(())
    }

    /// Puts `amount` of the available funds on hold, if they cover it.
    pub fn dispute(&mut self, amount: Amount) -> (result: Result<(), AccountError>)
        requires
            old(self).wf(),
            0 <= amount,
        ensures
            final(self).wf(),
            match result {
                Ok(_) => old(self)@.available >= amount && final(self)@ == old(self)@.dispute(
                    amount as int,
                ),
                Err(e) => old(self)@.available < amount && final(self)@ == old(self)@ && e
                    == AccountError::InsufficientFunds,
            },
    {
        if self.available < (amount as i128) {
            return Err(AccountError::InsufficientFunds);
        }
        self.available = self.available - (amount as i128);
        self.held = self.held + (amount as i128);
        Ok(())
    }

    /// Releases `amount` of the held funds, if they cover it.
    pub fn resolve(&mut self, amount: Amount) -> (result: Result<(), AccountError>)
        requires
            old(self).wf(),
            0 <= amount,
        ensures
            final(self).wf(),
            match result {
                Ok(_) => old(self)@.held >= amount && final(self)@ == old(self)@.resolve(
                    amount as int,
                ),
                Err(e) => old(self)@.held < amount && final(self)@ == old(self)@ && e
                    == AccountError::InsufficientHeld,
            },
    {
        if self.held < (amount as i128) {
            return Err(AccountError::InsufficientHeld);
        }
        self.held = self.held - (amount as i128);
        self.available = self.available + (amount as i128);
        Ok(())
    }

    /// Takes `amount` of the held funds away for good and locks the account, if they cover it.
    pub fn chargeback(&mut self, amount: Amount) -> (result: Result<(), AccountError>)
        requires
            old(self).wf(),
            0 <= amount,
        ensures
            final(self).wf(),
            match result {
                Ok(_) => old(self)@.held >= amount && final(self)@ == old(self)@.chargeback(
                    amount as int,
                ),
                Err(e) => old(self)@.held < amount && final(self)@ == old(self)@ && e
                    == AccountError::InsufficientHeld,
            },
    {
        if self.held < (amount as i128) {
            return Err(AccountError::InsufficientHeld);
        }
        self.held = self.held - (amount as i128);
        self.total = self.total - (amount as i128);
        self.locked = true;
        Ok(())
    }

    pub fn client(&self) -> (client: AccountId)
        ensures
            client == self@.client,
    {
        self.client
    }

    pub fn available(&self) -> (available: Balance)
        ensures
            available == self@.available,
    {
        self.available
    }

    pub fn held(&self) -> (held: Balance)
        ensures
            held == self@.held,
    {
        self.held
    }

    pub fn total(&self) -> (total: Balance)
        ensures
            total == self@.total,
    {
        self.total
    }

    pub fn is_locked(&self) -> (locked: bool)
        ensures
            locked == self@.locked,
    {
        self.locked
    }

    /// The account as one row of a table, its funds with four digits after the decimal point.
    pub fn to_string(&self) -> (text: String)
        ensures
            text@ == self@.row(),
    {
        let mut text = String::new();
        self.push_row(&mut text);
        text
    }

    fn push_row(&self, text: &mut String)
        ensures
            final(text)@ == old(text)@ + self@.row(),
    {
        proof {
            reveal_strlit(",");
        }
        push_decimal(text, self.client as u128);
        text.append(",");
        push_4dp(text, self.available);
        text.append(",");
        push_4dp(text, self.held);
        text.append(",");
        push_4dp(text, self.total);
        text.append(",");
        if self.locked {
            text.append("true");
        } else {
            text.append("false");
        }
        assert(text@ =~= old(text)@ + self@.row());
    }
}

/// The accounts as a table: the names of the columns, then one row for each account, in the
/// order given.
pub fn accounts_to_csv(accounts: &[Account]) -> (text: String)
    ensures
        text@ == lines(accounts_header(), accounts@.map_values(|account: Account| account@.row())),
{
    let mut text = String::from_str("client,available,held,total,locked");
    let ghost rows = accounts@.map_values(|account: Account| account@.row());
    let mut done: usize = 0;
    while done < accounts.len()
        invariant
            done <= accounts.len(),
            rows == accounts@.map_values(|account: Account| account@.row()),
            text@ == lines(accounts_header(), rows.take(done as int)),
        decreases accounts.len() - done,
    {
        let ghost before = text@;
        proof {
            reveal_strlit("\n");
        }
        text.append("\n");
        accounts[done].push_row(&mut text);
        proof {
            let next = rows.take(done + 1);
            assert(next.drop_last() =~= rows.take(done as int));
            assert(next.last() == accounts@[done as int]@.row());
            assert(text@ =~= before + seq!['\n'] + next.last());
        }
        done = done + 1;
    }
    assert(rows.take(done as int) =~= rows);
    text
}

} // verus!
