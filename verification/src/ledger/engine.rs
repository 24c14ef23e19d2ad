//! The engine: one ledger, fed one transaction at a time.

use vstd::prelude::*;
use std::collections::{HashMap, HashSet};
use crate::ledger::account::{Account, AccountId, AccountView, Amount};
use crate::ledger::transaction::{Transaction, TransactionEntry, TransactionStatus, TransactionType};

verus! {

broadcast use vstd::std_specs::hash::group_hash_axioms;

/// Where a deposit or a withdrawal stands in the dispute workflow.
#[derive(Debug, Clone, Copy, PartialEq, Eq)]
pub enum DisputeState {
    Normal,
    Disputed,
    Resolved,
    Chargeback,
}

/// What the engine remembers of a deposit or a withdrawal that it applied.
#[derive(Debug, Clone, Copy)]
pub struct TxState {
    pub client: AccountId,
    pub amount: Amount,
    pub dispute_state: DisputeState,
}

impl TxState {
    pub fn is_under_dispute(&self) -> (disputed: bool)
        ensures
            disputed == (self.dispute_state == DisputeState::Disputed),
    {
        matches!(self.dispute_state, DisputeState::Disputed)
    }
}

/// The largest amount that one transaction can carry.
pub open spec fn amount_limit() -> int {
    i64::MAX as int
}

/// The state of a deposit or a withdrawal once a transaction of the given kind was applied.
pub open spec fn state_after(kind: TransactionType) -> DisputeState {
    match kind {
        TransactionType::Deposit => DisputeState::Normal,
        TransactionType::Withdrawal => DisputeState::Normal,
        TransactionType::Dispute => DisputeState::Disputed,
        TransactionType::Resolve => DisputeState::Resolved,
        TransactionType::Chargeback => DisputeState::Chargeback,
    }
}

/// The account once a transaction of the given kind was applied with the given amount.
pub open spec fn account_after(account: AccountView, kind: TransactionType, amount: int)
    -> AccountView {
    match kind {
        TransactionType::Deposit => account.deposit(amount),
        TransactionType::Withdrawal => account.withdraw(amount),
        TransactionType::Dispute => account.dispute(amount),
        TransactionType::Resolve => account.resolve(amount),
        TransactionType::Chargeback => account.chargeback(amount),
    }
}

/// What becomes of a deposit or a withdrawal on an account that is not locked. `duplicate`
/// says whether the log already holds the transaction's id.
pub open spec fn funds_status(
    account: AccountView,
    kind: TransactionType,
    amount: Option<Amount>,
    duplicate: bool,
) -> TransactionStatus {
    match amount {
        None => TransactionStatus::FailedInvalidAmount,
        Some(amount) => if duplicate {
            TransactionStatus::FailedDuplicateTxID
        } else if amount <= 0 {
            TransactionStatus::FailedInvalidAmount
        } else if kind == TransactionType::Withdrawal && account.available < amount {
            TransactionStatus::FailedInsufficientFunds
        } else {
            TransactionStatus::Applied
        },
    }
}

/// What becomes of a dispute, a resolve or a chargeback on an account that is not locked.
/// `state` is what the engine remembers under the id that the transaction refers to.
///
/// One status stands for every way in which such a transaction can fail: nothing is remembered
/// under the id, it belongs to another client, it is not in the state that the transaction needs,
/// or the account's funds do not cover the amount. A status of its own for the last of these
/// would take a variant more and a branch here, and nothing else.
pub open spec fn reference_status(
    account: AccountView,
    kind: TransactionType,
    state: Option<TxState>,
) -> TransactionStatus {
    match state {
        None => TransactionStatus::IgnoredMissingReference,
        Some(state) => {
            let disputed = state.dispute_state == DisputeState::Disputed;
            let covered = if kind == TransactionType::Dispute {
                !disputed && account.available >= state.amount
            } else {
                disputed && account.held >= state.amount
            };
            if state.client == account.client && covered {
                TransactionStatus::Applied
            } else {
                TransactionStatus::IgnoredMissingReference
            }
        },
    }
}

/// Whether one of the entries holds this transaction id.
pub open spec fn logged(log: Seq<TransactionEntry>, id: u32) -> bool {
    exists|i: int| 0 <= i < log.len() && (#[trigger] log[i]).tx.tx == id
}

/// The engine's state as mathematics: the accounts by client, what is remembered of each
/// applied deposit and withdrawal by id, and the log.
pub struct Ledger {
    pub accounts: Map<AccountId, AccountView>,
    pub tx_state: Map<u32, TxState>,
    pub log: Seq<TransactionEntry>,
}

impl Ledger {
    /// No accounts, nothing remembered, nothing logged.
    pub open spec fn empty() -> Ledger {
        Ledger { accounts: Map::empty(), tx_state: Map::empty(), log: Seq::empty() }
    }

    /// The client's account; one that was never referred to has no funds and is not locked.
    pub open spec fn account(self, client: AccountId) -> AccountView {
        if self.accounts.contains_key(client) {
            self.accounts[client]
        } else {
            AccountView::opened(client)
        }
    }

    /// Whether the log holds an entry with this transaction id, whatever its kind and outcome.
    pub open spec fn seen(self, id: u32) -> bool {
        logged(self.log, id)
    }

    /// What is remembered under a transaction id, if anything.
    pub open spec fn state(self, id: u32) -> Option<TxState> {
        if self.tx_state.contains_key(id) {
            Some(self.tx_state[id])
        } else {
            None
        }
    }

    /// The status that the transaction gets.
    pub open spec fn status(self, tx: Transaction) -> TransactionStatus {
        let account = self.account(tx.client);
        if account.locked {
            TransactionStatus::IgnoredLocked
        } else if tx._type.moves_funds() {
            funds_status(account, tx._type, tx.amount, self.seen(tx.tx))
        } else {
            reference_status(account, tx._type, self.state(tx.tx))
        }
    }

    /// The amount that the transaction moves where it is applied: its own for a deposit or a
    /// withdrawal, else that of the transaction it refers to.
    pub open spec fn moved(self, tx: Transaction) -> Amount {
        if tx._type.moves_funds() {
            tx.amount.unwrap()
        } else {
            self.tx_state[tx.tx].amount
        }
    }

    /// The ledger after the transaction: the client has an account, the log has one entry more,
    /// and nothing else differs unless the transaction was applied.
    pub open spec fn step(self, tx: Transaction) -> Ledger {
        let status = self.status(tx);
        let account = self.account(tx.client);
        if status == TransactionStatus::Applied {
            Ledger {
                accounts: self.accounts.insert(
                    tx.client,
                    account_after(account, tx._type, self.moved(tx) as int),
                ),
                tx_state: self.tx_state.insert(
                    tx.tx,
                    TxState {
                        client: tx.client,
                        amount: self.moved(tx),
                        dispute_state: state_after(tx._type),
                    },
                ),
                log: self.log.push(TransactionEntry { tx, status }),
            }
        } else {
            Ledger {
                accounts: self.accounts.insert(tx.client, account),
                tx_state: self.tx_state,
                log: self.log.push(TransactionEntry { tx, status }),
            }
        }
    }

    /// The ledger after a batch of transactions, taken in order.
    pub open spec fn run(self, batch: Seq<Transaction>) -> Ledger
        decreases batch.len(),
    {
        if batch.len() == 0 {
            self
        } else {
            self.run(batch.drop_last()).step(batch.last())
        }
    }

    /// What holds of every ledger that the engine reaches: each account stands under its own
    /// client, its funds add up, and its total is at most what as many transactions as the log
    /// holds can have brought in; what is remembered has a positive amount and an id that the
    /// log holds.
    pub open spec fn wf(self) -> bool {
        &&& forall|client: AccountId| #[trigger]
            self.accounts.contains_key(client) ==> {
                &&& self.accounts[client].client == client
                &&& self.accounts[client].balanced()
                &&& self.accounts[client].total <= self.log.len() * amount_limit()
            }
        &&& forall|id: u32| #[trigger]
            self.tx_state.contains_key(id) ==> {
                &&& self.tx_state[id].amount > 0
                &&& self.seen(id)
            }
    }
}

/// What is remembered of a transaction with this status: of an applied one its client, the amount
/// that it moved and the state that it leaves behind; of any other, nothing.
pub open spec fn remembered(
    status: TransactionStatus,
    kind: TransactionType,
    client: AccountId,
    amount: Amount,
) -> Option<TxState> {
    if status == TransactionStatus::Applied {
        Some(TxState { client, amount, dispute_state: state_after(kind) })
    } else {
        None
    }
}

/// Applies a deposit or a withdrawal to an account that is not locked, and says what there is to
/// remember of it.
fn move_funds(
    account: &mut Account,
    kind: TransactionType,
    amount: Option<Amount>,
    duplicate: bool,
) -> (outcome: (TransactionStatus, Option<TxState>))
    requires
        kind.moves_funds(),
        old(account).wf(),
        old(account)@.total + amount_limit() <= i128::MAX,
    ensures
        outcome.0 == funds_status(old(account)@, kind, amount, duplicate),
        final(account).wf(),
        match amount {
            Some(amount) => {
                &&& outcome.1 == remembered(outcome.0, kind, old(account)@.client, amount)
                &&& final(account)@ == if outcome.0 == TransactionStatus::Applied {
                    account_after(old(account)@, kind, amount as int)
                } else {
                    old(account)@
                }
            },
            None => outcome.1 is None && final(account)@ == old(account)@,
        },
{
    let Some(amount) = amount else {
        return (TransactionStatus::FailedInvalidAmount, None);
    };
    if duplicate {
        return (TransactionStatus::FailedDuplicateTxID, None);
    }
    if amount <= 0 {
        return (TransactionStatus::FailedInvalidAmount, None);
    }
    match kind {
        TransactionType::Withdrawal => {
            if account.withdraw(amount).is_err() {
                return (TransactionStatus::FailedInsufficientFunds, None);
            }
        },
        _ => account.deposit(amount),
    }
    let state = TxState { client: account.client(), amount, dispute_state: DisputeState::Normal };
    (TransactionStatus::Applied, Some(state))
}

/// Applies a dispute, a resolve or a chargeback to an account that is not locked, given what
/// the engine remembers under the id that the transaction refers to, and says what there is to
/// remember in its place.
fn move_reference(account: &mut Account, kind: TransactionType, state: Option<TxState>) -> (outcome:
    (TransactionStatus, Option<TxState>))
    requires
        !kind.moves_funds(),
        old(account).wf(),
        state is Some ==> state.unwrap().amount >= 0,
    ensures
        outcome.0 == reference_status(old(account)@, kind, state),
        final(account).wf(),
        match state {
            Some(state) => {
                &&& outcome.1 == remembered(outcome.0, kind, old(account)@.client, state.amount)
                &&& final(account)@ == if outcome.0 == TransactionStatus::Applied {
                    account_after(old(account)@, kind, state.amount as int)
                } else {
                    old(account)@
                }
            },
            None => outcome.1 is None && final(account)@ == old(account)@,
        },
{
    let Some(state) = state else {
        return (TransactionStatus::IgnoredMissingReference, None);
    };
    if state.client != account.client() {
        return (TransactionStatus::IgnoredMissingReference, None);
    }
    let (moved, dispute_state) = match kind {
        TransactionType::Dispute => {
            if state.is_under_dispute() {
                return (TransactionStatus::IgnoredMissingReference, None);
            }
            (account.dispute(state.amount), DisputeState::Disputed)
        },
        TransactionType::Resolve => {
            if !state.is_under_dispute() {
                return (TransactionStatus::IgnoredMissingReference, None);
            }
            (account.resolve(state.amount), DisputeState::Resolved)
        },
        _ => {
            if !state.is_under_dispute() {
                return (TransactionStatus::IgnoredMissingReference, None);
            }
            (account.chargeback(state.amount), DisputeState::Chargeback)
        },
    };
    if moved.is_err() {
        return (TransactionStatus::IgnoredMissingReference, None);
    }
    (TransactionStatus::Applied, Some(TxState { dispute_state, ..state }))
}

/// The transaction ids that the entries of a log hold.
fn index_of(log: &Vec<TransactionEntry>) -> (ids: HashSet<u32>)
    ensures
        forall|id: u32| ids@.contains(id) <==> logged(log@, id),
{
    let mut ids: HashSet<u32> = HashSet::new();
    let mut done: usize = 0;
    while done < log.len()
        invariant
            done <= log.len(),
            forall|id: u32| ids@.contains(id) <==> logged(log@.take(done as int), id),
        decreases log.len() - done,
    {
        let ghost before = log@.take(done as int);
        let ghost after = log@.take(done + 1);
        ids.insert(log[done].tx.tx);
        proof {
            assert(after.drop_last() == before);
            assert forall|id: u32| ids@.contains(id) <==> logged(after, id) by {
                if logged(before, id) {
                    let i = choose|i: int| 0 <= i < before.len() && (#[trigger] before[i]).tx.tx == id;
                    assert(after[i] == before[i]);
                }
                if id == log@[done as int].tx.tx {
                    assert(after[done as int].tx.tx == id);
                }
                if logged(after, id) && id != log@[done as int].tx.tx {
                    let i = choose|i: int| 0 <= i < after.len() && (#[trigger] after[i]).tx.tx == id;
                    assert(before[i] == after[i]);
                }
            }
        }
        done = done + 1;
    }
    assert(log@.take(done as int) == log@);
    ids
}

/// Owns the accounts and the log, and applies transactions to them one by one.
#[derive(Debug)]
pub struct Engine {
    accounts: HashMap<AccountId, Account>,
    /// Every transaction that came in, with its outcome, in order of arrival.
    transactions: Vec<TransactionEntry>,
    /// What is remembered of each applied deposit and withdrawal, by its id.
    tx_state: HashMap<u32, TxState>,
    /// The transaction ids that the log holds.
    seen: HashSet<u32>,
}

/// A map of accounts as mathematics: each account by its view.
pub open spec fn accounts_view(accounts: Map<AccountId, Account>) -> Map<AccountId, AccountView> {
    Map::new(
        |client: AccountId| accounts.contains_key(client),
        |client: AccountId| accounts[client]@,
    )
}

impl View for Engine {
    type V = Ledger;

    closed spec fn view(&self) -> Ledger {
        Ledger {
            accounts: accounts_view(self.accounts@),
            tx_state: self.tx_state@,
            log: self.transactions@,
        }
    }
}

impl Clone for Engine {
    fn clone(&self) -> (engine: Engine)
        ensures
            engine@ == self@,
            self@.wf() ==> engine.wf(),
    {
        let transactions = self.transactions.clone();
        assert(transactions@ =~= self.transactions@);
        let engine = Engine {
            accounts: self.accounts.clone(),
            seen: index_of(&transactions),
            transactions,
            tx_state: self.tx_state.clone(),
        };
        assert(engine@.accounts =~= self@.accounts);
        engine
    }
}

impl Engine {
    /// The index of transaction ids holds exactly the ids of the log.
    pub closed spec fn indexed(&self) -> bool {
        forall|id: u32| self.seen@.contains(id) <==> self@.seen(id)
    }

    /// The engine is in a state that it can reach: its ledger is valid, and its index of
    /// transaction ids agrees with its log.
    pub open spec fn wf(&self) -> bool {
        &&& self@.wf()
        &&& self.indexed()
    }

    pub fn new() -> (engine: Engine)
        ensures
            engine@ == Ledger::empty(),
            engine.wf(),
    {
        let engine = Engine {
            accounts: HashMap::new(),
            transactions: Vec::new(),
            tx_state: HashMap::new(),
            seen: HashSet::new(),
        };
        assert(engine@.accounts =~= Map::empty());
        engine
    }

    /// Takes one transaction: makes sure that its client has an account, decides the
    /// transaction's status, applies it where the status is `Applied`, and logs it.
    pub fn process(&mut self, tx: Transaction)
        requires
            old(self).wf(),
        ensures
            final(self).wf(),
            final(self)@ == old(self)@.step(tx),
    {
        let ghost before = self@;
        let mut account = match self.accounts.get(&tx.client) {
            Some(account) => *account,
            None => Account::new(tx.client),
        };
        assert(account@ == before.account(tx.client));
        let status = if account.is_locked() {
            TransactionStatus::IgnoredLocked
        } else {
            let (status, state) = match tx._type {
                TransactionType::Deposit | TransactionType::Withdrawal => {
                    let duplicate = self.seen.contains(&tx.tx);
                    proof {
                        account.lemma_in_range();
                        assert(self.transactions@.len() == self.transactions.len());
                    }
                    move_funds(&mut account, tx._type, tx.amount, duplicate)
                },
                _ => {
                    let state = match self.tx_state.get(&tx.tx) {
                        Some(state) => Some(*state),
                        None => None,
                    };
                    assert(state == before.state(tx.tx));
                    move_reference(&mut account, tx._type, state)
                },
            };
            if let Some(state) = state {
                self.tx_state.insert(tx.tx, state);
            }
            status
        };
        assert(status == before.status(tx));
        self.accounts.insert(tx.client, account);
        self.seen.insert(tx.tx);
        self.transactions.push(TransactionEntry { tx, status });
        proof {
            let after = before.step(tx);
            assert(self@.log == after.log);
            assert(self@.tx_state == after.tx_state);
            assert(self@.accounts =~= after.accounts);
            lemma_step_keeps_wf(before, tx);
            assert forall|id: u32| self.seen@.contains(id) <==> self@.seen(id) by {
                lemma_step_seen(before, tx, id);
            }
        }
    }

    pub fn get_account(&self, account_id: AccountId) -> (account: Option<&Account>)
        ensures
            match account {
                Some(account) => self@.accounts.contains_key(account_id) && account@
                    == self@.accounts[account_id],
                None => !self@.accounts.contains_key(account_id),
            },
    {
        self.accounts.get(&account_id)
    }

    pub fn get_accounts(&self) -> (accounts: &HashMap<AccountId, Account>)
        ensures
            accounts_view(accounts@) == self@.accounts,
    {
        &self.accounts
    }

    pub fn get_transactions(&self) -> (log: &Vec<TransactionEntry>)
        ensures
            log@ == self@.log,
    {
        &self.transactions
    }
}

impl Default for Engine {
    fn default() -> (engine: Engine)
        ensures
            engine@ == Ledger::empty(),
            engine.wf(),
    {
        Engine::new()
    }
}

/// A step takes a valid ledger to a valid ledger.
pub proof fn lemma_step_keeps_wf(ledger: Ledger, tx: Transaction)
    requires
        ledger.wf(),
    ensures
        ledger.step(tx).wf(),
{
    let after = ledger.step(tx);
    assert forall|id: u32| ledger.seen(id) implies after.seen(id) by {
        lemma_step_seen(ledger, tx, id);
    }
    lemma_step_seen(ledger, tx, tx.tx);
    assert(ledger.log.len() * amount_limit() + amount_limit() == after.log.len() * amount_limit())
        by (nonlinear_arith)
        requires
            after.log.len() == ledger.log.len() + 1,
    ;
}

/// After a step the log holds the ids that it held, and the id of the transaction.
pub proof fn lemma_step_seen(ledger: Ledger, tx: Transaction, id: u32)
    ensures
        ledger.step(tx).seen(id) <==> ledger.seen(id) || id == tx.tx,
{
    let after = ledger.step(tx);
    let last = ledger.log.len() as int;
    assert(after.log.len() == last + 1);
    assert(after.log[last].tx == tx);
    if ledger.seen(id) {
        let i = choose|i: int| 0 <= i < ledger.log.len() && (#[trigger] ledger.log[i]).tx.tx == id;
        assert(after.log[i] == ledger.log[i]);
    }
    if after.seen(id) && id != tx.tx {
        let i = choose|i: int| 0 <= i < after.log.len() && (#[trigger] after.log[i]).tx.tx == id;
        assert(after.log[i] == ledger.log[i]);
    }
}

} // verus!
