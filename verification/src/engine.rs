//! The engine: the ledger in hash maps, one record at a time.

use std::collections::HashMap;
use vstd::prelude::*;
use vstd::std_specs::hash::group_hash_axioms;
use crate::error::LedgerError;
use crate::laws::{lemma_step_keeps_balance, lemma_step_keeps_keys, lemma_step_keeps_locks};
use crate::ledger::{Ledger, Outcome};
use crate::model::{Account, AccountModel, Action, Transaction, TransactionModel};

verus! {

/// The stored transactions of an engine as the ledger sees them.
pub open spec fn transactions_model(stored: Map<u32, Transaction>) -> Map<u32, TransactionModel> {
    Map::new(|id: u32| stored.contains_key(id), |id: u32| stored[id]@)
}

/// The accounts of an engine as the ledger sees them.
pub open spec fn accounts_model(accounts: Map<u16, Account>) -> Map<u16, AccountModel> {
    Map::new(|client: u16| accounts.contains_key(client), |client: u16| accounts[client]@)
}

/// Storing a transaction in the table stores its model in the model of
/// the table.
proof fn lemma_store_transaction(stored: Map<u32, Transaction>, id: u32, transaction: Transaction)
    ensures
        transactions_model(stored.insert(id, transaction)) == transactions_model(stored).insert(
            id,
            transaction@,
        ),
{
    assert(transactions_model(stored.insert(id, transaction)) =~= transactions_model(
        stored,
    ).insert(id, transaction@));
}

/// Storing an account in the table stores its model in the model of the
/// table.
proof fn lemma_store_account(accounts: Map<u16, Account>, client: u16, account: Account)
    ensures
        accounts_model(accounts.insert(client, account)) == accounts_model(accounts).insert(
            client,
            account@,
        ),
{
    assert(accounts_model(accounts.insert(client, account)) =~= accounts_model(accounts).insert(
        client,
        account@,
    ));
}

/// The ledger engine. It owns the table of stored transactions and the
/// table of accounts, both open to the reader.
pub struct Engine {
    pub transactions: HashMap<u32, Transaction>,
    pub accounts: HashMap<u16, Account>,
}

impl View for Engine {
    type V = Ledger;

    open spec fn view(&self) -> Ledger {
        Ledger {
            transactions: transactions_model(self.transactions@),
            accounts: accounts_model(self.accounts@),
        }
    }
}

impl Default for Engine {
    fn default() -> (result: Engine)
        ensures
            result@ == Ledger::empty(),
    {
        Engine::new()
    }
}

impl Engine {
    /// An engine that has seen no record.
    pub fn new() -> (result: Engine)
        ensures
            result@ == Ledger::empty(),
    {
        let result = Engine { transactions: HashMap::new(), accounts: HashMap::new() };
        assert(result@.transactions =~= Map::empty());
        assert(result@.accounts =~= Map::empty());
        result
    }

    /// Looks up the account of `client`, and makes a fresh one where there
    /// is none.
    fn open_account(&mut self, client: u16) -> (account: Account)
        ensures
            final(self)@ == old(self)@.open_account(client),
            final(self).accounts@.contains_key(client),
            account == final(self).accounts@[client],
            account@.representable(),
    {
        broadcast use group_hash_axioms;

        let account = match self.accounts.get(&client) {
            Some(account) => *account,
            None => {
                let fresh = Account::new(client);
                proof {
                    lemma_store_account(self.accounts@, client, fresh);
                }
                self.accounts.insert(client, fresh);
                fresh
            },
        };
        proof {
            use_type_invariant(&account.available);
            use_type_invariant(&account.held);
            use_type_invariant(&account.total);
        }
        account
    }

    /// Puts `account` in the place of `client`'s.
    fn store_account(&mut self, client: u16, account: Account)
        ensures
            final(self)@ == old(self)@.with_account(client, account@),
    {
        broadcast use group_hash_axioms;

        proof {
            lemma_store_account(self.accounts@, client, account);
        }
        self.accounts.insert(client, account);
    }

    /// Stores `transaction` under `id`.
    fn store_transaction(&mut self, id: u32, transaction: Transaction)
        ensures
            final(self)@ == old(self)@.with_transaction(id, transaction@),
    {
        broadcast use group_hash_axioms;

        proof {
            lemma_store_transaction(self.transactions@, id, transaction);
        }
        self.transactions.insert(id, transaction);
    }

    /// The stored transaction that `entry` names, where `account` owns it.
    fn owned_target(&self, account: Account, entry: Transaction) -> (result: Option<Transaction>)
        requires
            self.accounts@.contains_key(entry.client_id),
            account == self.accounts@[entry.client_id],
        ensures
            result.is_some() == self@.owns_target(entry@),
            result matches Some(target) ==> target == self.transactions@[entry.id],
    {
        broadcast use group_hash_axioms;

        match self.transactions.get(&entry.id) {
            Some(target) => if target.client_id == account.id {
                Some(*target)
            } else {
                None
            },
            None => None,
        }
    }

    /// Applies a deposit to `account`, the account of its client, and
    /// stores it.
    fn deposit(&mut self, account: Account, entry: Transaction) -> (result: Result<
        (),
        LedgerError,
    >)
        requires
            old(self).accounts@.contains_key(entry.client_id),
            account == old(self).accounts@[entry.client_id],
            account@.representable(),
        ensures
            (Outcome { ledger: final(self)@, result }) == old(self)@.deposit(entry@).limited(
                old(self)@,
                entry.client_id,
            ),
    {
        match entry.amount {
            Some(amount) => {
                if account.available.checked_add(amount).is_some() && account.total.checked_add(
                    amount,
                ).is_some() {
                    let mut account = account;
                    account.deposit(amount);
                    self.store_account(entry.client_id, account);
                    self.store_transaction(
                        entry.id,
                        Transaction { is_under_dispute: false, failed: false, ..entry },
                    );
                    Ok(())
                } else {
                    Err(LedgerError::Overflow)
                }
            },
            None => Err(LedgerError::DepositWithoutAmount),
        }
    }

    /// Applies a withdrawal to `account`, the account of its client, where
    /// the account has the funds, and stores it either way.
    fn withdrawal(&mut self, account: Account, entry: Transaction) -> (result: Result<
        (),
        LedgerError,
    >)
        requires
            old(self).accounts@.contains_key(entry.client_id),
            account == old(self).accounts@[entry.client_id],
            account@.representable(),
        ensures
            (Outcome { ledger: final(self)@, result }) == old(self)@.withdrawal(entry@).limited(
                old(self)@,
                entry.client_id,
            ),
    {
        match entry.amount {
            Some(amount) => {
                if !amount.at_most(account.available) {
                    self.store_transaction(
                        entry.id,
                        Transaction { is_under_dispute: false, failed: true, ..entry },
                    );
                    Ok(())
                } else if account.available.checked_sub(amount).is_some()
                    && account.total.checked_sub(amount).is_some() {
                    let mut account = account;
                    account.withdraw(amount);
                    self.store_account(entry.client_id, account);
                    self.store_transaction(
                        entry.id,
                        Transaction { is_under_dispute: false, failed: false, ..entry },
                    );
                    Ok(())
                } else {
                    Err(LedgerError::Overflow)
                }
            },
            None => Err(LedgerError::WithdrawWithoutAmount),
        }
    }

    /// Marks the stored transaction that a dispute names and freezes its
    /// amount in `account`, where `account` owns it and it is not under
    /// dispute.
    fn dispute(&mut self, account: Account, entry: Transaction) -> (result: Result<
        (),
        LedgerError,
    >)
        requires
            old(self).accounts@.contains_key(entry.client_id),
            account == old(self).accounts@[entry.client_id],
            account@.representable(),
        ensures
            (Outcome { ledger: final(self)@, result }) == old(self)@.dispute(entry@).limited(
                old(self)@,
                entry.client_id,
            ),
    {
        let target = match self.owned_target(account, entry) {
            Some(target) => target,
            None => {
                return Ok(());
            },
        };
        if target.is_under_dispute {
            return Ok(());
        }
        let marked = Transaction { is_under_dispute: true, ..target };
        match target.amount_with_sign() {
            Some(amount) => {
                if account.available.checked_sub(amount).is_some() && account.held.checked_add(
                    amount,
                ).is_some() {
                    let mut account = account;
                    account.dispute(amount);
                    self.store_transaction(entry.id, marked);
                    self.store_account(entry.client_id, account);
                    Ok(())
                } else {
                    Err(LedgerError::Overflow)
                }
            },
            None => {
                self.store_transaction(entry.id, marked);
                Err(LedgerError::DisputeWithoutAmount)
            },
        }
    }

    /// Clears the mark of the stored transaction that a resolve names and
    /// releases its amount in `account`, where `account` owns it and it is
    /// under dispute.
    fn resolve(&mut self, account: Account, entry: Transaction) -> (result: Result<
        (),
        LedgerError,
    >)
        requires
            old(self).accounts@.contains_key(entry.client_id),
            account == old(self).accounts@[entry.client_id],
            account@.representable(),
        ensures
            (Outcome { ledger: final(self)@, result }) == old(self)@.resolve(entry@).limited(
                old(self)@,
                entry.client_id,
            ),
    {
        let target = match self.owned_target(account, entry) {
            Some(target) => target,
            None => {
                return Ok(());
            },
        };
        if !target.is_under_dispute {
            return Ok(());
        }
        let cleared = Transaction { is_under_dispute: false, ..target };
        match target.amount_with_sign() {
            Some(amount) => {
                if account.available.checked_add(amount).is_some() && account.held.checked_sub(
                    amount,
                ).is_some() {
                    let mut account = account;
                    account.resolve(amount);
                    self.store_transaction(entry.id, cleared);
                    self.store_account(entry.client_id, account);
                    Ok(())
                } else {
                    Err(LedgerError::Overflow)
                }
            },
            None => {
                self.store_transaction(entry.id, cleared);
                Err(LedgerError::ResolveWithoutAmount)
            },
        }
    }

    /// Clears the mark of the stored transaction that a chargeback names,
    /// gives its amount back from `account` and locks `account`, where
    /// `account` owns it and it is under dispute.
    fn chargeback(&mut self, account: Account, entry: Transaction) -> (result: Result<
        (),
        LedgerError,
    >)
        requires
            old(self).accounts@.contains_key(entry.client_id),
            account == old(self).accounts@[entry.client_id],
            account@.representable(),
        ensures
            (Outcome { ledger: final(self)@, result }) == old(self)@.chargeback(entry@).limited(
                old(self)@,
                entry.client_id,
            ),
    {
        let target = match self.owned_target(account, entry) {
            Some(target) => target,
            None => {
                return Ok(());
            },
        };
        if !target.is_under_dispute {
            return Ok(());
        }
        let cleared = Transaction { is_under_dispute: false, ..target };
        match target.amount_with_sign() {
            Some(amount) => {
                if account.held.checked_sub(amount).is_some() && account.total.checked_sub(
                    amount,
                ).is_some() {
                    let mut account = account;
                    account.chargeback(amount);
                    self.store_transaction(entry.id, cleared);
                    self.store_account(entry.client_id, account);
                    Ok(())
                } else {
                    Err(LedgerError::Overflow)
                }
            },
            None => {
                self.store_transaction(entry.id, cleared);
                Err(LedgerError::DisputeWithoutAmount)
            },
        }
    }

    /// Applies one record. The client's account is opened first. Then the
    /// record does what [`Ledger::step`] says of it, unless that would take
    /// a balance out of the range that an account can hold: then nothing
    /// more is done and the result is [`LedgerError::Overflow`].
    ///
    /// The balances of the client's account are in that range before the
    /// call and after it, so a record that moves nothing never ends the
    /// run. Whatever the record, accounts that were balanced stay balanced,
    /// accounts that were locked stay locked, and accounts that stood under
    /// their own ids still do.
    pub fn process(&mut self, entry: Transaction) -> (result: Result<(), LedgerError>)
        ensures
            (Outcome { ledger: final(self)@, result }) == old(self)@.bounded_step(entry@),
            old(self)@.account_of(entry.client_id).representable(),
            final(self)@.accounts.contains_key(entry.client_id),
            final(self)@.accounts[entry.client_id].representable(),
            old(self)@.balanced() ==> final(self)@.balanced(),
            old(self)@.keyed() ==> final(self)@.keyed(),
            old(self)@.locks_kept_by(final(self)@),
    {
        proof {
            if self@.balanced() {
                lemma_step_keeps_balance(self@, entry@);
            }
            if self@.keyed() {
                lemma_step_keeps_keys(self@, entry@);
            }
            lemma_step_keeps_locks(self@, entry@);
        }
        let account = self.open_account(entry.client_id);
        match entry.action {
            Action::Deposit => self.deposit(account, entry),
            Action::Withdrawal => self.withdrawal(account, entry),
            Action::Dispute => self.dispute(account, entry),
            Action::Resolve => self.resolve(account, entry),
            Action::Chargeback => self.chargeback(account, entry),
        }
    }
}

} // verus!
