//! The ledger as mathematics: two maps, and one step per record.

use vstd::prelude::*;
use crate::error::LedgerError;
use crate::model::{AccountModel, Action, TransactionModel};

verus! {

/// The state of the ledger: the deposits and withdrawals seen so far, by
/// transaction id, and one account per client seen so far.
pub struct Ledger {
    pub transactions: Map<u32, TransactionModel>,
    pub accounts: Map<u16, AccountModel>,
}

/// What one record does: the state it leaves, and whether the run goes on.
pub struct Outcome {
    pub ledger: Ledger,
    pub result: Result<(), LedgerError>,
}

impl Outcome {
    /// This outcome where it leaves the balances of `client`'s account in
    /// the range that an account can hold. Where it does not, the run ends
    /// on the ledger `opened`.
    pub open spec fn limited(self, opened: Ledger, client: u16) -> Outcome {
        if self.ledger.accounts[client].representable() {
            self
        } else {
            Outcome { ledger: opened, result: Err(LedgerError::Overflow) }
        }
    }
}

impl Ledger {
    /// The ledger before any record.
    pub open spec fn empty() -> Ledger {
        Ledger { transactions: Map::empty(), accounts: Map::empty() }
    }

    /// Every account's total is what it has available and held together.
    pub open spec fn balanced(self) -> bool {
        forall|client: u16| #[trigger]
            self.accounts.contains_key(client) ==> self.accounts[client].balanced()
    }

    /// Every account stands under the id that it carries.
    pub open spec fn keyed(self) -> bool {
        forall|client: u16| #[trigger]
            self.accounts.contains_key(client) ==> self.accounts[client].id == client
    }

    /// Every account that is locked in `self` is there and locked in
    /// `later`.
    pub open spec fn locks_kept_by(self, later: Ledger) -> bool {
        forall|client: u16| #[trigger]
            self.accounts.contains_key(client) && self.accounts[client].locked ==> (
            later.accounts.contains_key(client) && later.accounts[client].locked)
    }

    /// Every account of `self` other than `client`'s is the same in
    /// `later`, which has no further account but perhaps `client`'s.
    pub open spec fn other_accounts_kept_by(self, later: Ledger, client: u16) -> bool {
        forall|other: u16|
            other != client ==> (#[trigger] later.accounts.contains_key(other)
                == self.accounts.contains_key(other)) && (self.accounts.contains_key(other)
                ==> later.accounts[other] == self.accounts[other])
    }

    /// The account of `client` as a record for that client finds it: the
    /// one the ledger has, or a fresh one.
    pub open spec fn account_of(self, client: u16) -> AccountModel {
        self.open_account(client).accounts[client]
    }

    /// The ledger with an account for `client`: the one it has, or a fresh
    /// one.
    pub open spec fn open_account(self, client: u16) -> Ledger {
        if self.accounts.contains_key(client) {
            self
        } else {
            Ledger { accounts: self.accounts.insert(client, AccountModel::fresh(client)), ..self }
        }
    }

    /// The ledger with `account` in the place of `client`'s.
    pub open spec fn with_account(self, client: u16, account: AccountModel) -> Ledger {
        Ledger { accounts: self.accounts.insert(client, account), ..self }
    }

    /// The ledger with `transaction` stored under `id`.
    pub open spec fn with_transaction(self, id: u32, transaction: TransactionModel) -> Ledger {
        Ledger { transactions: self.transactions.insert(id, transaction), ..self }
    }

    /// Whether `entry` names, by its id, a stored transaction that belongs
    /// to the account of the client that `entry` names.
    pub open spec fn owns_target(self, entry: TransactionModel) -> bool {
        &&& self.transactions.contains_key(entry.id)
        &&& self.accounts.contains_key(entry.client_id)
        &&& self.transactions[entry.id].client_id == self.accounts[entry.client_id].id
    }

    /// A deposit adds its amount to the client's account and is stored,
    /// undisputed and not failed.
    pub open spec fn deposit(self, entry: TransactionModel) -> Outcome {
        match entry.amount {
            Some(amount) => Outcome {
                ledger: self.with_account(
                    entry.client_id,
                    self.accounts[entry.client_id].deposit(amount),
                ).with_transaction(
                    entry.id,
                    TransactionModel { is_under_dispute: false, failed: false, ..entry },
                ),
                result: Ok(()),
            },
            None => Outcome { ledger: self, result: Err(LedgerError::DepositWithoutAmount) },
        }
    }

    /// A withdrawal of no more than is available takes its amount from the
    /// client's account. One of more changes no balance and is stored as
    /// failed.
    pub open spec fn withdrawal(self, entry: TransactionModel) -> Outcome {
        match entry.amount {
            Some(amount) => {
                let account = self.accounts[entry.client_id];
                if amount <= account.available {
                    Outcome {
                        ledger: self.with_account(
                            entry.client_id,
                            account.withdraw(amount),
                        ).with_transaction(
                            entry.id,
                            TransactionModel { is_under_dispute: false, failed: false, ..entry },
                        ),
                        result: Ok(()),
                    }
                } else {
                    Outcome {
                        ledger: self.with_transaction(
                            entry.id,
                            TransactionModel { is_under_dispute: false, failed: true, ..entry },
                        ),
                        result: Ok(()),
                    }
                }
            },
            None => Outcome { ledger: self, result: Err(LedgerError::WithdrawWithoutAmount) },
        }
    }

    /// A dispute of a stored transaction that the client's account owns and
    /// that is not under dispute marks it and freezes its signed amount.
    /// Any other dispute does nothing: one of a transaction that is under
    /// dispute already moves no funds a second time. Where the stored
    /// transaction has no amount, it is marked and the run ends.
    pub open spec fn dispute(self, entry: TransactionModel) -> Outcome {
        if self.owns_target(entry) && !self.transactions[entry.id].is_under_dispute {
            let target = self.transactions[entry.id];
            let marked = self.with_transaction(
                entry.id,
                TransactionModel { is_under_dispute: true, ..target },
            );
            match target.amount_with_sign() {
                Some(amount) => Outcome {
                    ledger: marked.with_account(
                        entry.client_id,
                        self.accounts[entry.client_id].dispute(amount),
                    ),
                    result: Ok(()),
                },
                None => Outcome { ledger: marked, result: Err(LedgerError::DisputeWithoutAmount) },
            }
        } else {
            Outcome { ledger: self, result: Ok(()) }
        }
    }

    /// A resolve of a disputed transaction that the client's account owns
    /// clears the mark and releases its signed amount. Any other resolve
    /// does nothing. Where the stored transaction has no amount, the mark
    /// is cleared and the run ends.
    pub open spec fn resolve(self, entry: TransactionModel) -> Outcome {
        if self.owns_target(entry) && self.transactions[entry.id].is_under_dispute {
            let target = self.transactions[entry.id];
            let cleared = self.with_transaction(
                entry.id,
                TransactionModel { is_under_dispute: false, ..target },
            );
            match target.amount_with_sign() {
                Some(amount) => Outcome {
                    ledger: cleared.with_account(
                        entry.client_id,
                        self.accounts[entry.client_id].resolve(amount),
                    ),
                    result: Ok(()),
                },
                None => Outcome { ledger: cleared, result: Err(LedgerError::ResolveWithoutAmount) },
            }
        } else {
            Outcome { ledger: self, result: Ok(()) }
        }
    }

    /// A chargeback of a disputed transaction that the client's account
    /// owns clears the mark, gives its signed amount back and locks the
    /// account. Any other chargeback does nothing. Where the stored
    /// transaction has no amount, the mark is cleared and the run ends,
    /// with the fault that a dispute gives.
    pub open spec fn chargeback(self, entry: TransactionModel) -> Outcome {
        if self.owns_target(entry) && self.transactions[entry.id].is_under_dispute {
            let target = self.transactions[entry.id];
            let cleared = self.with_transaction(
                entry.id,
                TransactionModel { is_under_dispute: false, ..target },
            );
            match target.amount_with_sign() {
                Some(amount) => Outcome {
                    ledger: cleared.with_account(
                        entry.client_id,
                        self.accounts[entry.client_id].chargeback(amount),
                    ),
                    result: Ok(()),
                },
                None => Outcome { ledger: cleared, result: Err(LedgerError::DisputeWithoutAmount) },
            }
        } else {
            Outcome { ledger: self, result: Ok(()) }
        }
    }

    /// What the record `entry` does to the ledger. The client's account is
    /// opened first, whatever the record then turns out to be.
    pub open spec fn step(self, entry: TransactionModel) -> Outcome {
        let opened = self.open_account(entry.client_id);
        match entry.action {
            Action::Deposit => opened.deposit(entry),
            Action::Withdrawal => opened.withdrawal(entry),
            Action::Dispute => opened.dispute(entry),
            Action::Resolve => opened.resolve(entry),
            Action::Chargeback => opened.chargeback(entry),
        }
    }

    /// What `entry` does to a ledger whose accounts hold bounded balances:
    /// what [`Ledger::step`] says, unless that takes a balance of the
    /// client's account out of range. Then the run ends, with nothing done
    /// but the client's account opened.
    pub open spec fn bounded_step(self, entry: TransactionModel) -> Outcome {
        self.step(entry).limited(self.open_account(entry.client_id), entry.client_id)
    }

    /// The ledger after the records of `entries` in their order, each
    /// applied by [`Ledger::bounded_step`], up to and with the first that
    /// ends the run.
    pub open spec fn run(self, entries: Seq<TransactionModel>) -> Ledger
        decreases entries.len(),
    {
        if entries.len() == 0 {
            self
        } else {
            let outcome = self.bounded_step(entries[0]);
            if outcome.result.is_ok() {
                outcome.ledger.run(entries.drop_first())
            } else {
                outcome.ledger
            }
        }
    }
}

} // verus!
